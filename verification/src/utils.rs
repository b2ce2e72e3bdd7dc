//! What the two views share: display width and padding, the glyph of a
//! file name, the texts of sizes and creation times, the ordering of
//! entries and the choice of the entries shown.

use crate::decimal::{decimal_string, digit_char, digit_str, two_digits};
use crate::element::{element_of, element_views, Element, ElementView, FileStat, Timestamp};
use crate::size::{size_exponent, size_hundredths, size_text, unit_size, unit_text};
use crate::sorting::{
    as_ints, is_permutation, key_le, key_views, lemma_stable_order_upto, lemma_text_le_reflexive,
    same_chars, stable_order, stable_order_of, stable_order_upto, text_le, SortKey, SortKeyView,
};
use vstd::prelude::*;
use vstd::string::*;

verus! {

/// `n` space characters.
pub open spec fn spaces(n: nat) -> Seq<char> {
    Seq::new(n, |i: int| ' ')
}

/// The number of spaces that bring a text of `len` display units to `width`.
pub open spec fn pad_amount(len: nat, width: nat) -> nat {
    if width >= len {
        (width - len) as nat
    } else {
        0
    }
}

/// `s` brought to at least `width` display units by spaces: behind the text
/// when `after` holds, in front of it otherwise. The text is never cut.
pub open spec fn pad_text(s: Seq<char>, width: nat, after: bool) -> Seq<char> {
    if after {
        s + spaces(pad_amount(s.len(), width))
    } else {
        spaces(pad_amount(s.len(), width)) + s
    }
}

/// Padding never cuts and never falls short: a text no wider than `width`
/// is padded to exactly `width`, a wider one is left as it is, and the
/// padded text holds the text unchanged, at its start when padded behind
/// and at its end when padded in front.
pub proof fn lemma_pad_text(s: Seq<char>, width: nat, after: bool)
    ensures
        width >= s.len() ==> pad_text(s, width, after).len() == width,
        width < s.len() ==> pad_text(s, width, after) == s,
        after ==> s.is_prefix_of(pad_text(s, width, after)),
        !after ==> s.is_suffix_of(pad_text(s, width, after)),
{
}

/// The display width of a text: its number of Unicode scalar values.
pub fn get_string_length(s: &str) -> (len: usize)
    ensures
        len == s@.len(),
{
    s.unicode_len()
}

/// Pads `s` with spaces up to `pad` display units.
pub fn pad_string(s: String, pad: usize, after: bool) -> (padded: String)
    ensures
        padded@ == pad_text(s@, pad as nat, after),
{
    let s_length = get_string_length(s.as_str());
    let missing: usize = pad.saturating_sub(s_length);
    let mut fill = String::new();
    let mut i: usize = 0;
    while i < missing
        invariant
            i <= missing,
            fill@ == spaces(i as nat),
        decreases missing - i,
    {
        proof {
            reveal_strlit(" ");
        }
        fill.append(" ");
        i += 1;
    }
    if after {
        let mut s2 = s;
        s2.append(fill.as_str());
        s2
    } else {
        fill.append(s.as_str());
        fill
    }
}

/// The text behind the last `c` in `s`: all of `s` where it holds no `c`.
pub open spec fn after_last(s: Seq<char>, c: char) -> Seq<char>
    decreases s.len(),
{
    if s.len() == 0 || s.last() == c {
        Seq::empty()
    } else {
        after_last(s.drop_last(), c).push(s.last())
    }
}

/// The text behind the last `c` is the longest piece at the end of `s` that
/// holds no `c`: it ends `s`, holds no `c`, and is all of `s` or has a `c`
/// in front of it.
pub proof fn lemma_after_last(s: Seq<char>, c: char)
    ensures
        after_last(s, c).is_suffix_of(s),
        !after_last(s, c).contains(c),
        after_last(s, c).len() == s.len() || s[s.len() - after_last(s, c).len() - 1] == c,
    decreases s.len(),
{
    if s.len() > 0 && s.last() != c {
        lemma_after_last(s.drop_last(), c);
    }
}

/// What `str::to_lowercase` makes of a text.
pub uninterp spec fn lowercase_text(s: Seq<char>) -> Seq<char>;

/// Calls `str::to_lowercase` of std. The contract gives the result the name
/// `lowercase_text` and claims nothing else of it.
#[verifier::external_body]
fn lowercase(s: &str) -> (lower: String)
    ensures
        lower@ == lowercase_text(s@),
{
    s.to_lowercase()
}

/// The scalar values of a text, in order.
pub fn chars_of(s: &str) -> (chars: Vec<char>)
    ensures
        chars@ == s@,
{
    let mut chars: Vec<char> = Vec::new();
    for c in it: s.chars()
        invariant
            chars@ == it.seq().take(it.index() as int),
            it.seq() == s@,
    {
        chars.push(c);
    }
    chars
}

/// Whether two texts hold the same scalar values.
pub fn same_text(a: &Vec<char>, b: &str) -> (same: bool)
    ensures
        same == (a@ == b@),
{
    let other = chars_of(b);
    same_chars(a, &other)
}

/// Whether a text holds the scalar value `c`.
pub fn holds_char(s: &Vec<char>, c: char) -> (holds: bool)
    ensures
        holds == s@.contains(c),
{
    let mut i: usize = 0;
    while i < s.len()
        invariant
            i <= s.len(),
            forall|k: int| 0 <= k < i ==> s@[k] != c,
        decreases s.len() - i,
    {
        if s[i] == c {
            return true;
        }
        i += 1;
    }
    false
}

/// Cuts out of `s` the text behind its last `c`.
pub fn text_after_last(s: &str, c: char) -> (tail: String)
    ensures
        tail@ == after_last(s@, c),
{
    let chars = chars_of(s);
    let len = chars.len();
    let mut i: usize = len;
    proof {
        assert(chars@.take(len as int) =~= chars@);
    }
    while i > 0 && chars[i - 1] != c
        invariant
            i <= len,
            len == chars@.len(),
            after_last(chars@, c) == after_last(chars@.take(i as int), c) + chars@.skip(i as int),
        decreases i,
    {
        proof {
            let head = chars@.take(i as int);
            assert(head.drop_last() =~= chars@.take(i - 1));
        }
        i -= 1;
    }
    s.substring_char(i, len).to_owned()
}

/// The glyph, followed by a space, that stands for a lowercased file
/// extension; one default glyph for every extension that the table lacks.
pub open spec fn icon_for_extension(ext: Seq<char>) -> Seq<char> {
    if ext == "jpg"@ || ext == "jpeg"@ || ext == "png"@ || ext == "bmp"@ || ext == "gif"@
        || ext == "webp"@ || ext == "svg"@ {
        "\u{f02e9} "@
    } else if ext == "zip"@ || ext == "rar"@ || ext == "7zip"@ || ext == "tar"@ || ext == "gz"@
        || ext == "tgz"@ {
        "\u{f05c4} "@
    } else if ext == "flv"@ || ext == "avi"@ || ext == "mp4"@ || ext == "webm"@ || ext == "mov"@ {
        "\u{f52c} "@
    } else if ext == "config"@ || ext == "toml"@ || ext == "yaml"@ || ext == "conf"@ {
        "\u{f0493} "@
    } else if ext == "exe"@ || ext == "bat"@ || ext == "dll"@ || ext == "msi"@ {
        "\u{e62a} "@
    } else if ext == "mp3"@ || ext == "wav"@ || ext == "ogg"@ {
        "\u{f001} "@
    } else if ext == "java"@ || ext == "jar"@ {
        "\u{e738} "@
    } else if ext == "py"@ || ext == "ipynb"@ {
        "\u{e606} "@
    } else if ext == "csv"@ || ext == "sql"@ {
        "\u{ebb7} "@
    } else if ext == "ttf"@ || ext == "fnt"@ {
        "\u{e659} "@
    } else if ext == "gitignore"@ {
        "\u{e65d} "@
    } else if ext == "b"@ || ext == "bf"@ {
        "\u{f09d1} "@
    } else if ext == "makefile"@ {
        "\u{e673} "@
    } else if ext == "json"@ {
        "\u{e60b} "@
    } else if ext == "html"@ {
        "\u{e736} "@
    } else if ext == "lock"@ {
        "\u{f033e} "@
    } else if ext == "cpp"@ {
        "\u{e61d} "@
    } else if ext == "pdf"@ {
        "\u{e67d} "@
    } else if ext == "css"@ {
        "\u{e749} "@
    } else if ext == "bin"@ {
        "\u{f471} "@
    } else if ext == "asm"@ {
        "\u{e637} "@
    } else if ext == "txt"@ {
        "\u{e612} "@
    } else if ext == "xml"@ {
        "\u{f05c0} "@
    } else if ext == "lua"@ {
        "\u{e620} "@
    } else if ext == "php"@ {
        "\u{e608} "@
    } else if ext == "vim"@ {
        "\u{e62b} "@
    } else if ext == "rs"@ {
        "\u{e7a8} "@
    } else if ext == "js"@ {
        "\u{e781} "@
    } else if ext == "sh"@ {
        "\u{f120} "@
    } else if ext == "db"@ {
        "\u{f01bc} "@
    } else if ext == "cs"@ {
        "\u{e648} "@
    } else if ext == "c"@ {
        "\u{e61e} "@
    } else if ext == "r"@ {
        "\u{e68a} "@
    } else {
        "\u{f0214} "@
    }
}

/// Looks a lowercased file extension up in the glyph table.
pub fn icon_of_extension<'a>(ext: &Vec<char>) -> (icon: &'a str)
    ensures
        icon@ == icon_for_extension(ext@),
{
    if same_text(ext, "jpg") || same_text(ext, "jpeg") || same_text(ext, "png")
        || same_text(ext, "bmp") || same_text(ext, "gif") || same_text(ext, "webp")
        || same_text(ext, "svg") {
        "\u{f02e9} "
    } else if same_text(ext, "zip") || same_text(ext, "rar") || same_text(ext, "7zip")
        || same_text(ext, "tar") || same_text(ext, "gz") || same_text(ext, "tgz") {
        "\u{f05c4} "
    } else if same_text(ext, "flv") || same_text(ext, "avi") || same_text(ext, "mp4")
        || same_text(ext, "webm") || same_text(ext, "mov") {
        "\u{f52c} "
    } else if same_text(ext, "config") || same_text(ext, "toml") || same_text(ext, "yaml")
        || same_text(ext, "conf") {
        "\u{f0493} "
    } else if same_text(ext, "exe") || same_text(ext, "bat") || same_text(ext, "dll")
        || same_text(ext, "msi") {
        "\u{e62a} "
    } else if same_text(ext, "mp3") || same_text(ext, "wav") || same_text(ext, "ogg") {
        "\u{f001} "
    } else if same_text(ext, "java") || same_text(ext, "jar") {
        "\u{e738} "
    } else if same_text(ext, "py") || same_text(ext, "ipynb") {
        "\u{e606} "
    } else if same_text(ext, "csv") || same_text(ext, "sql") {
        "\u{ebb7} "
    } else if same_text(ext, "ttf") || same_text(ext, "fnt") {
        "\u{e659} "
    } else if same_text(ext, "gitignore") {
        "\u{e65d} "
    } else if same_text(ext, "b") || same_text(ext, "bf") {
        "\u{f09d1} "
    } else if same_text(ext, "makefile") {
        "\u{e673} "
    } else if same_text(ext, "json") {
        "\u{e60b} "
    } else if same_text(ext, "html") {
        "\u{e736} "
    } else if same_text(ext, "lock") {
        "\u{f033e} "
    } else if same_text(ext, "cpp") {
        "\u{e61d} "
    } else if same_text(ext, "pdf") {
        "\u{e67d} "
    } else if same_text(ext, "css") {
        "\u{e749} "
    } else if same_text(ext, "bin") {
        "\u{f471} "
    } else if same_text(ext, "asm") {
        "\u{e637} "
    } else if same_text(ext, "txt") {
        "\u{e612} "
    } else if same_text(ext, "xml") {
        "\u{f05c0} "
    } else if same_text(ext, "lua") {
        "\u{e620} "
    } else if same_text(ext, "php") {
        "\u{e608} "
    } else if same_text(ext, "vim") {
        "\u{e62b} "
    } else if same_text(ext, "rs") {
        "\u{e7a8} "
    } else if same_text(ext, "js") {
        "\u{e781} "
    } else if same_text(ext, "sh") {
        "\u{f120} "
    } else if same_text(ext, "db") {
        "\u{f01bc} "
    } else if same_text(ext, "cs") {
        "\u{e648} "
    } else if same_text(ext, "c") {
        "\u{e61e} "
    } else if same_text(ext, "r") {
        "\u{e68a} "
    } else {
        "\u{f0214} "
    }
}

/// The glyph of a file whose extension the table lacks, or that has none.
pub open spec fn default_icon() -> Seq<char> {
    "\u{f0214} "@
}

/// The extension of a file name: the text behind its last dot. A name
/// without a dot has none.
pub open spec fn extension_of(name: Seq<char>) -> Option<Seq<char>> {
    if name.contains('.') {
        Some(after_last(name, '.'))
    } else {
        None
    }
}

/// The glyph that a file name gets: that of its extension, whatever the case
/// of its letters, and the default glyph where it has no extension.
pub open spec fn icon_text(name: Seq<char>) -> Seq<char> {
    match extension_of(name) {
        Some(extension) => icon_for_extension(lowercase_text(extension)),
        None => default_icon(),
    }
}

/// The glyph for a regular file of this name. Every glyph is followed by a space.
pub fn get_icon_file_type<'a>(filename: String) -> (icon: &'a str)
    ensures
        icon@ == icon_text(filename@),
{
    let name = chars_of(filename.as_str());
    if !holds_char(&name, '.') {
        return "\u{f0214} ";
    }
    let extension = text_after_last(filename.as_str(), '.');
    let lower = lowercase(extension.as_str());
    let ext = chars_of(lower.as_str());
    icon_of_extension(&ext)
}

fn unit_str<'a>(exp: usize) -> (unit: &'a str)
    ensures
        unit@ == unit_text(exp as nat),
{
    if exp == 0 {
        "B"
    } else if exp == 1 {
        "K"
    } else if exp == 2 {
        "M"
    } else if exp == 3 {
        "G"
    } else if exp == 4 {
        "T"
    } else if exp == 5 {
        "P"
    } else if exp == 6 {
        "Y"
    } else {
        "E"
    }
}

/// Dividing by 1024 once more is dividing by the next unit.
proof fn lemma_next_unit(bytes: nat, unit: nat)
    requires
        unit > 0,
    ensures
        (bytes / unit) / 1024 == bytes / (unit * 1024),
        bytes / unit >= 1024 ==> unit * 1024 <= bytes,
{
    vstd::arithmetic::div_mod::lemma_div_denominator(bytes as int, unit as int, 1024);
    if bytes / unit >= 1024 {
        vstd::arithmetic::div_mod::lemma_fundamental_div_mod(bytes as int, unit as int);
        assert(unit * (bytes / unit) >= unit * 1024) by (nonlinear_arith)
            requires
                bytes / unit >= 1024,
                unit > 0,
        ;
    }
}

/// Formats a byte count for the size column.
pub fn get_size_string(bytes: u64) -> (text: String)
    ensures
        text@ == size_text(bytes as nat),
{
    if bytes == 0 {
        return "0.00 B ".to_owned();
    }
    let mut exp: usize = 0;
    let mut unit: u64 = 1;
    let mut rest: u64 = bytes;
    proof {
        reveal_with_fuel(unit_size, 8);
    }
    while rest >= 1024
        invariant
            exp <= 6,
            unit == unit_size(exp as nat),
            unit >= 1,
            rest == bytes / unit,
            unit <= bytes,
            size_exponent(bytes as nat) == exp + size_exponent(rest as nat),
            unit_size(6) == 0x1000_0000_0000_0000,
        decreases rest,
    {
        proof {
            lemma_next_unit(bytes as nat, unit as nat);
        }
        rest = rest / 1024;
        unit = unit * 1024;
        exp = exp + 1;
    }
    let mut text: String;
    if exp == 0 {
        text = decimal_string(bytes as u128);
    } else {
        let num: u128 = 100 * (bytes as u128);
        let q: u128 = num / (unit as u128);
        let r: u128 = num % (unit as u128);
        let h: u128 = if 2 * r > unit as u128 || (2 * r == unit as u128 && q % 2 == 1) {
            q + 1
        } else {
            q
        };
        text = decimal_string(h / 100);
        text.append(".");
        text.append(digit_str((h % 100 / 10) as u8));
        text.append(digit_str((h % 100 % 10) as u8));
    }
    text.append(" ");
    text.append(unit_str(exp));
    text.append(" ");
    text
}

/// What a listing is ordered by.
#[derive(Copy, Clone, PartialEq, Eq, Structural, Debug)]
pub enum SortBy {
    NONE,
    NAME,
    SIZE,
    CREATION,
}

/// The word that names each ordering.
pub open spec fn sort_by_text(sort_by: SortBy) -> Seq<char> {
    match sort_by {
        SortBy::NONE => "none"@,
        SortBy::NAME => "name"@,
        SortBy::SIZE => "size"@,
        SortBy::CREATION => "creation"@,
    }
}

impl SortBy {
    /// The word that names this ordering.
    pub fn to_string(&self) -> (text: String)
        ensures
            text@ == sort_by_text(*self),
    {
        match self {
            SortBy::NONE => "none".to_owned(),
            SortBy::NAME => "name".to_owned(),
            SortBy::SIZE => "size".to_owned(),
            SortBy::CREATION => "creation".to_owned(),
        }
    }
}

/// Whether time `a` is `b` or earlier.
pub open spec fn time_le(a: Timestamp, b: Timestamp) -> bool {
    a.secs < b.secs || (a.secs == b.secs && a.nanos <= b.nanos)
}

/// Whether entry `a` may stand in front of entry `b`: under `NAME` its name
/// is at or before the other in dictionary order, letters compared in lower
/// case; under `SIZE` it is at least as large; under `CREATION` it is at
/// least as new. `NONE` lets every entry stand in front of every other.
pub open spec fn in_order(a: ElementView, b: ElementView, sort_by: SortBy) -> bool {
    match sort_by {
        SortBy::NONE => true,
        SortBy::NAME => text_le(lowercase_text(a.name), lowercase_text(b.name)),
        SortBy::SIZE => a.size >= b.size,
        SortBy::CREATION => time_le(b.creation, a.creation),
    }
}

/// The key that orders an entry: a smaller key stands further in front.
pub open spec fn sort_key_of(e: ElementView, sort_by: SortBy) -> SortKeyView {
    match sort_by {
        SortBy::NONE => SortKeyView { text: Seq::empty(), number: 0 },
        SortBy::NAME => SortKeyView { text: lowercase_text(e.name), number: 0 },
        SortBy::SIZE => SortKeyView { text: Seq::empty(), number: -(e.size as int) },
        SortBy::CREATION => SortKeyView {
            text: Seq::empty(),
            number: -(e.creation.secs * 0x1_0000_0000 + e.creation.nanos),
        },
    }
}

/// The keys of a row of entries.
pub open spec fn sort_keys(s: Seq<ElementView>, sort_by: SortBy) -> Seq<SortKeyView> {
    s.map_values(|e: ElementView| sort_key_of(e, sort_by))
}

/// The places of the entries in the order that `sort_by` asks for.
pub open spec fn sort_order(s: Seq<ElementView>, sort_by: SortBy) -> Seq<int> {
    stable_order(sort_keys(s, sort_by))
}

/// The entries in the order that `sort_by` asks for.
pub open spec fn sorted_views(s: Seq<ElementView>, sort_by: SortBy) -> Seq<ElementView> {
    Seq::new(s.len(), |k: int| s[sort_order(s, sort_by)[k]])
}

/// `sorted` holds the entries of `given` in the places that `order` names,
/// every entry may stand in front of those behind it, and of two entries
/// that may each stand in front of the other the one that came first in
/// `given` stands first.
pub open spec fn is_stable_sort(
    sorted: Seq<ElementView>,
    given: Seq<ElementView>,
    order: Seq<int>,
    sort_by: SortBy,
) -> bool {
    &&& is_permutation(order, given.len())
    &&& sorted.len() == given.len()
    &&& forall|k: int| 0 <= k < sorted.len() ==> #[trigger] sorted[k] == given[order[k]]
    &&& forall|i: int, j: int|
        0 <= i < j < sorted.len() ==> in_order(#[trigger] sorted[i], #[trigger] sorted[j], sort_by)
    &&& forall|i: int, j: int|
        0 <= i < j < sorted.len() && in_order(sorted[j], sorted[i], sort_by) ==> #[trigger] order[i]
            < #[trigger] order[j]
}

/// The keys order the entries as `in_order` says.
pub proof fn lemma_sort_key_order(a: ElementView, b: ElementView, sort_by: SortBy)
    ensures
        in_order(a, b, sort_by) == key_le(sort_key_of(a, sort_by), sort_key_of(b, sort_by)),
{
    lemma_text_le_reflexive(lowercase_text(a.name));
}

/// Where every key is the same, the stable order is the order given.
proof fn lemma_order_of_equal_keys(keys: Seq<SortKeyView>, n: nat)
    requires
        n <= keys.len(),
        forall|i: int, j: int| 0 <= i < n && 0 <= j < n ==> key_le(keys[i], keys[j]),
    ensures
        stable_order_upto(keys, n) == Seq::new(n, |i: int| i),
    decreases n,
{
    if n > 0 {
        lemma_order_of_equal_keys(keys, (n - 1) as nat);
    }
}

/// Sorting is a stable sort: the result holds the given entries, each once,
/// in an order that `in_order` accepts, with ties in the order given.
/// Under `NONE` nothing moves.
pub proof fn lemma_sorted_views(s: Seq<ElementView>, sort_by: SortBy)
    ensures
        is_stable_sort(sorted_views(s, sort_by), s, sort_order(s, sort_by), sort_by),
        sort_by == SortBy::NONE ==> sorted_views(s, sort_by) == s,
{
    let keys = sort_keys(s, sort_by);
    let order = sort_order(s, sort_by);
    let sorted = sorted_views(s, sort_by);
    lemma_stable_order_upto(keys, keys.len());
    assert forall|i: int, j: int| 0 <= i < j < sorted.len() implies in_order(
        #[trigger] sorted[i],
        #[trigger] sorted[j],
        sort_by,
    ) by {
        lemma_sort_key_order(s[order[i]], s[order[j]], sort_by);
    }
    if sort_by == SortBy::NONE {
        lemma_order_of_equal_keys(keys, keys.len());
    }
}

/// The key that orders `e` under `sort_by`.
pub fn sort_key(e: &Element, sort_by: &SortBy) -> (key: SortKey)
    ensures
        key@ == sort_key_of(e@, *sort_by),
{
    match sort_by {
        SortBy::NONE => SortKey { text: Vec::new(), number: 0 },
        SortBy::NAME => {
            let lower = lowercase(e.get_name().as_str());
            SortKey { text: chars_of(lower.as_str()), number: 0 }
        },
        SortBy::SIZE => SortKey { text: Vec::new(), number: 0 - (e.get_size() as i128) },
        SortBy::CREATION => {
            let t = e.get_creation();
            SortKey {
                text: Vec::new(),
                number: 0 - ((t.secs as i128) * 0x1_0000_0000 + (t.nanos as i128)),
            }
        },
    }
}

/// The places of `elements` in the order that `sort_by` asks for.
pub fn sorted_places(elements: &Vec<Element>, sort_by: &SortBy) -> (order: Vec<usize>)
    ensures
        as_ints(order@) == sort_order(element_views(elements@), *sort_by),
        order.len() == elements.len(),
        forall|k: int| 0 <= k < order.len() ==> #[trigger] order@[k] < elements.len(),
{
    let mut keys: Vec<SortKey> = Vec::new();
    let mut i: usize = 0;
    while i < elements.len()
        invariant
            i <= elements.len(),
            keys.len() == i,
            forall|k: int|
                0 <= k < i ==> (#[trigger] keys@[k])@ == sort_key_of(elements@[k]@, *sort_by),
        decreases elements.len() - i,
    {
        keys.push(sort_key(&elements[i], sort_by));
        i += 1;
    }
    assert(key_views(keys@) =~= sort_keys(element_views(elements@), *sort_by));
    let order = stable_order_of(&keys);
    proof {
        lemma_stable_order_upto(key_views(keys@), keys.len() as nat);
        assert forall|k: int| 0 <= k < order.len() implies #[trigger] order@[k]
            < elements.len() by {
            assert(as_ints(order@)[k] == order@[k]);
        }
    }
    order
}

/// Orders `elements` as `sort_by` asks: by name without regard to case, by
/// size with the largest first, or by creation time with the newest first.
/// Entries that the ordering does not tell apart keep the order they came
/// in, and `NONE` leaves everything in place.
pub fn sort_elements(elements: &mut Vec<Element>, sort_by: &SortBy)
    ensures
        element_views(final(elements)@) == sorted_views(element_views(old(elements)@), *sort_by),
        is_stable_sort(
            element_views(final(elements)@),
            element_views(old(elements)@),
            sort_order(element_views(old(elements)@), *sort_by),
            *sort_by,
        ),
        *sort_by == SortBy::NONE ==> element_views(final(elements)@) == element_views(
            old(elements)@,
        ),
{
    let order = sorted_places(elements, sort_by);
    let ghost given = element_views(elements@);
    let mut sorted: Vec<Element> = Vec::new();
    let mut k: usize = 0;
    while k < order.len()
        invariant
            k <= order.len(),
            order.len() == elements.len(),
            sorted.len() == k,
            given == element_views(elements@),
            as_ints(order@) == sort_order(given, *sort_by),
            forall|i: int| 0 <= i < order.len() ==> #[trigger] order@[i] < elements.len(),
            forall|i: int| 0 <= i < k ==> (#[trigger] sorted@[i])@ == given[order@[i] as int],
        decreases order.len() - k,
    {
        sorted.push(elements[order[k]].clone());
        k += 1;
    }
    proof {
        lemma_sorted_views(given, *sort_by);
    }
    *elements = sorted;
}

/// A hidden name starts with a dot.
pub open spec fn is_hidden(name: Seq<char>) -> bool {
    name.len() > 0 && name[0] == '.'
}

/// The entries that a listing keeps: all of them where `all` holds, else
/// those that are not hidden.
pub open spec fn shown(all: bool) -> spec_fn(ElementView) -> bool {
    |e: ElementView| all || !is_hidden(e.name)
}

/// The entries that stand for what was read of a directory, in the order read.
pub open spec fn listed(entries: Seq<(String, Option<FileStat>)>, now: Timestamp) -> Seq<
    ElementView,
> {
    entries.map_values(|entry: (String, Option<FileStat>)| element_of(entry.0@, entry.1, now))
}

/// Whether a listing keeps `element`.
pub fn is_shown(element: &Element, all: bool) -> (keep: bool)
    ensures
        keep == shown(all)(element@),
{
    if all {
        return true;
    }
    let name = element.get_name();
    let name = name.as_str();
    if name.unicode_len() == 0 {
        true
    } else {
        name.get_char(0) != '.'
    }
}

/// Makes the entries of one directory out of what was read of it: `entries`
/// holds the path of each object in the directory and what the system
/// reported of it, `now` the current time. Hidden entries are left out
/// unless `all` holds; the others keep the order they were read in.
pub fn get_elements_from_path(
    entries: Vec<(String, Option<FileStat>)>,
    all: bool,
    now: Timestamp,
) -> (elements: Vec<Element>)
    ensures
        element_views(elements@) == listed(entries@, now).filter(shown(all)),
{
    let mut elements: Vec<Element> = Vec::new();
    let ghost given = listed(entries@, now);
    proof {
        reveal(Seq::filter);
    }
    for entry in it: entries
        invariant
            it.seq() == entries@,
            given == listed(entries@, now),
            element_views(elements@) == given.take(it.index() as int).filter(shown(all)),
    {
        let ghost i = it.index() as int;
        let element = Element::new(entry.0.as_str(), entry.1, now);
        proof {
            reveal(Seq::filter);
            assert(given.take(i + 1).drop_last() =~= given.take(i));
        }
        if is_shown(&element, all) {
            elements.push(element);
        }
    }
    assert(given.take(entries@.len() as int) =~= given);
    elements
}

/// What chrono writes for a point in time under a format pattern, read as
/// UTC; `None` where chrono has no date for the point or cannot follow the
/// pattern.
pub uninterp spec fn utc_text(secs: i64, nanos: u32, pattern: Seq<char>) -> Option<Seq<char>>;

/// Calls chrono: `DateTime::<Utc>::from_timestamp`, `DateTime::format` and
/// `DelayedFormat::write_to`. The contract gives the outcome the name
/// `utc_text` and claims nothing else of it.
#[verifier::external_body]
fn format_utc(secs: i64, nanos: u32, pattern: &str) -> (text: Option<String>)
    ensures
        match text {
            Some(t) => utc_text(secs, nanos, pattern@) == Some(t@),
            None => utc_text(secs, nanos, pattern@) is None,
        },
{
    let time = chrono::DateTime::<chrono::Utc>::from_timestamp(secs, nanos)?;
    let mut text = String::new();
    time.format(pattern).write_to(&mut text).ok()?;
    Some(text)
}

/// The creation column of the point in time `t`: day, month and two-digit
/// year, then hour and minute, in UTC; `None` where chrono has no date for `t`.
pub open spec fn creation_text(t: Timestamp) -> Option<Seq<char>> {
    utc_text(t.secs, t.nanos, "%d-%m-%y %H:%M"@)
}

/// Formats a point in time for the creation column.
pub fn system_time_to_string(system_time: Timestamp) -> (text: Option<String>)
    ensures
        match text {
            Some(t) => creation_text(system_time) == Some(t@),
            None => creation_text(system_time) is None,
        },
{
    format_utc(system_time.secs, system_time.nanos, "%d-%m-%y %H:%M")
}

/// Calls `term_size::dimensions` and keeps the number of columns. `None`
/// where none of the standard streams is a terminal. The answer depends on
/// the terminal, so the contract claims nothing of it.
#[verifier::external_body]
pub(crate) fn terminal_width() -> (width: Option<usize>) {
    term_size::dimensions().map(|size| size.0)
}

} // verus!
