//! The tree view: a bordered table with a row for each entry, its size and
//! its creation time, the entries of directories nested below them.

use crate::decimal::{decimal_string, decimal_text};
use crate::element::{element_views, rendered_text, Element, ElementView, Timestamp, TypeOfFile};
use crate::size::size_text;
use crate::sorting::as_ints;
use crate::utils::{
    creation_text, get_size_string, get_string_length, pad_string, pad_text, sort_order,
    sorted_places, spaces, system_time_to_string, terminal_width, SortBy,
};
use vstd::prelude::*;
use vstd::string::*;

verus! {

/// `n` horizontal strokes of the table's border.
pub open spec fn strokes(n: nat) -> Seq<char> {
    Seq::new(n, |i: int| '─')
}

/// The smaller of two numbers.
pub open spec fn least(a: int, b: int) -> int {
    if a <= b {
        a
    } else {
        b
    }
}

/// `a - b`, and 0 where `b` is the greater.
pub open spec fn minus(a: int, b: int) -> nat {
    if a >= b {
        (a - b) as nat
    } else {
        0
    }
}

/// Chunk `index` of `s` cut into chunks of `chunk` display units: the units
/// from `chunk * index` up to `chunk * (index + 1)`, as far as `s` has them.
pub open spec fn slice_text(s: Seq<char>, chunk: nat, index: nat) -> Seq<char> {
    s.subrange(
        least((chunk * index) as int, s.len() as int),
        least((chunk * (index + 1)) as int, s.len() as int),
    )
}

/// The columns in front of a nested entry that show where the rows of its
/// ancestors go on: for each level but the outermost a blank where that
/// ancestor was the last of its siblings, a bar where more follow.
pub open spec fn ancestry_text(stack: Seq<bool>) -> Seq<char>
    decreases stack.len(),
{
    if stack.len() <= 1 {
        Seq::empty()
    } else {
        ancestry_text(stack.drop_last()) + (if stack.last() {
            "  "@
        } else {
            "│ "@
        })
    }
}

/// The whole part of the logarithm of `n` to the base 10, and 0 for 0.
pub open spec fn floor_log10(n: nat) -> nat
    decreases n,
{
    if n < 10 {
        0
    } else {
        1 + floor_log10(n / 10)
    }
}

/// The top border of the table for a name column of `name_length` units,
/// with the three column titles; the title of the name column stands in
/// the middle of its column.
pub open spec fn header_text(name_length: nat) -> Seq<char> {
    let free = minus(name_length as int, 12);
    "╭"@ + strokes(free / 2) + "╼ File name ╾"@ + strokes((free - free / 2) as nat)
        + "┬─╼ Size ╾─┬──╼ Creation ╾──╮\n"@
}

/// The bottom border of the table, with the number of entries in the
/// middle of the name column.
pub open spec fn footer_text(num_elements: nat, name_length: nat) -> Seq<char> {
    let free = minus(name_length as int, (floor_log10(num_elements) + 13) as int);
    "╰"@ + strokes(free / 2) + "╼ "@ + decimal_text(num_elements) + " Elements ╾"@ + strokes(
        (free - free / 2) as nat,
    ) + "┴──────────┴────────────────╯\n"@
}

/// The size column of an entry: blank for a directory, else the size set
/// to the right of ten units.
pub open spec fn size_field(file_type: TypeOfFile, size: u64) -> Seq<char> {
    if file_type == TypeOfFile::Dir {
        spaces(10)
    } else {
        pad_text(size_text(size as nat), 10, false)
    }
}

/// The size and creation columns that close the first row of an entry.
pub open spec fn columns_text(file_type: TypeOfFile, size: u64, date: Seq<char>) -> Seq<char> {
    "│"@ + size_field(file_type, size) + "│"@ + " "@ + date + " "@ + "│\n"@
}

fn stroke_string(n: usize) -> (text: String)
    ensures
        text@ == strokes(n as nat),
{
    let mut text = String::new();
    let mut i: usize = 0;
    while i < n
        invariant
            i <= n,
            text@ == strokes(i as nat),
        decreases n - i,
    {
        proof {
            reveal_strlit("─");
        }
        text.append("─");
        i += 1;
    }
    text
}

/// Cuts chunk `i` out of `e`, in chunks of `name_length` display units.
pub fn get_slice_of_string(
    e: &str,
    name_length: usize,
    i: usize,
    _current_depth: usize,
) -> (chunk: String)
    ensures
        chunk@ == slice_text(e@, name_length as nat, i as nat),
{
    let len = get_string_length(e);
    let from = match name_length.checked_mul(i) {
        Some(from) => if from < len {
            from
        } else {
            len
        },
        None => len,
    };
    let to = match i.checked_add(1) {
        Some(next) => match name_length.checked_mul(next) {
            Some(to) => if to < len {
                to
            } else {
                len
            },
            None => len,
        },
        None => if name_length == 0 {
            0
        } else {
            assert(name_length * (i + 1) >= len) by (nonlinear_arith)
                requires
                    i + 1 > len,
                    name_length >= 1,
            ;
            len
        },
    };
    assert(from <= to) by (nonlinear_arith)
        requires
            from == least(name_length * i, len as int),
            to == least(name_length * (i + 1), len as int),
    ;
    e.substring_char(from, to).to_owned()
}

/// Appends to `e_string` the tree lines of an entry below the top level:
/// the columns of its ancestors, then `str_is_last` where the entry is the
/// last of its siblings and `str_is_not_last` where more follow.
pub fn add_recursive_lines(
    e_string: &mut String,
    is_last_element: &[bool],
    is_last: bool,
    str_is_last: &str,
    str_is_not_last: &str,
)
    ensures
        final(e_string)@ == old(e_string)@ + ancestry_text(is_last_element@) + (if is_last {
            str_is_last@
        } else {
            str_is_not_last@
        }),
{
    let ghost start = e_string@;
    let n = is_last_element.len();
    let mut i: usize = 1;
    while i < n
        invariant
            1 <= i,
            n == is_last_element@.len(),
            e_string@ == start + ancestry_text(is_last_element@.take(least(i as int, n as int))),
        decreases n - i,
    {
        assert(is_last_element@.take(i + 1).drop_last() =~= is_last_element@.take(i as int));
        if is_last_element[i] {
            e_string.append("  ");
        } else {
            e_string.append("│ ");
        }
        i += 1;
    }
    if n >= 1 {
        assert(is_last_element@.take(n as int) =~= is_last_element@);
    }
    if is_last {
        e_string.append(str_is_last);
    } else {
        e_string.append(str_is_not_last);
    }
}

/// The whole part of the logarithm of `n` to the base 10, and 0 for 0.
pub fn log10_floor(n: usize) -> (log: usize)
    ensures
        log == floor_log10(n as nat),
{
    let mut rest: usize = n;
    let mut log: usize = 0;
    while rest >= 10
        invariant
            floor_log10(n as nat) == log + floor_log10(rest as nat),
            log + rest <= n,
        decreases rest,
    {
        rest = rest / 10;
        log += 1;
    }
    log
}

/// The top border of the table.
pub fn table_header(name_length: usize) -> (text: String)
    ensures
        text@ == header_text(name_length as nat),
{
    let free = name_length.saturating_sub(12);
    let mut text = "╭".to_owned();
    text.append(stroke_string(free / 2).as_str());
    text.append("╼ File name ╾");
    text.append(stroke_string(free - free / 2).as_str());
    text.append("┬─╼ Size ╾─┬──╼ Creation ╾──╮\n");
    text
}

/// The bottom border of the table, which reports the number of entries.
pub fn table_footer(num_elements: usize, name_length: usize) -> (text: String)
    ensures
        text@ == footer_text(num_elements as nat, name_length as nat),
{
    let free = name_length.saturating_sub(log10_floor(num_elements).saturating_add(13));
    let mut text = "╰".to_owned();
    text.append(stroke_string(free / 2).as_str());
    text.append("╼ ");
    text.append(decimal_string(num_elements as u128).as_str());
    text.append(" Elements ╾");
    text.append(stroke_string(free - free / 2).as_str());
    text.append("┴──────────┴────────────────╯\n");
    text
}

/// The size and creation columns of an entry of that kind and size, with
/// `date` as the text of its creation time.
pub fn size_and_creation(file_type: TypeOfFile, size: u64, date: &str) -> (text: String)
    ensures
        text@ == columns_text(file_type, size, date@),
{
    let mut text = "│".to_owned();
    if file_type == TypeOfFile::Dir {
        proof {
            reveal_strlit("          ");
        }
        text.append("          ");
    } else {
        text.append(pad_string(get_size_string(size), 10, false).as_str());
    }
    text.append("│");
    text.append(" ");
    text.append(date);
    text.append(" ");
    text.append("│\n");
    text
}

/// What stands in front of a nested entry: the columns of its ancestors
/// and `symbol`. An entry of the top level has nothing in front.
pub open spec fn tree_prefix(depth: nat, stack: Seq<bool>, symbol: Seq<char>) -> Seq<char> {
    if depth > 0 {
        ancestry_text(stack) + symbol
    } else {
        Seq::empty()
    }
}

/// The branch that leads to an entry: a corner to the last of its
/// siblings, a tee where more follow.
pub open spec fn branch_symbol(is_last: bool) -> Seq<char> {
    if is_last {
        "╰─"@
    } else {
        "├─"@
    }
}

/// What stands below a branch in the further rows of an entry: a blank
/// below a corner, a bar below a tee.
pub open spec fn trunk_symbol(is_last: bool) -> Seq<char> {
    if is_last {
        "  "@
    } else {
        "│ "@
    }
}

/// The first row of an entry: its tree lines and its text, cut to the name
/// column and padded to it, then the size and creation columns.
pub open spec fn first_row_text(
    rendered: Seq<char>,
    columns: Seq<char>,
    name_length: nat,
    depth: nat,
    stack: Seq<bool>,
    is_last: bool,
) -> Seq<char> {
    "│ "@ + pad_text(
        slice_text(tree_prefix(depth, stack, branch_symbol(is_last)) + rendered, name_length, 0),
        name_length,
        true,
    ) + columns
}

/// How much of a name one row holds at `depth`: the name column less the
/// two units of the glyph and two for each level of nesting, and at least
/// one unit.
pub open spec fn chunk_size(name_length: nat, depth: nat) -> nat {
    let room = minus(name_length as int, (2 + 2 * depth) as int);
    if room < 1 {
        1
    } else {
        room
    }
}

/// The number of rows that a name of `name_len` units needs beyond the
/// first: one for each chunk behind the first.
pub open spec fn extra_rows(name_len: nat, chunk: nat) -> nat {
    if name_len == 0 || chunk == 0 {
        0
    } else {
        ((name_len - 1) / (chunk as int)) as nat
    }
}

/// The first `upto` chunks of `s`, one behind the other.
pub open spec fn chunks_upto(s: Seq<char>, chunk: nat, upto: nat) -> Seq<char>
    decreases upto,
{
    if upto == 0 {
        Seq::empty()
    } else {
        chunks_upto(s, chunk, (upto - 1) as nat) + slice_text(s, chunk, (upto - 1) as nat)
    }
}

/// The first chunks of a text make up its start.
proof fn lemma_chunks_upto(s: Seq<char>, chunk: nat, upto: nat)
    ensures
        chunks_upto(s, chunk, upto) == s.take(least((chunk * upto) as int, s.len() as int)),
    decreases upto,
{
    if upto > 0 {
        lemma_chunks_upto(s, chunk, (upto - 1) as nat);
        assert(chunk * upto == chunk * (upto - 1) + chunk) by (nonlinear_arith);
        assert(chunk * (upto - 1) >= 0) by (nonlinear_arith)
            requires
                upto >= 1,
        ;
    } else {
        assert(chunk * 0 == 0) by (nonlinear_arith);
    }
}

/// Cutting a name into rows loses nothing: its first chunk and the chunks
/// of its further rows, one behind the other, are the name.
pub proof fn lemma_chunks_cover(s: Seq<char>, chunk: nat)
    requires
        chunk >= 1,
    ensures
        chunks_upto(s, chunk, extra_rows(s.len(), chunk) + 1) == s,
{
    let rows = extra_rows(s.len(), chunk) + 1;
    lemma_chunks_upto(s, chunk, rows);
    if s.len() > 0 {
        vstd::arithmetic::div_mod::lemma_fundamental_div_mod(s.len() - 1, chunk as int);
        vstd::arithmetic::div_mod::lemma_mod_bound(s.len() - 1, chunk as int);
        assert(chunk * rows == chunk * (rows - 1) + chunk) by (nonlinear_arith);
    } else {
        assert(chunk * 1 == chunk) by (nonlinear_arith);
    }
    assert(s.take(s.len() as int) =~= s);
}

/// Row `j` behind the first row of an entry: chunk `j` of its name below
/// the first, with blank size and creation columns.
pub open spec fn extra_row_text(
    name: Seq<char>,
    name_length: nat,
    depth: nat,
    stack: Seq<bool>,
    is_last: bool,
    j: nat,
) -> Seq<char> {
    "│ "@ + pad_text(
        tree_prefix(depth, stack, trunk_symbol(is_last)) + "  "@ + slice_text(
            name,
            chunk_size(name_length, depth),
            j,
        ),
        name_length,
        true,
    ) + "│          │                │\n"@
}

/// The rows 1 to `upto` behind the first row of an entry.
pub open spec fn extra_rows_text(
    name: Seq<char>,
    name_length: nat,
    depth: nat,
    stack: Seq<bool>,
    is_last: bool,
    upto: nat,
) -> Seq<char>
    decreases upto,
{
    if upto == 0 {
        Seq::empty()
    } else {
        extra_rows_text(name, name_length, depth, stack, is_last, (upto - 1) as nat)
            + extra_row_text(name, name_length, depth, stack, is_last, upto)
    }
}

/// All rows of one entry: the first with its text `rendered` and its
/// `columns`, then one for each further chunk of its `name`.
pub open spec fn entry_text(
    rendered: Seq<char>,
    name: Seq<char>,
    columns: Seq<char>,
    name_length: nat,
    depth: nat,
    stack: Seq<bool>,
    is_last: bool,
) -> Seq<char> {
    first_row_text(rendered, columns, name_length, depth, stack, is_last) + extra_rows_text(
        name,
        name_length,
        depth,
        stack,
        is_last,
        extra_rows(name.len(), chunk_size(name_length, depth)),
    )
}

fn room_for_name(name_length: usize, current_depth: usize) -> (chunk: usize)
    ensures
        chunk == chunk_size(name_length as nat, current_depth as nat),
        chunk >= 1,
{
    let indent = match current_depth.checked_mul(2) {
        Some(twice) => twice.checked_add(2),
        None => None,
    };
    match indent {
        Some(indent) => {
            let room = name_length.saturating_sub(indent);
            if room < 1 {
                1
            } else {
                room
            }
        },
        None => 1,
    }
}

fn extra_row(
    name: &str,
    name_length: usize,
    current_depth: usize,
    is_last_element: &[bool],
    is_last: bool,
    j: usize,
) -> (text: String)
    ensures
        text@ == extra_row_text(
            name@,
            name_length as nat,
            current_depth as nat,
            is_last_element@,
            is_last,
            j as nat,
        ),
{
    let chunk = room_for_name(name_length, current_depth);
    let mut e_name = String::new();
    if current_depth > 0 {
        add_recursive_lines(&mut e_name, is_last_element, is_last, "  ", "│ ");
    }
    e_name.append("  ");
    e_name.append(get_slice_of_string(name, chunk, j, current_depth).as_str());
    let mut text = "│ ".to_owned();
    text.append(pad_string(e_name, name_length, true).as_str());
    text.append("│          │                │\n");
    text
}

/// Writes the rows of one entry: `rendered` is its text, `name` its name
/// and `columns` its size and creation columns; `is_last_element` tells of
/// each ancestor whether it was the last of its siblings, `is_last` the
/// same of the entry itself.
pub fn entry_rows(
    rendered: &str,
    name: &str,
    columns: &str,
    name_length: usize,
    current_depth: usize,
    is_last_element: &[bool],
    is_last: bool,
) -> (text: String)
    ensures
        text@ == entry_text(
            rendered@,
            name@,
            columns@,
            name_length as nat,
            current_depth as nat,
            is_last_element@,
            is_last,
        ),
{
    let mut e_string = String::new();
    if current_depth > 0 {
        add_recursive_lines(&mut e_string, is_last_element, is_last, "╰─", "├─");
    }
    e_string.append(rendered);
    let mut text = "│ ".to_owned();
    text.append(
        pad_string(
            get_slice_of_string(e_string.as_str(), name_length, 0, current_depth),
            name_length,
            true,
        ).as_str(),
    );
    text.append(columns);
    let chunk = room_for_name(name_length, current_depth);
    let name_len = get_string_length(name);
    let num_splits = if name_len == 0 {
        0
    } else {
        (name_len - 1) / chunk
    };
    let ghost first = text@;
    let mut j: usize = 0;
    while j < num_splits
        invariant
            j <= num_splits,
            text@ == first + extra_rows_text(
                name@,
                name_length as nat,
                current_depth as nat,
                is_last_element@,
                is_last,
                j as nat,
            ),
        decreases num_splits - j,
    {
        j += 1;
        let row = extra_row(name, name_length, current_depth, is_last_element, is_last, j);
        text.append(row.as_str());
    }
    text
}

/// An entry together with the entries of its directory, as far as they
/// were read. A listing looks at the children of a directory that it
/// descends into and at no others.
pub struct Node {
    pub element: Element,
    pub children: Vec<Node>,
}

/// The entries of one level.
pub open spec fn node_elements(nodes: Seq<Node>) -> Seq<ElementView> {
    nodes.map_values(|n: Node| n.element@)
}

/// Whether a listing that goes `limit` levels deep descends into entry `e`
/// of level `depth`: into directories above the limit.
pub open spec fn descends(e: ElementView, depth: nat, limit: nat) -> bool {
    e.file_type == TypeOfFile::Dir && depth < limit
}

/// The number of entries that a listing shows of the first `upto` nodes of
/// a level at `depth`: the nodes themselves and what it shows below each
/// directory that it descends into.
pub open spec fn reachable_count(nodes: Seq<Node>, upto: nat, limit: nat, depth: nat) -> nat
    decreases limit - depth, upto,
{
    if upto == 0 {
        0
    } else {
        let node = nodes[upto - 1];
        let below = if descends(node.element@, depth, limit) {
            reachable_count(node.children@, node.children@.len(), limit, depth + 1)
        } else {
            0
        };
        reachable_count(nodes, (upto - 1) as nat, limit, depth) + 1 + below
    }
}

/// The widest text among the entries that a listing shows of the first
/// `upto` nodes of a level at `depth`, each counted with the two units of
/// indentation that every level of nesting adds.
pub open spec fn max_width(nodes: Seq<Node>, upto: nat, limit: nat, depth: nat) -> nat
    decreases limit - depth, upto,
{
    if upto == 0 {
        0
    } else {
        let node = nodes[upto - 1];
        let own = rendered_text(node.element@).len() + 2 * depth;
        let below = if descends(node.element@, depth, limit) {
            max_width(node.children@, node.children@.len(), limit, depth + 1)
        } else {
            0
        };
        let rest = max_width(nodes, (upto - 1) as nat, limit, depth);
        if own >= below && own >= rest {
            own
        } else if below >= rest {
            below
        } else {
            rest
        }
    }
}

/// Whether every entry that a listing shows of the first `upto` nodes has
/// a creation time that can be written as a date.
pub open spec fn all_dated(nodes: Seq<Node>, upto: nat, limit: nat, depth: nat) -> bool
    decreases limit - depth, upto,
{
    if upto == 0 {
        true
    } else {
        let node = nodes[upto - 1];
        &&& all_dated(nodes, (upto - 1) as nat, limit, depth)
        &&& creation_text(node.element@.creation) is Some
        &&& descends(node.element@, depth, limit) ==> all_dated(
            node.children@,
            node.children@.len(),
            limit,
            depth + 1,
        )
    }
}

/// The date of a point in time that has one.
pub open spec fn date_text(t: Timestamp) -> Seq<char> {
    creation_text(t)->0
}

/// The rows of entry `e` at `depth`.
pub open spec fn element_rows(
    e: ElementView,
    name_length: nat,
    depth: nat,
    stack: Seq<bool>,
    is_last: bool,
) -> Seq<char> {
    entry_text(
        rendered_text(e),
        e.name,
        columns_text(e.file_type, e.size, date_text(e.creation)),
        name_length,
        depth,
        stack,
        is_last,
    )
}

/// The rows of the first `upto` nodes along `order`, which names the nodes
/// of the level in the order they are shown in. Behind the rows of a
/// directory that the listing descends into stand the rows of its
/// children, sorted like every level, one level deeper, with the stack
/// grown by whether the directory is the last of its level.
pub open spec fn tree_rows(
    nodes: Seq<Node>,
    order: Seq<int>,
    upto: nat,
    name_length: nat,
    limit: nat,
    depth: nat,
    stack: Seq<bool>,
    sort_by: SortBy,
) -> Seq<char>
    decreases limit - depth, upto,
{
    if upto == 0 {
        Seq::empty()
    } else {
        let node = nodes[order[upto - 1]];
        let is_last = upto == nodes.len();
        let below = if descends(node.element@, depth, limit) {
            tree_rows(
                node.children@,
                sort_order(node_elements(node.children@), sort_by),
                node.children@.len(),
                name_length,
                limit,
                depth + 1,
                stack.push(is_last),
                sort_by,
            )
        } else {
            Seq::empty()
        };
        tree_rows(nodes, order, (upto - 1) as nat, name_length, limit, depth, stack, sort_by)
            + element_rows(node.element@, name_length, depth, stack, is_last) + below
    }
}

/// The rows of one level and of all that the listing shows below it: the
/// entries in the order that `sort_by` asks for.
pub open spec fn level_rows(
    nodes: Seq<Node>,
    name_length: nat,
    limit: nat,
    depth: nat,
    stack: Seq<bool>,
    sort_by: SortBy,
) -> Seq<char> {
    tree_rows(
        nodes,
        sort_order(node_elements(nodes), sort_by),
        nodes.len(),
        name_length,
        limit,
        depth,
        stack,
        sort_by,
    )
}

/// A number as far as `usize` holds it.
pub open spec fn saturated(n: nat) -> nat {
    if n > usize::MAX {
        usize::MAX as nat
    } else {
        n
    }
}

/// The width of the name column for a terminal of `width` columns: wide
/// enough for the widest entry shown and for the count in the bottom
/// border, at least 13 units, and no more than the terminal leaves free
/// beside the other columns.
pub open spec fn name_width(nodes: Seq<Node>, width: nat, limit: nat) -> nat {
    let widest = max_width(nodes, nodes.len(), limit, 0);
    let count = saturated(reachable_count(nodes, nodes.len(), limit, 0));
    let for_count = 14 + floor_log10(count);
    let wanted = if widest >= for_count && widest >= 13 {
        widest
    } else if for_count >= 13 {
        for_count
    } else {
        13
    };
    least(wanted as int, minus(width as int, 31) as int) as nat
}

/// The table of the tree view for a terminal of `width` columns: the top
/// border, the rows of all entries shown, and the bottom border with their
/// number.
pub open spec fn table_text(nodes: Seq<Node>, width: nat, limit: nat, sort_by: SortBy) -> Seq<
    char,
> {
    let name_length = name_width(nodes, width, limit);
    header_text(name_length) + level_rows(nodes, name_length, limit, 0, Seq::empty(), sort_by)
        + footer_text(saturated(reachable_count(nodes, nodes.len(), limit, 0)), name_length)
}

/// The bottom border of the table reports the number of entries that the
/// listing shows: those of the top level and those below every directory
/// that it descends into. (A count that `usize` cannot hold is reported as
/// the greatest that it can.)
pub proof fn lemma_table_reports_count(nodes: Seq<Node>, width: nat, limit: nat, sort_by: SortBy)
    ensures
        footer_text(
            saturated(reachable_count(nodes, nodes.len(), limit, 0)),
            name_width(nodes, width, limit),
        ).is_suffix_of(table_text(nodes, width, limit, sort_by)),
        reachable_count(nodes, nodes.len(), limit, 0) <= usize::MAX ==> footer_text(
            reachable_count(nodes, nodes.len(), limit, 0),
            name_width(nodes, width, limit),
        ).is_suffix_of(table_text(nodes, width, limit, sort_by)),
{
    let table = table_text(nodes, width, limit, sort_by);
    let footer = footer_text(
        saturated(reachable_count(nodes, nodes.len(), limit, 0)),
        name_width(nodes, width, limit),
    );
    assert(table.subrange(table.len() - footer.len(), table.len() as int) =~= footer);
}

/// A listing that does not descend shows the entries of the top level and
/// no others.
pub proof fn lemma_count_without_descent(nodes: Seq<Node>, upto: nat, limit: nat, depth: nat)
    requires
        depth >= limit,
    ensures
        reachable_count(nodes, upto, limit, depth) == upto,
    decreases upto,
{
    if upto > 0 {
        lemma_count_without_descent(nodes, (upto - 1) as nat, limit, depth);
    }
}

/// What holds of all first `upto` nodes holds of each of them.
proof fn lemma_all_dated_at(nodes: Seq<Node>, upto: nat, limit: nat, depth: nat, i: int)
    requires
        all_dated(nodes, upto, limit, depth),
        0 <= i < upto,
    ensures
        creation_text(nodes[i].element@.creation) is Some,
        descends(nodes[i].element@, depth, limit) ==> all_dated(
            nodes[i].children@,
            nodes[i].children@.len(),
            limit,
            depth + 1,
        ),
    decreases upto,
{
    if i < upto - 1 {
        lemma_all_dated_at(nodes, (upto - 1) as nat, limit, depth, i);
    }
}

/// Whether a listing that goes `recursive_limit` levels deep descends into
/// `element` of level `current_depth`.
pub fn is_descended(
    element: &Element,
    current_depth: usize,
    recursive_limit: usize,
) -> (descend: bool)
    ensures
        descend == descends(element@, current_depth as nat, recursive_limit as nat),
{
    element.get_file_type() == TypeOfFile::Dir && current_depth < recursive_limit
}

/// Whether the entries read for level `current_depth` include the hidden
/// ones: at the top where `all` asks for them, and always below the top.
pub fn lists_hidden(all: bool, current_depth: usize) -> (hidden: bool)
    ensures
        hidden == (all || current_depth > 0),
{
    all || current_depth > 0
}

/// The number of entries that a listing of `nodes` shows, as far as
/// `usize` holds it.
pub fn count_elements(
    nodes: &Vec<Node>,
    recursive_limit: usize,
    current_depth: usize,
) -> (count: usize)
    ensures
        count == saturated(
            reachable_count(nodes@, nodes@.len(), recursive_limit as nat, current_depth as nat),
        ),
    decreases recursive_limit - current_depth,
{
    let mut count: usize = 0;
    let mut i: usize = 0;
    while i < nodes.len()
        invariant
            i <= nodes.len(),
            count == saturated(
                reachable_count(nodes@, i as nat, recursive_limit as nat, current_depth as nat),
            ),
        decreases nodes.len() - i,
    {
        let node = &nodes[i];
        count = count.saturating_add(1);
        if is_descended(&node.element, current_depth, recursive_limit) {
            let below = count_elements(&node.children, recursive_limit, current_depth + 1);
            count = count.saturating_add(below);
        }
        i += 1;
    }
    count
}

/// The width that the widest entry shown of `nodes` needs, indentation
/// counted in, as far as `usize` holds it.
pub fn get_max_width(
    nodes: &Vec<Node>,
    recursive_limit: usize,
    current_depth: usize,
) -> (width: usize)
    ensures
        width == saturated(
            max_width(nodes@, nodes@.len(), recursive_limit as nat, current_depth as nat),
        ),
    decreases recursive_limit - current_depth,
{
    let mut name_max_len: usize = 0;
    let mut i: usize = 0;
    while i < nodes.len()
        invariant
            i <= nodes.len(),
            name_max_len == saturated(
                max_width(nodes@, i as nat, recursive_limit as nat, current_depth as nat),
            ),
        decreases nodes.len() - i,
    {
        let node = &nodes[i];
        let indent = match current_depth.checked_mul(2) {
            Some(indent) => indent,
            None => usize::MAX,
        };
        let mut length = get_string_length(node.element.to_string().as_str()).saturating_add(
            indent,
        );
        if is_descended(&node.element, current_depth, recursive_limit) {
            let recursive_width = get_max_width(
                &node.children,
                recursive_limit,
                current_depth + 1,
            );
            if recursive_width > length {
                length = recursive_width;
            }
        }
        if length > name_max_len {
            name_max_len = length;
        }
        i += 1;
    }
    name_max_len
}

/// Whether the creation time of every entry that a listing of `nodes`
/// shows can be written as a date.
pub fn dates_known(
    nodes: &Vec<Node>,
    recursive_limit: usize,
    current_depth: usize,
) -> (known: bool)
    ensures
        known == all_dated(nodes@, nodes@.len(), recursive_limit as nat, current_depth as nat),
    decreases recursive_limit - current_depth,
{
    let mut i: usize = 0;
    while i < nodes.len()
        invariant
            i <= nodes.len(),
            all_dated(nodes@, i as nat, recursive_limit as nat, current_depth as nat),
        decreases nodes.len() - i,
    {
        let node = &nodes[i];
        let dated = system_time_to_string(node.element.get_creation()).is_some() && (!is_descended(
            &node.element,
            current_depth,
            recursive_limit,
        ) || dates_known(&node.children, recursive_limit, current_depth + 1));
        if !dated {
            proof {
                let limit = recursive_limit as nat;
                let depth = current_depth as nat;
                if all_dated(nodes@, nodes@.len(), limit, depth) {
                    lemma_all_dated_at(nodes@, nodes@.len(), limit, depth, i as int);
                }
            }
            return false;
        }
        i += 1;
    }
    true
}

/// Writes the rows of one level and of all that the listing shows below
/// it. `is_last_element` tells of each ancestor of the level whether it
/// was the last of its siblings.
pub fn table_rows(
    nodes: &Vec<Node>,
    name_length: usize,
    recursive_limit: usize,
    current_depth: usize,
    is_last_element: &Vec<bool>,
    sort_by: &SortBy,
) -> (text: String)
    requires
        all_dated(nodes@, nodes@.len(), recursive_limit as nat, current_depth as nat),
    ensures
        text@ == level_rows(
            nodes@,
            name_length as nat,
            recursive_limit as nat,
            current_depth as nat,
            is_last_element@,
            *sort_by,
        ),
    decreases recursive_limit - current_depth,
{
    let n = nodes.len();
    let mut elements: Vec<Element> = Vec::new();
    let mut i: usize = 0;
    while i < n
        invariant
            i <= n,
            n == nodes.len(),
            elements.len() == i,
            forall|j: int| 0 <= j < i ==> (#[trigger] elements@[j])@ == nodes@[j].element@,
        decreases n - i,
    {
        elements.push(nodes[i].element.clone());
        i += 1;
    }
    assert(element_views(elements@) =~= node_elements(nodes@));
    let order = sorted_places(&elements, sort_by);
    let ghost ord = as_ints(order@);
    let mut new_is_last_element: Vec<bool> = Vec::new();
    let mut i: usize = 0;
    while i < is_last_element.len()
        invariant
            i <= is_last_element.len(),
            new_is_last_element@ == is_last_element@.take(i as int),
        decreases is_last_element.len() - i,
    {
        new_is_last_element.push(is_last_element[i]);
        i += 1;
    }
    let mut text = String::new();
    let mut k: usize = 0;
    while k < n
        invariant
            k <= n,
            n == nodes.len(),
            order.len() == n,
            ord == as_ints(order@),
            ord == sort_order(node_elements(nodes@), *sort_by),
            forall|j: int| 0 <= j < n ==> #[trigger] order@[j] < n,
            new_is_last_element@ == is_last_element@,
            all_dated(nodes@, nodes@.len(), recursive_limit as nat, current_depth as nat),
            text@ == tree_rows(
                nodes@,
                ord,
                k as nat,
                name_length as nat,
                recursive_limit as nat,
                current_depth as nat,
                is_last_element@,
                *sort_by,
            ),
        decreases n - k,
    {
        let node = &nodes[order[k]];
        let e = &node.element;
        let is_last = k == n - 1;
        proof {
            lemma_all_dated_at(
                nodes@,
                nodes@.len(),
                recursive_limit as nat,
                current_depth as nat,
                order@[k as int] as int,
            );
        }
        let date = system_time_to_string(e.get_creation()).unwrap();
        let columns = size_and_creation(e.get_file_type(), e.get_size(), date.as_str());
        let rows = entry_rows(
            e.to_string().as_str(),
            e.get_name().as_str(),
            columns.as_str(),
            name_length,
            current_depth,
            new_is_last_element.as_slice(),
            is_last,
        );
        text.append(rows.as_str());
        if is_descended(e, current_depth, recursive_limit) {
            new_is_last_element.push(is_last);
            let below = table_rows(
                &node.children,
                name_length,
                recursive_limit,
                current_depth + 1,
                &new_is_last_element,
                sort_by,
            );
            text.append(below.as_str());
            new_is_last_element.pop();
        }
        k += 1;
    }
    text
}

/// The tree view of `nodes` for a terminal of `width` columns, descending
/// `recursive_limit` levels below the top, every level ordered by
/// `sort_by`; `None` where the creation time of an entry shown cannot be
/// written as a date.
pub fn render_tree(
    nodes: &Vec<Node>,
    width: usize,
    recursive_limit: usize,
    sort_by: &SortBy,
) -> (text: Option<String>)
    ensures
        text is Some <==> all_dated(nodes@, nodes@.len(), recursive_limit as nat, 0),
        text matches Some(t) ==> t@ == table_text(
            nodes@,
            width as nat,
            recursive_limit as nat,
            *sort_by,
        ),
{
    if !dates_known(nodes, recursive_limit, 0) {
        return None;
    }
    let name_max_len = get_max_width(nodes, recursive_limit, 0);
    let num_elements = count_elements(nodes, recursive_limit, 0);
    let for_count = log10_floor(num_elements).saturating_add(14);
    let mut name_length = name_max_len;
    if for_count > name_length {
        name_length = for_count;
    }
    if 13 > name_length {
        name_length = 13;
    }
    let free = width.saturating_sub(31);
    if free < name_length {
        name_length = free;
    }
    let mut text = table_header(name_length);
    let no_ancestors: Vec<bool> = Vec::new();
    text.append(
        table_rows(nodes, name_length, recursive_limit, 0, &no_ancestors, sort_by).as_str(),
    );
    text.append(table_footer(num_elements, name_length).as_str());
    Some(text)
}

/// The tree view of `elements` for the terminal that the process writes
/// to; `None` where there is no terminal to measure, or where the creation
/// time of an entry shown cannot be written as a date.
pub fn list(elements: Vec<Node>, recursive_limit: usize, sort_by: SortBy) -> (text: Option<String>)
    ensures
        text matches Some(t) ==> all_dated(elements@, elements@.len(), recursive_limit as nat, 0)
            && exists|width: usize|
            t@ == table_text(elements@, width as nat, recursive_limit as nat, sort_by),
{
    tree_for_terminal(&elements, terminal_width(), recursive_limit, &sort_by)
}

/// The tree view of `nodes` for a terminal that was asked for its width:
/// `terminal` is its answer, `None` where there is no terminal to measure.
/// There is a view where the terminal has a width and every entry shown
/// has a date, and it is the table for that width.
pub fn tree_for_terminal(
    nodes: &Vec<Node>,
    terminal: Option<usize>,
    recursive_limit: usize,
    sort_by: &SortBy,
) -> (text: Option<String>)
    ensures
        text is Some <==> terminal is Some && all_dated(
            nodes@,
            nodes@.len(),
            recursive_limit as nat,
            0,
        ),
        text matches Some(t) ==> t@ == table_text(
            nodes@,
            terminal->0 as nat,
            recursive_limit as nat,
            *sort_by,
        ),
{
    match terminal {
        Some(width) => render_tree(nodes, width, recursive_limit, sort_by),
        None => None,
    }
}

} // verus!
