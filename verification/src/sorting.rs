//! Stable ordering by keys: each key is a text and a number, compared by the
//! text first.

use vstd::prelude::*;

verus! {

/// Whether text `a` stands at or before text `b` in dictionary order, scalar
/// value by scalar value; a text stands before each of its extensions.
pub open spec fn text_le(a: Seq<char>, b: Seq<char>) -> bool
    decreases a.len(),
{
    if a.len() == 0 {
        true
    } else if b.len() == 0 {
        false
    } else if a[0] == b[0] {
        text_le(a.drop_first(), b.drop_first())
    } else {
        a[0] < b[0]
    }
}

/// Of two texts one stands at or before the other.
pub proof fn lemma_text_le_total(a: Seq<char>, b: Seq<char>)
    ensures
        text_le(a, b) || text_le(b, a),
    decreases a.len(),
{
    if a.len() > 0 && b.len() > 0 {
        if a[0] == b[0] {
            lemma_text_le_total(a.drop_first(), b.drop_first());
        }
    }
}

/// Two texts that each stand at or before the other are one text.
pub proof fn lemma_text_le_antisymmetric(a: Seq<char>, b: Seq<char>)
    requires
        text_le(a, b),
        text_le(b, a),
    ensures
        a == b,
    decreases a.len(),
{
    if a.len() > 0 && b.len() > 0 {
        lemma_text_le_antisymmetric(a.drop_first(), b.drop_first());
        assert(a =~= seq![a[0]] + a.drop_first());
        assert(b =~= seq![b[0]] + b.drop_first());
    } else {
        assert(a =~= b);
    }
}

/// Dictionary order passes on.
pub proof fn lemma_text_le_transitive(a: Seq<char>, b: Seq<char>, c: Seq<char>)
    requires
        text_le(a, b),
        text_le(b, c),
    ensures
        text_le(a, c),
    decreases a.len(),
{
    if a.len() > 0 && a[0] == b[0] && b[0] == c[0] {
        lemma_text_le_transitive(a.drop_first(), b.drop_first(), c.drop_first());
    }
}

/// Every text stands at or before itself.
pub proof fn lemma_text_le_reflexive(a: Seq<char>)
    ensures
        text_le(a, a),
    decreases a.len(),
{
    if a.len() > 0 {
        lemma_text_le_reflexive(a.drop_first());
    }
}

/// What an item is ordered by.
pub struct SortKey {
    pub text: Vec<char>,
    pub number: i128,
}

/// The mathematical value of a `SortKey`.
pub struct SortKeyView {
    pub text: Seq<char>,
    pub number: int,
}

impl View for SortKey {
    type V = SortKeyView;

    open spec fn view(&self) -> SortKeyView {
        SortKeyView { text: self.text@, number: self.number as int }
    }
}

/// The values of a row of keys.
pub open spec fn key_views(keys: Seq<SortKey>) -> Seq<SortKeyView> {
    keys.map_values(|k: SortKey| k@)
}

/// Whether key `a` is at most key `b`: by the texts in dictionary order, and
/// by the numbers where the texts are the same.
pub open spec fn key_le(a: SortKeyView, b: SortKeyView) -> bool {
    if a.text == b.text {
        a.number <= b.number
    } else {
        text_le(a.text, b.text)
    }
}

/// Where item `x` enters a row of items that is ordered by key: behind the
/// last item whose key is at most its own.
pub open spec fn insertion_point(keys: Seq<SortKeyView>, order: Seq<int>, x: int) -> int
    decreases order.len(),
{
    if order.len() == 0 {
        0
    } else if key_le(keys[order.last()], keys[x]) {
        order.len() as int
    } else {
        insertion_point(keys, order.drop_last(), x)
    }
}

/// The first `n` items in ascending order of their keys, each given by its
/// place in `keys`; items with equal keys keep the order they came in.
pub open spec fn stable_order_upto(keys: Seq<SortKeyView>, n: nat) -> Seq<int>
    decreases n,
{
    if n == 0 {
        Seq::empty()
    } else {
        let prev = stable_order_upto(keys, (n - 1) as nat);
        prev.insert(insertion_point(keys, prev, n - 1), n - 1)
    }
}

/// All items in ascending order of their keys, ties in the order they came in.
pub open spec fn stable_order(keys: Seq<SortKeyView>) -> Seq<int> {
    stable_order_upto(keys, keys.len())
}

/// `order` names each of the first `n` places once.
pub open spec fn is_permutation(order: Seq<int>, n: nat) -> bool {
    &&& order.len() == n
    &&& forall|i: int| 0 <= i < n ==> 0 <= #[trigger] order[i] < n
    &&& forall|i: int, j: int| 0 <= i < j < n ==> #[trigger] order[i] != #[trigger] order[j]
}

/// The keys never fall along `order`.
pub open spec fn is_ascending(keys: Seq<SortKeyView>, order: Seq<int>) -> bool {
    forall|i: int, j: int|
        0 <= i < j < order.len() ==> key_le(keys[#[trigger] order[i]], keys[#[trigger] order[j]])
}

/// Items whose keys are equal stand along `order` as they came in.
pub open spec fn keeps_ties(keys: Seq<SortKeyView>, order: Seq<int>) -> bool {
    forall|i: int, j: int|
        0 <= i < j < order.len() && key_le(keys[#[trigger] order[j]], keys[#[trigger] order[i]])
            ==> order[i] < order[j]
}

/// Keys compare as a total preorder.
pub proof fn lemma_key_le_total(a: SortKeyView, b: SortKeyView)
    ensures
        key_le(a, b) || key_le(b, a),
{
    lemma_text_le_total(a.text, b.text);
}

/// Key order passes on.
pub proof fn lemma_key_le_transitive(a: SortKeyView, b: SortKeyView, c: SortKeyView)
    requires
        key_le(a, b),
        key_le(b, c),
    ensures
        key_le(a, c),
{
    if a.text != b.text && b.text != c.text {
        lemma_text_le_transitive(a.text, b.text, c.text);
        if a.text == c.text {
            lemma_text_le_antisymmetric(a.text, b.text);
        }
    }
}

/// What stands in front of the insertion point is at most the new key, and
/// what stands behind it is greater.
proof fn lemma_insertion_point(keys: Seq<SortKeyView>, order: Seq<int>, x: int)
    requires
        is_ascending(keys, order),
    ensures
        0 <= insertion_point(keys, order, x) <= order.len(),
        forall|i: int|
            0 <= i < insertion_point(keys, order, x) ==> key_le(keys[#[trigger] order[i]], keys[x]),
        forall|i: int|
            insertion_point(keys, order, x) <= i < order.len() ==> !key_le(
                keys[#[trigger] order[i]],
                keys[x],
            ),
    decreases order.len(),
{
    if order.len() > 0 && key_le(keys[order.last()], keys[x]) {
        assert forall|i: int| 0 <= i < order.len() implies key_le(
            keys[#[trigger] order[i]],
            keys[x],
        ) by {
            if i < order.len() - 1 {
                lemma_key_le_transitive(keys[order[i]], keys[order.last()], keys[x]);
            }
        }
    } else if order.len() > 0 {
        let front = order.drop_last();
        lemma_insertion_point(keys, front, x);
        let p = insertion_point(keys, front, x);
        assert forall|i: int| 0 <= i < p implies key_le(keys[#[trigger] order[i]], keys[x]) by {
            assert(order[i] == front[i]);
        }
        assert forall|i: int| p <= i < order.len() implies !key_le(
            keys[#[trigger] order[i]],
            keys[x],
        ) by {
            if i < order.len() - 1 {
                assert(order[i] == front[i]);
            }
        }
    }
}

/// The stable order is an order: it names every item once, the keys never
/// fall along it, and items with equal keys keep the order they came in.
pub proof fn lemma_stable_order_upto(keys: Seq<SortKeyView>, n: nat)
    ensures
        is_permutation(stable_order_upto(keys, n), n),
        is_ascending(keys, stable_order_upto(keys, n)),
        keeps_ties(keys, stable_order_upto(keys, n)),
    decreases n,
{
    if n > 0 {
        let prev = stable_order_upto(keys, (n - 1) as nat);
        lemma_stable_order_upto(keys, (n - 1) as nat);
        lemma_insertion_point(keys, prev, n - 1);
        let p = insertion_point(keys, prev, n - 1);
        let x = n - 1;
        let order = prev.insert(p, x);
        assert forall|i: int, j: int| 0 <= i < j < n implies #[trigger] order[i]
            != #[trigger] order[j] && key_le(keys[order[i]], keys[order[j]]) && (key_le(
            keys[order[j]],
            keys[order[i]],
        ) ==> order[i] < order[j]) by {
            // what stands behind the new item in `order` stood one place
            // further in front in `prev`
            if i == p {
                lemma_key_le_total(keys[prev[j - 1]], keys[x]);
            }
        }
    }
}

/// Places as mathematical integers.
pub open spec fn as_ints(order: Seq<usize>) -> Seq<int> {
    order.map_values(|i: usize| i as int)
}

/// Whether two texts hold the same scalar values.
pub fn same_chars(a: &Vec<char>, b: &Vec<char>) -> (same: bool)
    ensures
        same == (a@ == b@),
{
    if a.len() != b.len() {
        return false;
    }
    let mut i: usize = 0;
    while i < a.len()
        invariant
            i <= a.len(),
            a.len() == b.len(),
            forall|k: int| 0 <= k < i ==> a@[k] == b@[k],
        decreases a.len() - i,
    {
        if a[i] != b[i] {
            return false;
        }
        i += 1;
    }
    assert(a@ =~= b@);
    true
}

/// Whether text `a` stands at or before text `b` in dictionary order.
pub fn text_at_most(a: &Vec<char>, b: &Vec<char>) -> (at_most: bool)
    ensures
        at_most == text_le(a@, b@),
{
    let mut i: usize = 0;
    proof {
        assert(a@.skip(0) =~= a@);
        assert(b@.skip(0) =~= b@);
    }
    while i < a.len() && i < b.len()
        invariant
            i <= a.len(),
            i <= b.len(),
            text_le(a@, b@) == text_le(a@.skip(i as int), b@.skip(i as int)),
        decreases a.len() - i,
    {
        proof {
            assert(a@.skip(i as int).drop_first() =~= a@.skip(i + 1));
            assert(b@.skip(i as int).drop_first() =~= b@.skip(i + 1));
        }
        let x: char = a[i];
        let y: char = b[i];
        if x != y {
            return x < y;
        }
        i += 1;
    }
    i == a.len()
}

/// Whether key `a` is at most key `b`.
pub fn key_at_most(a: &SortKey, b: &SortKey) -> (at_most: bool)
    ensures
        at_most == key_le(a@, b@),
{
    if same_chars(&a.text, &b.text) {
        a.number <= b.number
    } else {
        text_at_most(&a.text, &b.text)
    }
}

/// The places of the keys in ascending order of the keys, places of equal
/// keys in ascending order.
pub fn stable_order_of(keys: &Vec<SortKey>) -> (order: Vec<usize>)
    ensures
        as_ints(order@) == stable_order(key_views(keys@)),
{
    let ghost kv = key_views(keys@);
    let mut order: Vec<usize> = Vec::new();
    let mut n: usize = 0;
    while n < keys.len()
        invariant
            n <= keys.len(),
            kv == key_views(keys@),
            order.len() == n,
            forall|i: int| 0 <= i < n ==> #[trigger] order@[i] < n,
            as_ints(order@) == stable_order_upto(kv, n as nat),
        decreases keys.len() - n,
    {
        let ghost ord = as_ints(order@);
        let mut p: usize = n;
        assert(ord.take(p as int) =~= ord);
        while p > 0 && !key_at_most(&keys[order[p - 1]], &keys[n])
            invariant
                p <= n,
                n < keys.len(),
                kv == key_views(keys@),
                order.len() == n,
                ord == as_ints(order@),
                forall|i: int| 0 <= i < n ==> #[trigger] order@[i] < n,
                insertion_point(kv, ord, n as int) == insertion_point(
                    kv,
                    ord.take(p as int),
                    n as int,
                ),
            decreases p,
        {
            assert(ord.take(p as int).drop_last() =~= ord.take(p - 1));
            p -= 1;
        }
        assert(insertion_point(kv, ord.take(p as int), n as int) == p);
        order.insert(p, n);
        n += 1;
    }
    order
}

} // verus!
