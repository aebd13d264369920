//! A stable sort by a rank and a text: the order is computed on positions,
//! by merging, and then applied to the items.

use crate::text::{
    chars_before, lemma_text_before_irreflexive, lemma_text_before_total,
    lemma_text_before_transitive, text_before,
};
use vstd::prelude::*;

verus! {

/// What an item is ordered by: first its rank, then its text.
pub struct SortKey {
    pub rank: u8,
    pub text: Vec<char>,
}

/// The mathematical form of a `SortKey`.
pub struct SortKeyView {
    pub rank: u8,
    pub text: Seq<char>,
}

impl View for SortKey {
    type V = SortKeyView;

    open spec fn view(&self) -> SortKeyView {
        SortKeyView { rank: self.rank, text: self.text@ }
    }
}

/// The views of a sequence of keys.
pub open spec fn key_views(keys: Seq<SortKey>) -> Seq<SortKeyView> {
    keys.map_values(|k: SortKey| k@)
}

/// Whether key `a` comes strictly before key `b`.
pub open spec fn key_before(a: SortKeyView, b: SortKeyView) -> bool {
    a.rank < b.rank || (a.rank == b.rank && text_before(a.text, b.text))
}

/// Whether the item at position `x` must stand before the item at position
/// `y`: its key comes first, or the keys are equal and `x` is the earlier
/// position.
pub open spec fn precedes(keys: Seq<SortKeyView>, x: int, y: int) -> bool {
    key_before(keys[x], keys[y]) || (!key_before(keys[y], keys[x]) && x < y)
}

/// Whether `order` lists the positions `lo..hi` of `keys`, each once, so that
/// every listed position precedes those listed after it.
pub open spec fn orders_range(keys: Seq<SortKeyView>, order: Seq<usize>, lo: int, hi: int) -> bool {
    &&& order.len() == hi - lo
    &&& forall|i: int| 0 <= i < order.len() ==> lo <= #[trigger] order[i] < hi
    &&& forall|i: int, j: int|
        0 <= i < j < order.len() ==> precedes(keys, #[trigger] order[i] as int, #[trigger] order[j] as int)
}

/// Whether `order` is the stable sorting order of `keys`: a listing of all
/// positions in which keys never decrease and equal keys keep their places
/// relative to each other.
pub open spec fn is_stable_order(keys: Seq<SortKeyView>, order: Seq<usize>) -> bool {
    orders_range(keys, order, 0, keys.len() as int)
}

/// `precedes` is transitive.
pub proof fn lemma_precedes_transitive(keys: Seq<SortKeyView>, x: int, y: int, z: int)
    requires
        precedes(keys, x, y),
        precedes(keys, y, z),
    ensures
        precedes(keys, x, z),
{
    let a = keys[x];
    let b = keys[y];
    let c = keys[z];
    lemma_text_before_total(a.text, b.text);
    lemma_text_before_total(b.text, c.text);
    lemma_text_before_total(a.text, c.text);
    lemma_text_before_irreflexive(a.text);
    lemma_text_before_irreflexive(b.text);
    lemma_text_before_irreflexive(c.text);
    if text_before(a.text, b.text) && text_before(b.text, c.text) {
        lemma_text_before_transitive(a.text, b.text, c.text);
    }
    if text_before(c.text, a.text) && text_before(a.text, b.text) {
        lemma_text_before_transitive(c.text, a.text, b.text);
    }
    if text_before(b.text, c.text) && text_before(c.text, a.text) {
        lemma_text_before_transitive(b.text, c.text, a.text);
    }
}

/// No position precedes itself, and of two positions that precede each other
/// neither exists: a stable order lists no position twice.
pub proof fn lemma_precedes_asymmetric(keys: Seq<SortKeyView>, x: int, y: int)
    ensures
        !(precedes(keys, x, y) && precedes(keys, y, x)),
{
    let a = keys[x];
    let b = keys[y];
    lemma_text_before_irreflexive(a.text);
    if text_before(a.text, b.text) && text_before(b.text, a.text) {
        lemma_text_before_transitive(a.text, b.text, a.text);
    }
}

/// Whether key `a` comes strictly before key `b`.
pub fn key_comes_before(a: &SortKey, b: &SortKey) -> (r: bool)
    ensures
        r == key_before(a@, b@),
{
    if a.rank != b.rank {
        a.rank < b.rank
    } else {
        chars_before(&a.text, &b.text)
    }
}

/// Merges two orders of adjoining ranges into one.
fn merge_orders(
    keys: &Vec<SortKey>,
    left: Vec<usize>,
    right: Vec<usize>,
    Ghost(lo): Ghost<int>,
    Ghost(mid): Ghost<int>,
    Ghost(hi): Ghost<int>,
) -> (out: Vec<usize>)
    requires
        0 <= lo <= mid <= hi <= keys.len(),
        orders_range(key_views(keys@), left@, lo, mid),
        orders_range(key_views(keys@), right@, mid, hi),
    ensures
        orders_range(key_views(keys@), out@, lo, hi),
{
    let ghost ks = key_views(keys@);
    let mut out: Vec<usize> = Vec::new();
    let mut i: usize = 0;
    let mut j: usize = 0;
    while i < left.len() || j < right.len()
        invariant
            ks == key_views(keys@),
            0 <= lo <= mid <= hi <= keys.len(),
            orders_range(ks, left@, lo, mid),
            orders_range(ks, right@, mid, hi),
            i <= left.len(),
            j <= right.len(),
            out.len() == i + j,
            forall|a: int| 0 <= a < out.len() ==> lo <= #[trigger] out@[a] < hi,
            forall|a: int, b: int|
                0 <= a < b < out.len() ==> precedes(ks, #[trigger] out@[a] as int, #[trigger] out@[b] as int),
            forall|a: int, p: int|
                0 <= a < out.len() && i <= p < left.len() ==> precedes(
                    ks,
                    #[trigger] out@[a] as int,
                    #[trigger] left@[p] as int,
                ),
            forall|a: int, q: int|
                0 <= a < out.len() && j <= q < right.len() ==> precedes(
                    ks,
                    #[trigger] out@[a] as int,
                    #[trigger] right@[q] as int,
                ),
        decreases left.len() - i + right.len() - j,
    {
        let take_left: bool = if i == left.len() {
            false
        } else if j == right.len() {
            true
        } else {
            let l = left[i];
            let r = right[j];
            assert(lo <= left@[i as int] < mid && mid <= right@[j as int] < hi);
            assert(ks[l as int] == keys@[l as int]@ && ks[r as int] == keys@[r as int]@);
            !key_comes_before(&keys[r], &keys[l])
        };
        if take_left {
            let l = left[i];
            proof {
                assert(lo <= left@[i as int] < mid);
                assert forall|p: int| i + 1 <= p < left.len() implies precedes(
                    ks,
                    l as int,
                    #[trigger] left@[p] as int,
                ) by {
                    assert(precedes(ks, left@[i as int] as int, left@[p] as int));
                }
                assert forall|q: int| j <= q < right.len() implies precedes(
                    ks,
                    l as int,
                    #[trigger] right@[q] as int,
                ) by {
                    assert(mid <= right@[j as int] < hi);
                    assert(mid <= right@[q] < hi);
                    assert(precedes(ks, l as int, right@[j as int] as int));
                    if q > j {
                        assert(precedes(ks, right@[j as int] as int, right@[q] as int));
                        lemma_precedes_transitive(ks, l as int, right@[j as int] as int, right@[q] as int);
                    }
                }
            }
            out.push(l);
            i += 1;
        } else {
            let r = right[j];
            proof {
                assert(mid <= right@[j as int] < hi);
                assert forall|q: int| j + 1 <= q < right.len() implies precedes(
                    ks,
                    r as int,
                    #[trigger] right@[q] as int,
                ) by {
                    assert(precedes(ks, right@[j as int] as int, right@[q] as int));
                }
                assert forall|p: int| i <= p < left.len() implies precedes(
                    ks,
                    r as int,
                    #[trigger] left@[p] as int,
                ) by {
                    assert(lo <= left@[i as int] < mid);
                    assert(precedes(ks, r as int, left@[i as int] as int));
                    if p > i {
                        assert(precedes(ks, left@[i as int] as int, left@[p] as int));
                        lemma_precedes_transitive(ks, r as int, left@[i as int] as int, left@[p] as int);
                    }
                }
            }
            out.push(r);
            j += 1;
        }
    }
    out
}

/// The stable sorting order of the positions `lo..hi`.
fn order_range(keys: &Vec<SortKey>, lo: usize, hi: usize) -> (order: Vec<usize>)
    requires
        lo <= hi <= keys.len(),
    ensures
        orders_range(key_views(keys@), order@, lo as int, hi as int),
    decreases hi - lo,
{
    if hi - lo == 0 {
        Vec::new()
    } else if hi - lo == 1 {
        let mut order: Vec<usize> = Vec::new();
        order.push(lo);
        order
    } else {
        let mid: usize = lo + (hi - lo) / 2;
        let left = order_range(keys, lo, mid);
        let right = order_range(keys, mid, hi);
        merge_orders(keys, left, right, Ghost(lo as int), Ghost(mid as int), Ghost(hi as int))
    }
}

/// The stable sorting order of `keys`: the positions of the keys, listed so
/// that keys never decrease and equal keys keep their places relative to
/// each other.
pub fn stable_order(keys: &Vec<SortKey>) -> (order: Vec<usize>)
    ensures
        is_stable_order(key_views(keys@), order@),
{
    let order = order_range(keys, 0, keys.len());
    assert(key_views(keys@).len() == keys@.len());
    order
}

/// Whether `order` lists each position below `n` exactly once.
pub open spec fn is_permutation(order: Seq<usize>, n: int) -> bool {
    &&& order.len() == n
    &&& forall|i: int| 0 <= i < order.len() ==> #[trigger] order[i] < n
    &&& forall|i: int, j: int| 0 <= i < j < order.len() ==> #[trigger] order[i] != #[trigger] order[j]
}

/// A stable order lists each position exactly once.
pub proof fn lemma_stable_order_is_permutation(keys: Seq<SortKeyView>, order: Seq<usize>)
    requires
        is_stable_order(keys, order),
    ensures
        is_permutation(order, keys.len() as int),
{
    assert forall|i: int, j: int| 0 <= i < j < order.len() implies #[trigger] order[i]
        != #[trigger] order[j] by {
        lemma_precedes_asymmetric(keys, order[i] as int, order[j] as int);
    }
}

/// A listing of each position below `n` exactly once reaches every one of them.
pub proof fn lemma_permutation_onto(order: Seq<usize>, n: int, k: int)
    requires
        is_permutation(order, n),
        0 <= k < n,
    ensures
        exists|i: int| 0 <= i < n && #[trigger] order[i] == k,
{
    let places = order.map_values(|v: usize| v as int);
    assert forall|i: int, j: int| 0 <= i < places.len() && 0 <= j < places.len() && i != j implies places[i]
        != places[j] by {
        if i < j {
            assert(order[i] != order[j]);
        } else {
            assert(order[j] != order[i]);
        }
    }
    places.unique_seq_to_set();
    vstd::set_lib::lemma_int_range(0, n);
    let all = vstd::set_lib::set_int_range(0, n);
    assert forall|v: int| places.to_set().contains(v) implies all.contains(v) by {
        let i = choose|i: int| 0 <= i < places.len() && places[i] == v;
        assert(order[i] < n);
    }
    vstd::seq_lib::seq_to_set_is_finite(places);
    vstd::set_lib::lemma_subset_equality(places.to_set(), all);
    assert(all.contains(k));
    assert(places.to_set().contains(k));
    let i = choose|i: int| 0 <= i < places.len() && places[i] == k;
    assert(order[i] == k);
}

/// The items in the order given: the item at place `i` of the result is the
/// one that stood at position `order[i]`.
pub fn reorder<T>(items: Vec<T>, order: &Vec<usize>) -> (out: Vec<T>)
    requires
        is_permutation(order@, items@.len() as int),
    ensures
        out@.len() == items@.len(),
        forall|i: int| 0 <= i < out@.len() ==> out@[i] == items@[order@[i] as int],
{
    let ghost given = items@;
    let n: usize = items.len();
    let mut slots: Vec<Option<T>> = Vec::new();
    for item in it: items
        invariant
            it.seq() == given,
            slots@.len() == it.index(),
            forall|k: int| 0 <= k < slots@.len() ==> slots@[k] == Some(given[k]),
    {
        slots.push(Some(item));
    }
    let mut out: Vec<T> = Vec::new();
    let mut k: usize = 0;
    while k < n
        invariant
            n == given.len(),
            is_permutation(order@, n as int),
            k <= n,
            slots@.len() == n,
            out@.len() == k,
            forall|i: int| 0 <= i < k ==> out@[i] == given[order@[i] as int],
            forall|m: int|
                0 <= m < n ==> #[trigger] slots@[m] == (if exists|i: int|
                    0 <= i < k && order@[i] == m {
                    None
                } else {
                    Some(given[m])
                }),
        decreases n - k,
    {
        let at: usize = order[k];
        assert(order@[k as int] < n);
        assert(!(exists|i: int| 0 <= i < k && order@[i] == at)) by {
            if exists|i: int| 0 <= i < k && order@[i] == at {
                let i = choose|i: int| 0 <= i < k && order@[i] == at;
                assert(order@[i] != order@[k as int]);
            }
        }
        assert(slots@[at as int] == Some(given[at as int]));
        slots.push(None);
        let taken = slots.swap_remove(at);
        let ghost before = k;
        match taken {
            Some(item) => {
                out.push(item);
            },
            None => {
                assert(false);
            },
        }
        k += 1;
        proof {
            assert forall|m: int| 0 <= m < n implies #[trigger] slots@[m] == (if exists|i: int|
                0 <= i < k && order@[i] == m {
                None
            } else {
                Some(given[m])
            }) by {
                if m == at {
                    assert(order@[before as int] == m);
                } else if exists|i: int| 0 <= i < before && order@[i] == m {
                    let i = choose|i: int| 0 <= i < before && order@[i] == m;
                    assert(0 <= i < k && order@[i] == m);
                } else if exists|i: int| 0 <= i < k && order@[i] == m {
                    let i = choose|i: int| 0 <= i < k && order@[i] == m;
                    assert(i == before);
                }
            }
        }
    }
    out
}

} // verus!
