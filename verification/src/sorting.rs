//! Stable sorting by precomputed keys.

use vstd::prelude::*;
use crate::text::{chars_less, text_less};
use crate::text::{lemma_text_less_total, lemma_text_less_transitive};

verus! {

/// What an item is ordered by: its group first, whatever the direction; within
/// a group its number, then its text.
pub struct SortKey {
    pub group: bool,
    pub number: u128,
    pub text: Vec<char>,
}

/// A key as plain values.
pub struct KeyView {
    pub group: bool,
    pub number: int,
    pub text: Seq<char>,
}

impl View for SortKey {
    type V = KeyView;

    open spec fn view(&self) -> KeyView {
        KeyView { group: self.group, number: self.number as int, text: self.text@ }
    }
}

/// The keys of a sequence as plain values.
pub open spec fn key_views(keys: Seq<SortKey>) -> Seq<KeyView> {
    Seq::new(keys.len(), |i: int| keys[i]@)
}

/// The order within a group, ascending.
pub open spec fn body_less(a: KeyView, b: KeyView) -> bool {
    a.number < b.number || (a.number == b.number && text_less(a.text, b.text))
}

/// Whether `a` must come before `b`.
pub open spec fn key_less(a: KeyView, b: KeyView, desc: bool) -> bool {
    if a.group != b.group {
        b.group
    } else if desc {
        body_less(b, a)
    } else {
        body_less(a, b)
    }
}

/// `new` holds the items of `old`, each once, `order[i]` being the old index of
/// the item at `i`: in the order `less`, and where that decides nothing in
/// their old order.
pub open spec fn stable_rearrangement<T>(
    old_items: Seq<T>,
    new_items: Seq<T>,
    order: Seq<int>,
    less: spec_fn(T, T) -> bool,
) -> bool {
    &&& order.len() == old_items.len()
    &&& new_items.len() == old_items.len()
    &&& forall|i: int|
        0 <= i < order.len() ==> 0 <= #[trigger] order[i] < old_items.len() && new_items[i]
            == old_items[order[i]]
    &&& forall|i: int, j: int|
        0 <= i < j < order.len() ==> #[trigger] order[i] != #[trigger] order[j] && (less(
            new_items[i],
            new_items[j],
        ) || (!less(new_items[j], new_items[i]) && order[i] < order[j]))
}

/// `new_items` is `old_items` sorted stably by `less`.
pub open spec fn sorted_stably<T>(
    old_items: Seq<T>,
    new_items: Seq<T>,
    less: spec_fn(T, T) -> bool,
) -> bool {
    exists|order: Seq<int>| stable_rearrangement(old_items, new_items, order, less)
}

/// The strict order on indices that a stable sort puts them in.
pub open spec fn index_before(keys: Seq<KeyView>, desc: bool, a: int, b: int) -> bool {
    key_less(keys[a], keys[b], desc) || (!key_less(keys[b], keys[a], desc) && a < b)
}

proof fn lemma_body_less_order(a: KeyView, b: KeyView, c: KeyView)
    ensures
        !(body_less(a, b) && body_less(b, a)),
        !body_less(a, b) && !body_less(b, a) ==> a.number == b.number && a.text == b.text,
        body_less(a, b) && body_less(b, c) ==> body_less(a, c),
{
    lemma_text_less_total(a.text, b.text);
    if text_less(a.text, b.text) && text_less(b.text, c.text) {
        lemma_text_less_transitive(a.text, b.text, c.text);
    }
}

/// `key_less` is a strict total order on keys.
pub proof fn lemma_key_less_order(a: KeyView, b: KeyView, c: KeyView, desc: bool)
    ensures
        !(key_less(a, b, desc) && key_less(b, a, desc)),
        !key_less(a, b, desc) && !key_less(b, a, desc) ==> a == b,
        key_less(a, b, desc) && key_less(b, c, desc) ==> key_less(a, c, desc),
{
    lemma_body_less_order(a, b, c);
    lemma_body_less_order(c, b, a);
}

proof fn lemma_index_before_transitive(keys: Seq<KeyView>, desc: bool, a: int, b: int, c: int)
    requires
        index_before(keys, desc, a, b),
        index_before(keys, desc, b, c),
    ensures
        index_before(keys, desc, a, c),
{
    lemma_key_less_order(keys[a], keys[b], keys[c], desc);
    lemma_key_less_order(keys[b], keys[c], keys[a], desc);
    lemma_key_less_order(keys[c], keys[a], keys[b], desc);
}

/// A stable sort has one result only.
pub proof fn sorted_stably_is_unique<T>(
    old_items: Seq<T>,
    a: Seq<T>,
    b: Seq<T>,
    less: spec_fn(T, T) -> bool,
)
    requires
        sorted_stably(old_items, a, less),
        sorted_stably(old_items, b, less),
        forall|x: T, y: T| !(#[trigger] less(x, y) && less(y, x)),
        forall|x: T, y: T, z: T|
            #[trigger] less(x, y) && #[trigger] less(y, z) ==> less(x, z),
        forall|x: T, y: T, z: T|
            !#[trigger] less(x, y) && !#[trigger] less(y, z) ==> !less(x, z),
    ensures
        a == b,
{
    let p = choose|order: Seq<int>| stable_rearrangement(old_items, a, order, less);
    let q = choose|order: Seq<int>| stable_rearrangement(old_items, b, order, less);
    lemma_orders_agree(old_items, a, b, p, q, less, old_items.len() as int);
    assert forall|i: int| 0 <= i < a.len() implies a[i] == b[i] by {
        assert(p[i] == q[i]);
    }
    assert(a =~= b);
}

/// Whether index `x` of `s` comes before index `y` in a stable sort.
spec fn comes_before<T>(s: Seq<T>, less: spec_fn(T, T) -> bool, x: int, y: int) -> bool {
    less(s[x], s[y]) || (!less(s[y], s[x]) && x < y)
}

proof fn lemma_orders_agree<T>(
    old_items: Seq<T>,
    a: Seq<T>,
    b: Seq<T>,
    p: Seq<int>,
    q: Seq<int>,
    less: spec_fn(T, T) -> bool,
    n: int,
)
    requires
        stable_rearrangement(old_items, a, p, less),
        stable_rearrangement(old_items, b, q, less),
        forall|x: T, y: T| !(#[trigger] less(x, y) && less(y, x)),
        forall|x: T, y: T, z: T|
            #[trigger] less(x, y) && #[trigger] less(y, z) ==> less(x, z),
        forall|x: T, y: T, z: T|
            !#[trigger] less(x, y) && !#[trigger] less(y, z) ==> !less(x, z),
        0 <= n <= old_items.len(),
    ensures
        forall|i: int| 0 <= i < n ==> p[i] == q[i],
    decreases n,
{
    if n > 0 {
        lemma_orders_agree(old_items, a, b, p, q, less, n - 1);
        let k = n - 1;
        // p[k] stands somewhere in q, and not among the first k; likewise q[k] in p.
        let i = lemma_onto(q, old_items.len() as int, p[k]);
        let j = lemma_onto(p, old_items.len() as int, q[k]);
        assert(i >= k) by {
            if i < k {
                assert(p[i] == q[i]);
            }
        }
        assert(j >= k) by {
            if j < k {
                assert(p[j] == q[j]);
            }
        }
        if p[k] != q[k] {
            assert(q[k] != q[i]);
            assert(p[k] != p[j]);
            assert(k < i && k < j);
            assert(b[k] == old_items[q[k]] && b[i] == old_items[p[k]]);
            assert(a[k] == old_items[p[k]] && a[j] == old_items[q[k]]);
            assert(comes_before(old_items, less, q[k], q[i]));
            assert(comes_before(old_items, less, p[k], p[j]));
        }
    }
}

/// A sequence of `n` distinct numbers below `n` holds each of them.
pub proof fn lemma_onto(s: Seq<int>, n: int, v: int) -> (i: int)
    requires
        s.len() == n,
        forall|i: int| 0 <= i < n ==> 0 <= #[trigger] s[i] < n,
        forall|i: int, j: int| 0 <= i < j < n ==> #[trigger] s[i] != #[trigger] s[j],
        0 <= v < n,
    ensures
        0 <= i < n,
        s[i] == v,
{
    if !s.contains(v) {
        let all = vstd::set_lib::set_int_range(0, n);
        vstd::set_lib::lemma_int_range(0, n);
        let t = s.to_set();
        assert(s.no_duplicates());
        s.unique_seq_to_set();
        assert(t.subset_of(all.remove(v))) by {
            assert forall|x: int| t.contains(x) implies all.remove(v).contains(x) by {
                let i = choose|i: int| 0 <= i < s.len() && s[i] == x;
                assert(0 <= s[i] < n);
                assert(s.contains(s[i]));
            }
        }
        vstd::set_lib::lemma_len_subset(t, all.remove(v));
        assert(false);
    }
    choose|i: int| 0 <= i < s.len() && s[i] == v
}

/// A stable sort keeps the items: as multisets the two sequences are equal.
pub proof fn sorted_stably_keeps_items<T>(
    old_items: Seq<T>,
    new_items: Seq<T>,
    less: spec_fn(T, T) -> bool,
)
    requires
        sorted_stably(old_items, new_items, less),
    ensures
        old_items.to_multiset() == new_items.to_multiset(),
{
    let p = choose|order: Seq<int>| stable_rearrangement(old_items, new_items, order, less);
    lemma_rearranged_multiset(old_items, new_items, p);
}

proof fn lemma_rearranged_multiset<T>(a: Seq<T>, b: Seq<T>, p: Seq<int>)
    requires
        p.len() == a.len(),
        b.len() == a.len(),
        forall|i: int| 0 <= i < p.len() ==> 0 <= #[trigger] p[i] < a.len() && b[i] == a[p[i]],
        forall|i: int, j: int| 0 <= i < j < p.len() ==> #[trigger] p[i] != #[trigger] p[j],
    ensures
        a.to_multiset() == b.to_multiset(),
    decreases a.len(),
{
    broadcast use vstd::seq_lib::group_to_multiset_ensures;

    let n = a.len() as int;
    if n == 0 {
        assert(a =~= b);
    } else {
        let k = p[n - 1];
        let a2 = a.remove(k);
        let b2 = b.drop_last();
        let p2 = Seq::new((n - 1) as nat, |i: int| if p[i] > k { p[i] - 1 } else { p[i] });
        assert forall|i: int| 0 <= i < n - 1 implies 0 <= #[trigger] p2[i] < a2.len() && b2[i]
            == a2[p2[i]] by {
            assert(p[i] != p[n - 1]);
            assert(b[i] == a[p[i]]);
        }
        assert forall|i: int, j: int| 0 <= i < j < n - 1 implies #[trigger] p2[i] != #[trigger] p2[j] by {
            assert(p[i] != p[j]);
            assert(p[i] != p[n - 1]);
            assert(p[j] != p[n - 1]);
        }
        lemma_rearranged_multiset(a2, b2, p2);
        assert(b == b2.push(b[n - 1]));
        assert(a.remove(k).insert(k, a[k]) =~= a);
        assert(a.to_multiset() == a2.to_multiset().insert(a[k])) by {
            let left = a.take(k);
            let right = a.skip(k + 1);
            assert(a2 =~= left + right);
            assert(a =~= left + seq![a[k]] + right);
            vstd::seq_lib::lemma_multiset_commutative(left, right);
            vstd::seq_lib::lemma_multiset_commutative(left + seq![a[k]], right);
            vstd::seq_lib::lemma_multiset_commutative(left, seq![a[k]]);
            assert(seq![a[k]] =~= Seq::<T>::empty().push(a[k]));
            assert(seq![a[k]].to_multiset() =~= vstd::multiset::Multiset::empty().insert(a[k]));
            assert(a.to_multiset() =~= a2.to_multiset().insert(a[k]));
        }
    }
}

/// Whether key `a` must come before key `b`.
fn precedes(a: &SortKey, b: &SortKey, desc: bool) -> (r: bool)
    ensures
        r == key_less(a@, b@, desc),
{
    if a.group != b.group {
        b.group
    } else if desc {
        b.number < a.number || (b.number == a.number && chars_less(
            b.text.as_slice(),
            a.text.as_slice(),
        ))
    } else {
        a.number < b.number || (a.number == b.number && chars_less(
            a.text.as_slice(),
            b.text.as_slice(),
        ))
    }
}

/// The sequence holds each index from `lo` to `hi` once, in the order of a
/// stable sort.
spec fn orders_range(keys: Seq<KeyView>, desc: bool, r: Seq<usize>, lo: int, hi: int) -> bool {
    &&& r.len() == hi - lo
    &&& forall|i: int| 0 <= i < r.len() ==> lo <= #[trigger] r[i] < hi
    &&& forall|i: int, j: int|
        0 <= i < j < r.len() ==> index_before(
            keys,
            desc,
            #[trigger] r[i] as int,
            #[trigger] r[j] as int,
        )
}

fn merge_orders(
    keys: &Vec<SortKey>,
    desc: bool,
    a: Vec<usize>,
    b: Vec<usize>,
    Ghost(lo): Ghost<int>,
    Ghost(mid): Ghost<int>,
    Ghost(hi): Ghost<int>,
) -> (r: Vec<usize>)
    requires
        0 <= lo <= mid <= hi <= keys@.len(),
        orders_range(key_views(keys@), desc, a@, lo, mid),
        orders_range(key_views(keys@), desc, b@, mid, hi),
    ensures
        orders_range(key_views(keys@), desc, r@, lo, hi),
{
    let ghost kv = key_views(keys@);
    let mut r: Vec<usize> = Vec::new();
    let mut i: usize = 0;
    let mut j: usize = 0;
    while i < a.len() || j < b.len()
        invariant
            0 <= lo <= mid <= hi <= keys@.len(),
            kv == key_views(keys@),
            orders_range(kv, desc, a@, lo, mid),
            orders_range(kv, desc, b@, mid, hi),
            i <= a@.len(),
            j <= b@.len(),
            r@.len() == i + j,
            forall|x: int| 0 <= x < r@.len() ==> lo <= #[trigger] r@[x] < hi,
            forall|x: int, y: int|
                0 <= x < y < r@.len() ==> index_before(
                    kv,
                    desc,
                    #[trigger] r@[x] as int,
                    #[trigger] r@[y] as int,
                ),
            forall|x: int, y: int|
                0 <= x < r@.len() && i <= y < a@.len() ==> index_before(
                    kv,
                    desc,
                    #[trigger] r@[x] as int,
                    #[trigger] a@[y] as int,
                ),
            forall|x: int, y: int|
                0 <= x < r@.len() && j <= y < b@.len() ==> index_before(
                    kv,
                    desc,
                    #[trigger] r@[x] as int,
                    #[trigger] b@[y] as int,
                ),
        decreases a.len() - i + b.len() - j,
    {
        let from_a: bool = if i == a.len() {
            false
        } else if j == b.len() {
            true
        } else {
            !precedes(&keys[b[j]], &keys[a[i]], desc)
        };
        let ghost old_r = r@;
        if from_a {
            let v: usize = a[i];
            proof {
                if j < b@.len() {
                    assert(a@[i as int] < mid && mid <= b@[j as int]);
                    lemma_key_less_order(kv[v as int], kv[b@[j as int] as int], kv[v as int], desc);
                    assert(index_before(kv, desc, v as int, b@[j as int] as int));
                }
                assert forall|y: int| j <= y < b@.len() implies index_before(
                    kv,
                    desc,
                    v as int,
                    #[trigger] b@[y] as int,
                ) by {
                    if y > j {
                        lemma_index_before_transitive(
                            kv,
                            desc,
                            v as int,
                            b@[j as int] as int,
                            b@[y] as int,
                        );
                    }
                }
            }
            r.push(v);
            i += 1;
        } else {
            let v: usize = b[j];
            proof {
                if i < a@.len() {
                    assert(index_before(kv, desc, v as int, a@[i as int] as int));
                }
                assert forall|y: int| i <= y < a@.len() implies index_before(
                    kv,
                    desc,
                    v as int,
                    #[trigger] a@[y] as int,
                ) by {
                    if y > i {
                        lemma_index_before_transitive(
                            kv,
                            desc,
                            v as int,
                            a@[i as int] as int,
                            a@[y] as int,
                        );
                    }
                }
            }
            r.push(v);
            j += 1;
        }
    }
    r
}

fn order_range(keys: &Vec<SortKey>, desc: bool, lo: usize, hi: usize) -> (r: Vec<usize>)
    requires
        lo <= hi <= keys@.len(),
    ensures
        orders_range(key_views(keys@), desc, r@, lo as int, hi as int),
    decreases hi - lo,
{
    let mut r: Vec<usize> = Vec::new();
    if lo == hi {
        return r;
    }
    if hi - lo == 1 {
        r.push(lo);
        return r;
    }
    let mid: usize = lo + (hi - lo) / 2;
    let a = order_range(keys, desc, lo, mid);
    let b = order_range(keys, desc, mid, hi);
    merge_orders(keys, desc, a, b, Ghost(lo as int), Ghost(mid as int), Ghost(hi as int))
}

/// The result of sorting by keys, stated over the old indices.
pub open spec fn sorted_by_keys<T>(
    old_items: Seq<T>,
    new_items: Seq<T>,
    keys: Seq<KeyView>,
    desc: bool,
    order: Seq<int>,
) -> bool {
    &&& order.len() == old_items.len()
    &&& new_items.len() == old_items.len()
    &&& forall|i: int|
        0 <= i < order.len() ==> 0 <= #[trigger] order[i] < old_items.len() && new_items[i]
            == old_items[order[i]]
    &&& forall|i: int, j: int|
        0 <= i < j < order.len() ==> #[trigger] order[i] != #[trigger] order[j] && index_before(
            keys,
            desc,
            order[i],
            order[j],
        )
}

/// Sorts the items stably by the keys, `keys[i]` being that of `items[i]`.
pub fn sort_by_keys<T>(items: &mut Vec<T>, keys: &Vec<SortKey>, desc: bool) -> (order: Ghost<
    Seq<int>,
>)
    requires
        old(items)@.len() == keys@.len(),
    ensures
        sorted_by_keys(old(items)@, final(items)@, key_views(keys@), desc, order@),
{
    let n: usize = items.len();
    let order = order_range(keys, desc, 0, n);
    let ghost before = items@;
    // The items leave from the back, so slot `n - 1 - k` holds item `k`.
    let mut slots: Vec<Option<T>> = Vec::new();
    while items.len() > 0
        invariant
            items@.len() + slots@.len() == n,
            n == before.len(),
            items@ == before.take(items@.len() as int),
            forall|k: int|
                0 <= k < slots@.len() ==> #[trigger] slots@[k] == Some(before[n - 1 - k]),
        decreases items.len(),
    {
        let ghost len0 = items@.len();
        let x = items.pop();
        assert(items@ =~= before.take(len0 - 1));
        slots.push(x);
    }
    let ghost ord = Seq::new(order@.len(), |i: int| order@[i] as int);
    let mut i: usize = 0;
    assert forall|a: int, b: int| 0 <= a < b < order@.len() implies #[trigger] order@[a]
        != #[trigger] order@[b] by {
        let kv = key_views(keys@);
        lemma_key_less_order(
            kv[order@[a] as int],
            kv[order@[a] as int],
            kv[order@[a] as int],
            desc,
        );
        assert(index_before(kv, desc, order@[a] as int, order@[b] as int));
    }
    while i < n
        invariant
            i <= n,
            n == before.len(),
            n == order@.len(),
            slots@.len() == n,
            items@.len() == i,
            forall|k: int| 0 <= k < order@.len() ==> 0 <= #[trigger] order@[k] < n,
            forall|a: int, b: int|
                0 <= a < b < order@.len() ==> #[trigger] order@[a] != #[trigger] order@[b],
            forall|k: int| 0 <= k < i ==> items@[k] == before[#[trigger] order@[k] as int],
            forall|k: int|
                i <= k < n ==> slots@[n - 1 - #[trigger] order@[k]] == Some(
                    before[order@[k] as int],
                ),
        decreases n - i,
    {
        let at: usize = n - 1 - order[i];
        let x = slots[at].take();
        assert(x == Some(before[order@[i as int] as int]));
        match x {
            Some(v) => {
                items.push(v);
            },
            None => {
                assert(false);
            },
        }
        i += 1;
    }
    Ghost(ord)
}

/// Sorts the items stably by `less`, which the keys decide.
pub fn sort_items<T>(
    items: &mut Vec<T>,
    keys: &Vec<SortKey>,
    desc: bool,
    Ghost(less): Ghost<spec_fn(T, T) -> bool>,
)
    requires
        old(items)@.len() == keys@.len(),
        forall|i: int, j: int|
            0 <= i < keys@.len() && 0 <= j < keys@.len() ==> key_less(
                (#[trigger] keys@[i])@,
                (#[trigger] keys@[j])@,
                desc,
            ) == less(old(items)@[i], old(items)@[j]),
    ensures
        sorted_stably(old(items)@, final(items)@, less),
{
    let ghost before = items@;
    let order = sort_by_keys(items, keys, desc);
    proof {
        let kv = key_views(keys@);
        assert forall|i: int, j: int| 0 <= i < j < order@.len() implies #[trigger] order@[i]
            != #[trigger] order@[j] && (less(items@[i], items@[j]) || (!less(items@[j], items@[i])
            && order@[i] < order@[j])) by {
            let x = order@[i];
            let y = order@[j];
            assert(index_before(kv, desc, x, y));
            assert(kv[x] == keys@[x]@ && kv[y] == keys@[y]@);
        }
        assert(stable_rearrangement(before, items@, order@, less));
    }
}

/// A key that orders by text alone.
pub fn text_key(text: Vec<char>) -> (r: SortKey)
    ensures
        r@ == (KeyView { group: false, number: 0, text: text@ }),
{
    SortKey { group: false, number: 0, text }
}

/// A key that orders by a number alone.
pub fn number_key(number: u128) -> (r: SortKey)
    ensures
        r@ == (KeyView { group: false, number: number as int, text: seq![] }),
{
    let text: Vec<char> = Vec::new();
    assert(text@ =~= seq![]);
    SortKey { group: false, number, text }
}

/// The order of texts in a direction.
pub open spec fn text_order(a: Seq<char>, b: Seq<char>, desc: bool) -> bool {
    if desc {
        text_less(b, a)
    } else {
        text_less(a, b)
    }
}

/// The order of numbers in a direction.
pub open spec fn number_order(a: int, b: int, desc: bool) -> bool {
    if desc {
        b < a
    } else {
        a < b
    }
}

/// The new list has the items of the old one, each from a place of its own, and
/// items that count as the same are in the order that they had.
pub open spec fn keeps_order_of<T>(
    old_items: Seq<T>,
    new_items: Seq<T>,
    same: spec_fn(T, T) -> bool,
) -> bool {
    exists|order: Seq<int>|
        {
            &&& #[trigger] order.len() == new_items.len()
            &&& new_items.len() == old_items.len()
            &&& forall|i: int|
                0 <= i < order.len() ==> 0 <= #[trigger] order[i] < old_items.len()
                    && new_items[i] == old_items[order[i]]
            &&& forall|i: int, j: int|
                0 <= i < j < order.len() ==> #[trigger] order[i] != #[trigger] order[j] && (same(
                    new_items[i],
                    new_items[j],
                ) ==> order[i] < order[j])
        }
}

/// In a sorted list no item stands behind one that must come after it, no item
/// is lost or added, and items that the order does not part keep their order.
pub proof fn sorted_lists_are_in_order<T>(
    old_items: Seq<T>,
    new_items: Seq<T>,
    less: spec_fn(T, T) -> bool,
    same: spec_fn(T, T) -> bool,
)
    requires
        sorted_stably(old_items, new_items, less),
        forall|a: T, b: T| #[trigger] less(a, b) ==> !less(b, a) && !same(a, b),
    ensures
        forall|i: int, j: int|
            0 <= i < j < new_items.len() ==> !less(#[trigger] new_items[j], #[trigger] new_items[i]),
        old_items.to_multiset() == new_items.to_multiset(),
        keeps_order_of(old_items, new_items, same),
{
    let order = choose|order: Seq<int>| stable_rearrangement(old_items, new_items, order, less);
    assert(order.len() == new_items.len());
    assert forall|i: int, j: int| 0 <= i < j < new_items.len() implies !less(
        #[trigger] new_items[j],
        #[trigger] new_items[i],
    ) by {
        assert(order[i] != order[j]);
    }
    assert forall|i: int, j: int| 0 <= i < j < order.len() implies #[trigger] order[i]
        != #[trigger] order[j] && (same(new_items[i], new_items[j]) ==> order[i] < order[j]) by {
        if less(new_items[i], new_items[j]) {
            assert(!same(new_items[i], new_items[j]));
        }
    }
    sorted_stably_keeps_items(old_items, new_items, less);
}

} // verus!
