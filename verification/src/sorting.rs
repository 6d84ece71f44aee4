//! A stable sort, stated over the positions of the keys.
use vstd::prelude::*;

use crate::text;

verus! {

/// A key with a strict weak order.
pub trait SortKey: Sized {
    /// This key stands before `other`.
    spec fn before(&self, other: &Self) -> bool;

    /// Of two keys at most one stands before the other.
    proof fn lemma_asymmetric(a: &Self, b: &Self)
        ensures
            !(a.before(b) && b.before(a)),
    ;

    /// Where `a` stands before `c`, every `b` stands after `a` or before `c`.
    proof fn lemma_split(a: &Self, b: &Self, c: &Self)
        requires
            a.before(c),
        ensures
            a.before(b) || b.before(c),
    ;

    /// `true` where this key stands before `other`.
    fn is_before(&self, other: &Self) -> (r: bool)
        ensures
            r == self.before(other),
    ;
}

/// The key at position `a` belongs in front of the key at position `b`: it is
/// smaller, or neither is smaller and it came first.
pub open spec fn precedes<K: SortKey>(keys: Seq<K>, a: int, b: int) -> bool {
    keys[a].before(&keys[b]) || (!keys[b].before(&keys[a]) && a < b)
}

/// Every position from `lo` up to `hi` stands in `order`, and nothing else does.
pub open spec fn holds_range(order: Seq<usize>, lo: int, hi: int) -> bool {
    &&& order.len() == hi - lo
    &&& forall|i: int| 0 <= i < order.len() ==> lo <= #[trigger] order[i] < hi
    &&& forall|k: usize| lo <= k < hi ==> order.contains(k)
}

/// `order` lists its positions in stable sorted order.
pub open spec fn sorted_by<K: SortKey>(keys: Seq<K>, order: Seq<usize>) -> bool {
    forall|i: int, j: int|
        0 <= i < j < order.len() ==> precedes(
            keys,
            (#[trigger] order[i]) as int,
            (#[trigger] order[j]) as int,
        )
}

/// `order` lists every position of `keys` once, smaller keys first and equal
/// keys as they came.
pub open spec fn is_stable_order<K: SortKey>(keys: Seq<K>, order: Seq<usize>) -> bool {
    &&& holds_range(order, 0, keys.len() as int)
    &&& sorted_by(keys, order)
}

proof fn lemma_precedes_transitive<K: SortKey>(keys: Seq<K>, a: int, b: int, c: int)
    requires
        precedes(keys, a, b),
        precedes(keys, b, c),
    ensures
        precedes(keys, a, c),
{
    K::lemma_asymmetric(&keys[a], &keys[b]);
    K::lemma_asymmetric(&keys[b], &keys[c]);
    K::lemma_asymmetric(&keys[a], &keys[c]);
    if keys[c].before(&keys[a]) {
        K::lemma_split(&keys[c], &keys[b], &keys[a]);
    }
    if keys[a].before(&keys[b]) {
        K::lemma_split(&keys[a], &keys[c], &keys[b]);
    }
    if keys[b].before(&keys[c]) {
        K::lemma_split(&keys[b], &keys[a], &keys[c]);
    }
}

/// What the merge has taken so far is sorted and stands in front of what is left.
spec fn merge_state<K: SortKey>(
    keys: Seq<K>,
    left: Seq<usize>,
    right: Seq<usize>,
    done: Seq<usize>,
    i: int,
    j: int,
) -> bool {
    &&& 0 <= i <= left.len()
    &&& 0 <= j <= right.len()
    &&& done.len() == i + j
    &&& sorted_by(keys, done)
    &&& forall|d: int, k: int|
        0 <= d < done.len() && i <= k < left.len() ==> precedes(
            keys,
            (#[trigger] done[d]) as int,
            (#[trigger] left[k]) as int,
        )
    &&& forall|d: int, k: int|
        0 <= d < done.len() && j <= k < right.len() ==> precedes(
            keys,
            (#[trigger] done[d]) as int,
            (#[trigger] right[k]) as int,
        )
    &&& forall|k: int| 0 <= k < i ==> done.contains(#[trigger] left[k])
    &&& forall|k: int| 0 <= k < j ==> done.contains(#[trigger] right[k])
    &&& forall|d: int|
        0 <= d < done.len() ==> left.contains(#[trigger] done[d]) || right.contains(done[d])
}

proof fn lemma_merge_step<K: SortKey>(
    keys: Seq<K>,
    left: Seq<usize>,
    right: Seq<usize>,
    done: Seq<usize>,
    i: int,
    j: int,
    take_left: bool,
)
    requires
        merge_state(keys, left, right, done, i, j),
        sorted_by(keys, left),
        sorted_by(keys, right),
        take_left ==> i < left.len() && (j < right.len() ==> precedes(
            keys,
            left[i] as int,
            right[j] as int,
        )),
        !take_left ==> j < right.len() && (i < left.len() ==> precedes(
            keys,
            right[j] as int,
            left[i] as int,
        )),
    ensures
        take_left ==> merge_state(keys, left, right, done.push(left[i]), i + 1, j),
        !take_left ==> merge_state(keys, left, right, done.push(right[j]), i, j + 1),
{
    let x = if take_left {
        left[i]
    } else {
        right[j]
    };
    let after = done.push(x);
    let i2 = if take_left {
        i + 1
    } else {
        i
    };
    let j2 = if take_left {
        j
    } else {
        j + 1
    };
    assert forall|d: int, k: int|
        0 <= d < after.len() && i2 <= k < left.len() implies precedes(
        keys,
        (#[trigger] after[d]) as int,
        (#[trigger] left[k]) as int,
    ) by {
        if d == done.len() && !take_left && k > i {
            lemma_precedes_transitive(keys, x as int, left[i] as int, left[k] as int);
        }
    }
    assert forall|d: int, k: int|
        0 <= d < after.len() && j2 <= k < right.len() implies precedes(
        keys,
        (#[trigger] after[d]) as int,
        (#[trigger] right[k]) as int,
    ) by {
        if d == done.len() && take_left && k > j {
            lemma_precedes_transitive(keys, x as int, right[j] as int, right[k] as int);
        }
    }
    assert(after[done.len() as int] == x);
    assert forall|k: int| 0 <= k < i2 implies after.contains(#[trigger] left[k]) by {
        if k < i {
            let d = choose|d: int| 0 <= d < done.len() && done[d] == left[k];
            assert(after[d] == left[k]);
        }
    }
    assert forall|k: int| 0 <= k < j2 implies after.contains(#[trigger] right[k]) by {
        if k < j {
            let d = choose|d: int| 0 <= d < done.len() && done[d] == right[k];
            assert(after[d] == right[k]);
        }
    }
    assert forall|d: int| 0 <= d < after.len() implies left.contains(#[trigger] after[d])
        || right.contains(after[d]) by {
        if d < done.len() {
            assert(after[d] == done[d]);
        }
    }
}

fn sort_range<K: SortKey>(keys: &Vec<K>, lo: usize, hi: usize) -> (order: Vec<usize>)
    requires
        lo <= hi <= keys.len(),
    ensures
        holds_range(order@, lo as int, hi as int),
        sorted_by(keys@, order@),
    decreases hi - lo,
{
    let mut order: Vec<usize> = Vec::new();
    if hi - lo == 0 {
        return order;
    }
    if hi - lo == 1 {
        order.push(lo);
        assert(order@[0] == lo);
        return order;
    }
    let mid: usize = lo + (hi - lo) / 2;
    let left = sort_range(keys, lo, mid);
    let right = sort_range(keys, mid, hi);
    let mut i: usize = 0;
    let mut j: usize = 0;
    while i < left.len() || j < right.len()
        invariant
            lo < mid < hi <= keys.len(),
            holds_range(left@, lo as int, mid as int),
            holds_range(right@, mid as int, hi as int),
            sorted_by(keys@, left@),
            sorted_by(keys@, right@),
            merge_state(keys@, left@, right@, order@, i as int, j as int),
        decreases left.len() - i + right.len() - j,
    {
        let take_left = if i == left.len() {
            false
        } else if j == right.len() {
            true
        } else {
            !keys[right[j]].is_before(&keys[left[i]])
        };
        proof {
            if i < left.len() && j < right.len() {
                K::lemma_asymmetric(&keys@[left@[i as int] as int], &keys@[right@[j as int] as int]);
            }
            lemma_merge_step(
                keys@,
                left@,
                right@,
                order@,
                i as int,
                j as int,
                take_left,
            );
        }
        if take_left {
            order.push(left[i]);
            i = i + 1;
        } else {
            order.push(right[j]);
            j = j + 1;
        }
    }
    proof {
        assert forall|k: usize| lo <= k < hi implies order@.contains(k) by {
            if k < mid {
                assert(left@.contains(k));
                let p = choose|p: int| 0 <= p < left@.len() && left@[p] == k;
                assert(order@.contains(left@[p]));
            } else {
                assert(right@.contains(k));
                let p = choose|p: int| 0 <= p < right@.len() && right@[p] == k;
                assert(order@.contains(right@[p]));
            }
        }
        assert forall|d: int| 0 <= d < order@.len() implies lo <= #[trigger] order@[d] < hi by {
            if left@.contains(order@[d]) {
                let p = choose|p: int| 0 <= p < left@.len() && left@[p] == order@[d];
                assert(lo <= left@[p] < mid);
            } else {
                let p = choose|p: int| 0 <= p < right@.len() && right@[p] == order@[d];
                assert(mid <= right@[p] < hi);
            }
        }
    }
    order
}

/// The positions of `keys` in stable sorted order.
pub fn stable_order<K: SortKey>(keys: &Vec<K>) -> (order: Vec<usize>)
    ensures
        is_stable_order(keys@, order@),
{
    sort_range(keys, 0, keys.len())
}

/// A text as a sort key.
pub struct TextKey {
    pub chars: Vec<char>,
}

impl SortKey for TextKey {
    open spec fn before(&self, other: &TextKey) -> bool {
        text::text_before(self.chars@, other.chars@)
    }

    proof fn lemma_asymmetric(a: &TextKey, b: &TextKey) {
        text::lemma_text_before_total(a.chars@, b.chars@);
    }

    proof fn lemma_split(a: &TextKey, b: &TextKey, c: &TextKey) {
        text::lemma_text_before_split(a.chars@, b.chars@, c.chars@);
    }

    fn is_before(&self, other: &TextKey) -> (r: bool) {
        text::chars_before(&self.chars, &other.chars)
    }
}

/// `out` holds exactly the texts of `from`, each once, in rising order.
pub open spec fn is_sorted_set(from: Seq<Seq<char>>, out: Seq<Seq<char>>) -> bool {
    &&& forall|i: int, j: int|
        0 <= i < j < out.len() ==> text::text_before(#[trigger] out[i], #[trigger] out[j])
    &&& forall|t: Seq<char>| from.contains(t) <==> out.contains(t)
}

/// The texts of `list`, each once, in rising order.
pub fn sort_and_dedup(list: &Vec<String>) -> (r: Vec<String>)
    ensures
        is_sorted_set(text::texts(list@), text::texts(r@)),
{
    let mut keys: Vec<TextKey> = Vec::new();
    while keys.len() < list.len()
        invariant
            keys.len() <= list.len(),
            forall|i: int| 0 <= i < keys.len() ==> (#[trigger] keys@[i]).chars@ == list@[i]@,
        decreases list.len() - keys.len(),
    {
        let i: usize = keys.len();
        keys.push(TextKey { chars: text::chars_of(list[i].as_str()) });
    }
    let order = stable_order(&keys);
    let ghost from = text::texts(list@);
    let mut r: Vec<String> = Vec::new();
    let mut n: usize = 0;
    while n < order.len()
        invariant
            n <= order.len(),
            keys.len() == list.len(),
            from == text::texts(list@),
            forall|i: int| 0 <= i < keys.len() ==> (#[trigger] keys@[i]).chars@ == list@[i]@,
            is_stable_order(keys@, order@),
            forall|i: int, j: int|
                0 <= i < j < r.len() ==> text::text_before(
                    #[trigger] text::texts(r@)[i],
                    #[trigger] text::texts(r@)[j],
                ),
            n == 0 <==> r.len() == 0,
            n > 0 ==> r@[r.len() - 1]@ == list@[order@[n - 1] as int]@,
            forall|k: int|
                0 <= k < n ==> text::texts(r@).contains(list@[(#[trigger] order@[k]) as int]@),
            forall|i: int| 0 <= i < r.len() ==> from.contains(#[trigger] text::texts(r@)[i]),
        decreases order.len() - n,
    {
        let at: usize = order[n];
        let ghost before = r@;
        let ghost item = list@[at as int]@;
        let fresh = n == 0 || !text::same_text(list[at].as_str(), r[r.len() - 1].as_str());
        proof {
            assert(from[at as int] == item);
            if n > 0 {
                let prev = order@[n - 1] as int;
                assert(precedes(keys@, prev, at as int));
                text::lemma_text_before_total(keys@[prev].chars@, keys@[at as int].chars@);
            }
        }
        if fresh {
            r.push(list[at].clone());
            proof {
                let now = text::texts(r@);
                assert(now =~= text::texts(before).push(item));
                assert forall|i: int, j: int| 0 <= i < j < r.len() implies text::text_before(
                    #[trigger] now[i],
                    #[trigger] now[j],
                ) by {
                    if j < before.len() {
                        assert(text::text_before(text::texts(before)[i], text::texts(before)[j]));
                    } else {
                        let last = text::texts(before)[before.len() - 1];
                        assert(text::text_before(last, item));
                        if i < before.len() - 1 {
                            assert(text::text_before(text::texts(before)[i], last));
                            text::lemma_text_before_split(text::texts(before)[i], item, last);
                            text::lemma_text_before_total(item, last);
                        }
                    }
                }
                assert forall|k: int| 0 <= k < n + 1 implies now.contains(
                    list@[(#[trigger] order@[k]) as int]@,
                ) by {
                    if k < n {
                        let t = list@[order@[k] as int]@;
                        let i = choose|i: int|
                            0 <= i < text::texts(before).len() && text::texts(before)[i] == t;
                        assert(now[i] == t);
                    } else {
                        assert(now[before.len() as int] == item);
                    }
                }
                assert forall|i: int| 0 <= i < r.len() implies from.contains(#[trigger] now[i]) by {
                    if i < before.len() {
                        assert(now[i] == text::texts(before)[i]);
                    }
                }
            }
        } else {
            proof {
                assert(text::texts(r@)[r.len() - 1] == item);
            }
        }
        n = n + 1;
    }
    proof {
        let out = text::texts(r@);
        assert forall|t: Seq<char>| from.contains(t) <==> out.contains(t) by {
            if from.contains(t) {
                let i = choose|i: int| 0 <= i < from.len() && from[i] == t;
                assert(order@.contains(i as usize));
                let k = choose|k: int| 0 <= k < order@.len() && order@[k] == i as usize;
                assert(out.contains(list@[order@[k] as int]@));
            }
        }
    }
    r
}

/// No key belongs in front of another and behind it.
proof fn lemma_precedes_asymmetric<K: SortKey>(keys: Seq<K>, a: int, b: int)
    requires
        precedes(keys, a, b),
    ensures
        !precedes(keys, b, a),
{
    K::lemma_asymmetric(&keys[a], &keys[b]);
}

proof fn lemma_orders_agree<K: SortKey>(keys: Seq<K>, a: Seq<usize>, b: Seq<usize>, n: int)
    requires
        is_stable_order(keys, a),
        is_stable_order(keys, b),
        0 <= n <= keys.len(),
    ensures
        forall|i: int| 0 <= i < n ==> a[i] == b[i],
    decreases n,
{
    if n > 0 {
        lemma_orders_agree(keys, a, b, n - 1);
        let m = n - 1;
        if a[m] != b[m] {
            assert(b.contains(a[m]));
            let p = choose|p: int| 0 <= p < b.len() && b[p] == a[m];
            assert(a.contains(b[m]));
            let q = choose|q: int| 0 <= q < a.len() && a[q] == b[m];
            if p < m {
                assert(a[p] == a[m]);
                assert(precedes(keys, a[p] as int, a[m] as int));
                lemma_precedes_asymmetric(keys, a[p] as int, a[m] as int);
            }
            if q < m {
                assert(b[q] == b[m]);
                assert(precedes(keys, b[q] as int, b[m] as int));
                lemma_precedes_asymmetric(keys, b[q] as int, b[m] as int);
            }
            assert(precedes(keys, b[m] as int, b[p] as int));
            assert(precedes(keys, a[m] as int, a[q] as int));
            lemma_precedes_asymmetric(keys, a[m] as int, b[m] as int);
        }
    }
}

/// There is one stable sorted order of given keys.
pub proof fn law_stable_order_is_unique<K: SortKey>(keys: Seq<K>, a: Seq<usize>, b: Seq<usize>)
    requires
        is_stable_order(keys, a),
        is_stable_order(keys, b),
    ensures
        a == b,
{
    lemma_orders_agree(keys, a, b, keys.len() as int);
    assert(a =~= b);
}

/// A sorted order names every position once, no key behind a larger one, and keys of the
/// same rank as they came.
pub proof fn law_order_is_sorted_and_stable<K: SortKey>(
    keys: &Vec<K>,
    order: Vec<usize>,
    i: int,
    j: int,
    at: usize,
)
    requires
        call_ensures(stable_order::<K>, (keys,), order),
    ensures
        order@.len() == keys@.len(),
        0 <= i < order@.len() ==> order@[i] < keys@.len(),
        at < keys@.len() ==> exists|k: int| 0 <= k < order@.len() && order@[k] == at,
        0 <= i < j < order@.len() ==> {
            let a = order@[i] as int;
            let b = order@[j] as int;
            &&& a != b
            &&& !keys@[b].before(&keys@[a])
            &&& !keys@[a].before(&keys@[b]) ==> a < b
        },
{
    if at < keys@.len() {
        assert(order@.contains(at));
    }
    if 0 <= i < j < order@.len() {
        let a = order@[i] as int;
        let b = order@[j] as int;
        assert(precedes(keys@, a, b));
        K::lemma_asymmetric(&keys@[a], &keys@[b]);
    }
}

/// The sorted texts rise, and are those of the list, each once.
pub proof fn law_sorted_texts_rise(list: &Vec<String>, r: Vec<String>, i: int, j: int, t: Seq<char>)
    requires
        call_ensures(sort_and_dedup, (list,), r),
    ensures
        0 <= i < j < r@.len() ==> text::text_before(r@[i]@, r@[j]@) && r@[i]@ != r@[j]@,
        (exists|k: int| 0 <= k < list@.len() && (#[trigger] list@[k])@ == t) <==> (exists|k: int|
            0 <= k < r@.len() && (#[trigger] r@[k])@ == t),
{
    let from = text::texts(list@);
    let out = text::texts(r@);
    assert(from.contains(t) <==> out.contains(t));
    if 0 <= i < j < r@.len() {
        assert(text::text_before(out[i], out[j]));
        text::lemma_text_before_total(out[i], out[j]);
    }
    if exists|k: int| 0 <= k < list@.len() && (#[trigger] list@[k])@ == t {
        let k = choose|k: int| 0 <= k < list@.len() && (#[trigger] list@[k])@ == t;
        assert(from[k] == t);
        let m = choose|m: int| 0 <= m < out.len() && out[m] == t;
        assert(r@[m]@ == t);
    }
    if exists|k: int| 0 <= k < r@.len() && (#[trigger] r@[k])@ == t {
        let k = choose|k: int| 0 <= k < r@.len() && (#[trigger] r@[k])@ == t;
        assert(out[k] == t);
        let m = choose|m: int| 0 <= m < from.len() && from[m] == t;
        assert(list@[m]@ == t);
    }
}

} // verus!
