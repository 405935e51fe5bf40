//! Stable ordering of a list's items by a precedence.

use vstd::prelude::*;

verus! {

/// A rule that says which of two items comes first: a strict weak order.
pub trait Precedence<T> {
    /// Whether `a` comes strictly before `b`.
    spec fn before(&self, a: T, b: T) -> bool;

    /// Of two items at most one comes before the other.
    proof fn one_way(&self, a: T, b: T)
        requires
            self.before(a, b),
        ensures
            !self.before(b, a),
    ;

    /// Not coming before passes on.
    proof fn passes_on(&self, a: T, b: T, c: T)
        requires
            !self.before(a, b),
            !self.before(b, c),
        ensures
            !self.before(a, c),
    ;

    fn is_before(&self, a: &T, b: &T) -> (r: bool)
        ensures
            r == self.before(*a, *b),
    ;
}

/// The rule is a strict weak order on the items.
spec fn consistent<T, P: Precedence<T>>(p: P, s: Seq<T>) -> bool {
    &&& forall|i: int, j: int|
        0 <= i < s.len() && 0 <= j < s.len() && #[trigger] p.before(s[i], s[j]) ==> !p.before(
            s[j],
            s[i],
        )
    &&& forall|i: int, j: int, k: int|
        0 <= i < s.len() && 0 <= j < s.len() && 0 <= k < s.len() && !(#[trigger] p.before(
            s[i],
            s[j],
        )) && !(#[trigger] p.before(s[j], s[k])) ==> !p.before(s[i], s[k])
}

proof fn rule_is_consistent<T, P: Precedence<T>>(p: P, s: Seq<T>)
    ensures
        consistent(p, s),
{
    assert forall|i: int, j: int|
        0 <= i < s.len() && 0 <= j < s.len() && #[trigger] p.before(s[i], s[j]) implies !p.before(
        s[j],
        s[i],
    ) by {
        p.one_way(s[i], s[j]);
    }
    assert forall|i: int, j: int, k: int|
        0 <= i < s.len() && 0 <= j < s.len() && 0 <= k < s.len() && !(#[trigger] p.before(
            s[i],
            s[j],
        )) && !(#[trigger] p.before(s[j], s[k])) implies !p.before(s[i], s[k]) by {
        p.passes_on(s[i], s[j], s[k]);
    }
}

/// Item `i` goes before item `j`: the rule says so, or it does not separate
/// them and `i` stood first.
pub open spec fn precedes<T, P: Precedence<T>>(p: P, s: Seq<T>, i: int, j: int) -> bool {
    p.before(s[i], s[j]) || (!p.before(s[j], s[i]) && i < j)
}

/// The numbers `lo..hi`, each once, in some order.
pub open spec fn arranges(order: Seq<usize>, lo: int, hi: int) -> bool {
    &&& order.len() == hi - lo
    &&& forall|i: int| 0 <= i < order.len() ==> lo <= #[trigger] order[i] < hi
    &&& order.no_duplicates()
}

/// Each listed position precedes all that follow.
pub open spec fn in_order<T, P: Precedence<T>>(p: P, s: Seq<T>, order: Seq<usize>) -> bool {
    forall|a: int, b: int|
        0 <= a < b < order.len() ==> precedes(
            p,
            s,
            #[trigger] order[a] as int,
            #[trigger] order[b] as int,
        )
}

/// The items of `s` taken in the given order.
pub open spec fn reordered<T>(s: Seq<T>, order: Seq<usize>) -> Seq<T> {
    Seq::new(order.len(), |i: int| s[order[i] as int])
}

/// `r` is `s` in the rule's order, with items that the rule does not separate
/// kept in their order.
pub open spec fn stably_sorted<T, P: Precedence<T>>(p: P, s: Seq<T>, r: Seq<T>) -> bool {
    exists|order: Seq<usize>|
        {
            &&& #[trigger] arranges(order, 0, s.len() as int)
            &&& r == reordered(s, order)
            &&& in_order(p, s, order)
        }
}

/// `r` holds the items of `s`, each once, in some order.
pub open spec fn rearranged<T>(s: Seq<T>, r: Seq<T>) -> bool {
    exists|order: Seq<usize>| #[trigger]
        arranges(order, 0, s.len() as int) && r == reordered(s, order)
}

proof fn precedes_transitive<T, P: Precedence<T>>(p: P, s: Seq<T>, i: int, j: int, k: int)
    requires
        consistent(p, s),
        0 <= i < s.len(),
        0 <= j < s.len(),
        0 <= k < s.len(),
        precedes(p, s, i, j),
        precedes(p, s, j, k),
    ensures
        precedes(p, s, i, k),
{
    // !before(j, i) and !before(k, j) hold in every case, so !before(k, i) does.
    assert(!p.before(s[j], s[i]));
    assert(!p.before(s[k], s[j]));
    assert(!p.before(s[k], s[i]));
    if p.before(s[i], s[j]) && !p.before(s[i], s[k]) {
        assert(!p.before(s[i], s[k]) && !p.before(s[k], s[j]));
        assert(false);
    }
    if p.before(s[j], s[k]) && !p.before(s[i], s[k]) {
        assert(!p.before(s[j], s[i]) && !p.before(s[i], s[k]));
        assert(false);
    }
}

/// An arrangement of the numbers below `n` holds each of them.
pub proof fn arranged_contains(order: Seq<usize>, n: int, x: usize)
    requires
        arranges(order, 0, n),
        x < n,
    ensures
        order.contains(x),
{
    let set = order.to_set();
    let bound = vstd::set_lib::set_int_range(0, n);
    let image = set.map(|u: usize| u as int);
    order.unique_seq_to_set();
    vstd::set_lib::lemma_int_range(0, n);
    assert forall|i: int| image.contains(i) implies bound.contains(i) by {
        let u = choose|u: usize| set.contains(u) && u as int == i;
        let k = choose|k: int| 0 <= k < order.len() && order[k] == u;
        assert(order[k] < n);
    }
    vstd::set_lib::lemma_map_size(set, image, |u: usize| u as int);
    vstd::set_lib::lemma_subset_equality(image, bound);
    assert(bound.contains(x as int));
    assert(image.contains(x as int));
    let u = choose|u: usize| set.contains(u) && u as int == x as int;
    assert(u == x);
}

/// The rule's order of the items is one: it leaves no choice.
pub proof fn order_is_unique<T, P: Precedence<T>>(
    p: P,
    s: Seq<T>,
    a: Seq<usize>,
    b: Seq<usize>,
)
    requires
        arranges(a, 0, s.len() as int),
        arranges(b, 0, s.len() as int),
        in_order(p, s, a),
        in_order(p, s, b),
    ensures
        a == b,
{
    rule_is_consistent(p, s);
    same_up_to(p, s, a, b, s.len() as int);
    assert(a =~= b);
}

proof fn same_up_to<T, P: Precedence<T>>(p: P, s: Seq<T>, a: Seq<usize>, b: Seq<usize>, k: int)
    requires
        consistent(p, s),
        arranges(a, 0, s.len() as int),
        arranges(b, 0, s.len() as int),
        in_order(p, s, a),
        in_order(p, s, b),
        0 <= k <= s.len(),
    ensures
        forall|i: int| 0 <= i < k ==> #[trigger] a[i] == b[i],
    decreases k,
{
    if k > 0 {
        let at = k - 1;
        same_up_to(p, s, a, b, at);
        let (x, y) = (a[at], b[at]);
        if x != y {
            arranged_contains(b, s.len() as int, x);
            let i = choose|i: int| 0 <= i < b.len() && b[i] == x;
            if i < at {
                assert(a[i] == b[i]);
                assert(a[i] != a[at]);
            }
            arranged_contains(a, s.len() as int, y);
            let j = choose|j: int| 0 <= j < a.len() && a[j] == y;
            if j < at {
                assert(a[j] == b[j]);
                assert(b[j] != b[at]);
            }
            assert(precedes(p, s, b[at] as int, b[i] as int));
            assert(precedes(p, s, a[at] as int, a[j] as int));
            if p.before(s[x as int], s[y as int]) {
                assert(!p.before(s[y as int], s[x as int]));
            }
            assert(false);
        }
    }
}

/// Items with the same multiset stand for the same items in another order.
pub proof fn same_items_are_rearranged<T>(s: Seq<T>, r: Seq<T>)
    requires
        s.to_multiset() == r.to_multiset(),
        s.len() <= usize::MAX,
    ensures
        rearranged(s, r),
    decreases r.len(),
{
    broadcast use vstd::seq_lib::group_to_multiset_ensures;

    vstd::seq_lib::to_multiset_len(s);
    vstd::seq_lib::to_multiset_len(r);
    if r.len() == 0 {
        let o = Seq::<usize>::empty();
        assert(arranges(o, 0, 0));
        assert(r =~= reordered(s, o));
    } else {
        let x = r.last();
        assert(r.to_multiset().count(x) > 0) by {
            assert(r.contains(x));
        }
        assert(s.contains(x));
        let i = choose|i: int| 0 <= i < s.len() && s[i] == x;
        let fewer = s.remove(i);
        let rest = r.drop_last();
        assert(rest =~= r.remove(r.len() - 1));
        assert(fewer.to_multiset() == rest.to_multiset());
        same_items_are_rearranged(fewer, rest);
        let o = choose|o: Seq<usize>| #[trigger]
            arranges(o, 0, fewer.len() as int) && rest == reordered(fewer, o);
        let wide = Seq::new(
            r.len(),
            |k: int|
                if k == r.len() - 1 {
                    i as usize
                } else if o[k] < i {
                    o[k]
                } else {
                    (o[k] + 1) as usize
                },
        );
        assert(arranges(wide, 0, s.len() as int)) by {
            assert forall|k: int| 0 <= k < wide.len() implies 0 <= #[trigger] wide[k]
                < s.len() by {
                if k < o.len() {
                    assert(0 <= o[k] < fewer.len());
                }
            }
            assert forall|k: int, l: int|
                0 <= k < wide.len() && 0 <= l < wide.len() && k != l implies wide[k]
                != wide[l] by {
                if k < o.len() {
                    assert(0 <= o[k] < fewer.len());
                }
                if l < o.len() {
                    assert(0 <= o[l] < fewer.len());
                }
                if k < o.len() && l < o.len() {
                    assert(o[k] != o[l]);
                }
            }
        }
        assert forall|k: int| 0 <= k < r.len() implies r[k] == reordered(s, wide)[k] by {
            if k < o.len() {
                assert(0 <= o[k] < fewer.len());
                assert(rest[k] == fewer[o[k] as int]);
            }
        }
        assert(r =~= reordered(s, wide));
    }
}

/// Merges the orders of two neighbouring ranges.
#[verifier::rlimit(40)]
fn merge_orders<T, P: Precedence<T>>(
    items: &Vec<T>,
    p: &P,
    left: &Vec<usize>,
    right: &Vec<usize>,
    Ghost(lo): Ghost<int>,
    Ghost(mid): Ghost<int>,
    Ghost(hi): Ghost<int>,
) -> (out: Vec<usize>)
    requires
        0 <= lo <= mid <= hi <= items@.len(),
        arranges(left@, lo, mid),
        arranges(right@, mid, hi),
        consistent(*p, items@) ==> in_order(*p, items@, left@) && in_order(*p, items@, right@),
    ensures
        arranges(out@, lo, hi),
        consistent(*p, items@) ==> in_order(*p, items@, out@),
{
    let mut out: Vec<usize> = Vec::new();
    let mut i: usize = 0;
    let mut j: usize = 0;
    while i < left.len() || j < right.len()
        invariant
            0 <= lo <= mid <= hi <= items@.len(),
            arranges(left@, lo, mid),
            arranges(right@, mid, hi),
            consistent(*p, items@) ==> in_order(*p, items@, left@) && in_order(
                *p,
                items@,
                right@,
            ),
            i <= left@.len(),
            j <= right@.len(),
            out@.len() == i + j,
            out@.no_duplicates(),
            forall|k: int|
                0 <= k < out@.len() ==> left@.take(i as int).contains(#[trigger] out@[k])
                    || right@.take(j as int).contains(out@[k]),
            consistent(*p, items@) ==> in_order(*p, items@, out@),
            consistent(*p, items@) ==> forall|k: int, a: int|
                0 <= k < out@.len() && i <= a < left@.len() ==> precedes(
                    *p,
                    items@,
                    #[trigger] out@[k] as int,
                    #[trigger] left@[a] as int,
                ),
            consistent(*p, items@) ==> forall|k: int, b: int|
                0 <= k < out@.len() && j <= b < right@.len() ==> precedes(
                    *p,
                    items@,
                    #[trigger] out@[k] as int,
                    #[trigger] right@[b] as int,
                ),
        decreases left.len() - i + right.len() - j,
    {
        let take_right = if i == left.len() {
            true
        } else if j == right.len() {
            false
        } else {
            p.is_before(&items[right[j]], &items[left[i]])
        };
        let ghost before = out@;
        if take_right {
            let x: usize = right[j];
            proof {
                assert forall|k: int| 0 <= k < before.len() implies before[k] != x by {
                    if before[k] == x {
                        if left@.take(i as int).contains(x) {
                            let a = choose|a: int| 0 <= a < i && left@.take(i as int)[a] == x;
                            assert(left@[a] < mid);
                        } else {
                            let b = choose|b: int| 0 <= b < j && right@.take(j as int)[b] == x;
                            assert(right@[b] == right@[j as int]);
                        }
                    }
                }
                if consistent(*p, items@) {
                    assert forall|a: int| i <= a < left@.len() implies precedes(
                        *p,
                        items@,
                        x as int,
                        #[trigger] left@[a] as int,
                    ) by {
                        if a > i {
                            precedes_transitive(
                                *p,
                                items@,
                                x as int,
                                left@[i as int] as int,
                                left@[a] as int,
                            );
                        }
                    }
                }
                assert(right@.take(j + 1)[j as int] == x);
            }
            out.push(x);
            proof {
                assert forall|k: int| 0 <= k < out@.len() implies left@.take(i as int).contains(
                    #[trigger] out@[k],
                ) || right@.take(j + 1).contains(out@[k]) by {
                    if k < before.len() {
                        assert(before[k] == out@[k]);
                        if right@.take(j as int).contains(before[k]) {
                            let b = choose|b: int|
                                0 <= b < j && right@.take(j as int)[b] == before[k];
                            assert(right@.take(j + 1)[b] == before[k]);
                        }
                    }
                }
            }
            j = j + 1;
        } else {
            let x: usize = left[i];
            proof {
                assert forall|k: int| 0 <= k < before.len() implies before[k] != x by {
                    if before[k] == x {
                        if left@.take(i as int).contains(x) {
                            let a = choose|a: int| 0 <= a < i && left@.take(i as int)[a] == x;
                            assert(left@[a] == left@[i as int]);
                        } else {
                            let b = choose|b: int| 0 <= b < j && right@.take(j as int)[b] == x;
                            assert(right@[b] >= mid);
                        }
                    }
                }
                if consistent(*p, items@) {
                    assert forall|b: int| j <= b < right@.len() implies precedes(
                        *p,
                        items@,
                        x as int,
                        #[trigger] right@[b] as int,
                    ) by {
                        assert(precedes(*p, items@, x as int, right@[j as int] as int));
                        if b > j {
                            precedes_transitive(
                                *p,
                                items@,
                                x as int,
                                right@[j as int] as int,
                                right@[b] as int,
                            );
                        }
                    }
                }
                assert(left@.take(i + 1)[i as int] == x);
            }
            out.push(x);
            proof {
                assert forall|k: int| 0 <= k < out@.len() implies left@.take(i + 1).contains(
                    #[trigger] out@[k],
                ) || right@.take(j as int).contains(out@[k]) by {
                    if k < before.len() {
                        assert(before[k] == out@[k]);
                        if left@.take(i as int).contains(before[k]) {
                            let a = choose|a: int|
                                0 <= a < i && left@.take(i as int)[a] == before[k];
                            assert(left@.take(i + 1)[a] == before[k]);
                        }
                    }
                }
            }
            i = i + 1;
        }
    }
    proof {
        assert forall|k: int| 0 <= k < out@.len() implies lo <= #[trigger] out@[k] < hi by {
            if left@.take(i as int).contains(out@[k]) {
                let a = choose|a: int| 0 <= a < i && left@.take(i as int)[a] == out@[k];
                assert(left@[a] == out@[k]);
            } else {
                let b = choose|b: int| 0 <= b < j && right@.take(j as int)[b] == out@[k];
                assert(right@[b] == out@[k]);
            }
        }
    }
    out
}

fn order_range<T, P: Precedence<T>>(items: &Vec<T>, p: &P, lo: usize, hi: usize) -> (out: Vec<
    usize,
>)
    requires
        lo <= hi <= items@.len(),
    ensures
        arranges(out@, lo as int, hi as int),
        consistent(*p, items@) ==> in_order(*p, items@, out@),
    decreases hi - lo,
{
    if hi - lo <= 1 {
        let mut out: Vec<usize> = Vec::new();
        if lo < hi {
            out.push(lo);
        }
        return out;
    }
    let mid: usize = lo + (hi - lo) / 2;
    let left = order_range(items, p, lo, mid);
    let right = order_range(items, p, mid, hi);
    merge_orders(
        items,
        p,
        &left,
        &right,
        Ghost(lo as int),
        Ghost(mid as int),
        Ghost(hi as int),
    )
}

/// The positions of the items in the rule's order; items that the rule does
/// not separate keep their order.
pub fn order_indices<T, P: Precedence<T>>(items: &Vec<T>, p: &P) -> (order: Vec<usize>)
    ensures
        arranges(order@, 0, items@.len() as int),
        in_order(*p, items@, order@),
{
    proof {
        rule_is_consistent(*p, items@);
    }
    order_range(items, p, 0, items.len())
}

/// Moves the items into the given order.
pub fn reorder<T>(items: Vec<T>, order: &Vec<usize>) -> (r: Vec<T>)
    requires
        arranges(order@, 0, items@.len() as int),
    ensures
        r@ == reordered(items@, order@),
{
    let ghost all = items@;
    let mut slots: Vec<Option<T>> = Vec::new();
    for x in it: items
        invariant
            it.seq() == all,
            slots@.len() == it.index(),
            forall|k: int| 0 <= k < it.index() ==> #[trigger] slots@[k] == Some(all[k]),
    {
        slots.push(Some(x));
    }
    let mut r: Vec<T> = Vec::new();
    let mut i: usize = 0;
    while i < order.len()
        invariant
            i <= order@.len(),
            arranges(order@, 0, all.len() as int),
            slots@.len() == all.len(),
            r@.len() == i,
            forall|k: int| 0 <= k < i ==> #[trigger] r@[k] == all[order@[k] as int],
            forall|k: int|
                i <= k < order@.len() ==> slots@[#[trigger] order@[k] as int] == Some(
                    all[order@[k] as int],
                ),
        decreases order.len() - i,
    {
        let at: usize = order[i];
        let mut item: Option<T> = None;
        std::mem::swap(&mut slots[at], &mut item);
        match item {
            Some(x) => {
                r.push(x);
            },
            None => {},
        }
        i = i + 1;
    }
    assert(r@ =~= reordered(all, order@));
    r
}

/// Sorts the items by the rule, keeping the order of items that it does not
/// separate.
pub fn stable_sort<T, P: Precedence<T>>(items: Vec<T>, p: &P) -> (r: Vec<T>)
    ensures
        stably_sorted(*p, items@, r@),
{
    let order = order_indices(&items, p);
    reorder(items, &order)
}

} // verus!
