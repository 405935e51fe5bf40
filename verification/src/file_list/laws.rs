//! What holds of every list.

use vstd::prelude::*;

use super::navigation;
use super::sort::ByOrder;
use super::{groups, natural_sort};
use super::{ListView, NavigationDirection, SortOrder};
use crate::file_info::{FileInfo, FileSource};
use crate::file_list;
use crate::ordering;
use crate::ordering::Precedence;
use crate::paths;
use crate::paths::Location;

verus! {

proof fn path_is_found(files: Seq<FileInfo>, at: Location, k: int, i: int)
    requires
        0 <= k <= i < files.len(),
        paths::location(files[i].path@) == at,
    ensures
        file_list::path_from(files, at, k) matches Some(j) && k <= j <= i && paths::location(
            files[j].path@,
        ) == at,
    decreases files.len() - k,
{
    if paths::location(files[k].path@) != at {
        path_is_found(files, at, k + 1, i);
    }
}

proof fn source_is_found(files: Seq<FileInfo>, source: FileSource, k: int, i: int)
    requires
        0 <= k <= i < files.len(),
        file_list::same_source(files[i].source, source),
    ensures
        file_list::source_from(files, source, k) matches Some(j) && k <= j <= i
            && file_list::same_source(files[j].source, source),
    decreases files.len() - k,
{
    if !file_list::same_source(files[k].source, source) {
        source_is_found(files, source, k + 1, i);
    }
}

/// The entry denotes the same image: the same place in a container, or the same
/// file.
pub open spec fn same_entry(a: FileInfo, b: FileInfo) -> bool {
    if b.source is File {
        paths::location(a.path@) == paths::location(b.path@)
    } else {
        file_list::same_source(a.source, b.source)
    }
}

proof fn entry_is_found(files: Seq<FileInfo>, entry: FileInfo, i: int)
    requires
        0 <= i < files.len(),
        files[i] == entry,
    ensures
        file_list::found_again(files, entry.path@, entry.source) matches Some(j) && 0 <= j
            < files.len() && same_entry(files[j], entry),
{
    if entry.source is File {
        path_is_found(files, paths::location(entry.path@), 0, i);
    } else {
        assert(file_list::same_source(entry.source, entry.source));
        source_is_found(files, entry.source, 0, i);
    }
}

/// Sorting keeps every entry, each once.
pub proof fn sorting_keeps_entries(before: ListView, order: SortOrder, after: ListView)
    requires
        file_list::resorted(before, order, after),
    ensures
        ordering::rearranged(before.files, after.files),
{
    let o = choose|o: Seq<usize>|
        {
            &&& #[trigger] ordering::arranges(o, 0, before.files.len() as int)
            &&& after.files == ordering::reordered(before.files, o)
        };
    assert(ordering::arranges(o, 0, before.files.len() as int));
}

/// Sorting stays on the current entry.
pub proof fn sorting_stays_on_entry(before: ListView, order: SortOrder, after: ListView)
    requires
        before.valid(),
        before.files.len() <= usize::MAX,
        before.current is Some,
        file_list::resorted(before, order, after),
    ensures
        after.current matches Some(j) && 0 <= j < after.files.len() && same_entry(
            after.files[j],
            before.files[before.current->0],
        ),
{
    let c = before.current->0;
    let o = choose|o: Seq<usize>|
        {
            &&& #[trigger] ordering::arranges(o, 0, before.files.len() as int)
            &&& after.files == ordering::reordered(before.files, o)
        };
    ordering::arranged_contains(o, before.files.len() as int, c as usize);
    let k = choose|k: int| 0 <= k < o.len() && o[k] == c as usize;
    assert(after.files[k] == before.files[c]);
    entry_is_found(after.files, before.files[c], k);
}

proof fn ascending_is_identity(o: Seq<usize>, n: int)
    requires
        ordering::arranges(o, 0, n),
        forall|a: int, b: int| 0 <= a < b < o.len() ==> #[trigger] o[a] < #[trigger] o[b],
    ensures
        forall|k: int| 0 <= k < n ==> #[trigger] o[k] == k,
{
    assert forall|k: int| 0 <= k < n implies #[trigger] o[k] == k by {
        at_least(o, k);
        at_most(o, n, k);
    }
}

proof fn at_least(o: Seq<usize>, k: int)
    requires
        0 <= k < o.len(),
        forall|a: int, b: int| 0 <= a < b < o.len() ==> #[trigger] o[a] < #[trigger] o[b],
    ensures
        o[k] >= k,
    decreases k,
{
    if k > 0 {
        at_least(o, k - 1);
        assert(o[k - 1] < o[k]);
    }
}

proof fn at_most(o: Seq<usize>, n: int, k: int)
    requires
        0 <= k < o.len(),
        ordering::arranges(o, 0, n),
        forall|a: int, b: int| 0 <= a < b < o.len() ==> #[trigger] o[a] < #[trigger] o[b],
    ensures
        o[k] <= k,
    decreases n - k,
{
    if k < n - 1 {
        at_most(o, n, k + 1);
        assert(o[k] < o[k + 1]);
    } else {
        assert(o[k] < n);
    }
}

/// Sorting a list that stands as it was sorted changes nothing, wherever its
/// position has moved: the entries stay in place, and so does the position where
/// no other entry denotes the same image.
pub proof fn sorting_twice(
    before: ListView,
    order: SortOrder,
    sorted: ListView,
    moved: ListView,
    again: ListView,
)
    requires
        file_list::resorted(before, order, sorted),
        moved.files == sorted.files,
        moved.valid(),
        file_list::resorted(moved, order, again),
    ensures
        again.files == moved.files,
        again.order == order,
        moved.current is None ==> again.current is None,
        moved.current matches Some(i) ==> ((forall|j: int|
            0 <= j < moved.files.len() && j != i ==> !same_entry(
                #[trigger] moved.files[j],
                moved.files[i],
            )) ==> again.current == Some(i)),
{
    let p = ByOrder { order };
    let (a, b, c) = (before.files, moved.files, again.files);
    let n = a.len() as int;
    let o = choose|o: Seq<usize>|
        {
            &&& #[trigger] ordering::arranges(o, 0, n)
            &&& b == ordering::reordered(a, o)
            &&& ordering::in_order(p, a, o)
        };
    let q = choose|q: Seq<usize>|
        {
            &&& #[trigger] ordering::arranges(q, 0, n)
            &&& c == ordering::reordered(b, q)
            &&& ordering::in_order(p, b, q)
        };
    assert forall|x: int, y: int| 0 <= x < y < q.len() implies #[trigger] q[x]
        < #[trigger] q[y] by {
        assert(ordering::precedes(p, b, q[x] as int, q[y] as int));
        let (i, j) = (q[x] as int, q[y] as int);
        assert(i != j);
        if j < i {
            assert(ordering::precedes(p, a, o[j] as int, o[i] as int));
            if p.before(b[i], b[j]) {
                p.one_way(b[i], b[j]);
            }
        }
    }
    ascending_is_identity(q, n);
    assert(c =~= b);
    if let Some(i) = moved.current {
        entry_is_found(b, b[i], i);
    }
}

/// A sorted list is in order: no entry belongs before one that stands before it.
pub proof fn sorted_is_in_order(
    before: ListView,
    order: SortOrder,
    after: ListView,
    i: int,
    j: int,
)
    requires
        file_list::resorted(before, order, after),
        0 <= i < j < after.files.len(),
    ensures
        !(ByOrder { order }).before(after.files[j], after.files[i]),
{
    let p = ByOrder { order };
    let o = choose|o: Seq<usize>|
        {
            &&& #[trigger] ordering::arranges(o, 0, before.files.len() as int)
            &&& after.files == ordering::reordered(before.files, o)
            &&& ordering::in_order(p, before.files, o)
        };
    assert(ordering::precedes(p, before.files, o[i] as int, o[j] as int));
    if p.before(before.files[o[i] as int], before.files[o[j] as int]) {
        p.one_way(before.files[o[i] as int], before.files[o[j] as int]);
    }
}

/// Moving along an order and as far back leads to the same entry, and changes
/// neither the entries nor the list's own order. Of two entries or more, a single
/// step always moves.
pub proof fn ordered_move_is_undone(
    v: ListView,
    step: int,
    order: SortOrder,
    there: ListView,
    moved: bool,
    back: ListView,
    returned: bool,
)
    requires
        v.valid(),
        v.current is Some,
        file_list::moved_by_order(v, step, order, there, moved),
        file_list::moved_by_order(there, -step, order, back, returned),
    ensures
        there.files == v.files,
        there.order == v.order,
        back == v,
        returned == moved,
        v.files.len() >= 2 && (step == 1 || step == -1) ==> moved,
{
    let p = ByOrder { order };
    let n = v.files.len() as int;
    let c = v.current->0;
    let (o, i) = choose|o: Seq<usize>, i: int|
        {
            &&& ordering::arranges(o, 0, n)
            &&& ordering::in_order(p, v.files, o)
            &&& 0 <= i < o.len()
            &&& o[i] == c
            &&& (there, moved) == v.moved(#[trigger] o[navigation::around(i, step, n)] as int)
        };
    let j = navigation::around(i, step, n);
    assert(0 <= j < n) by {
        vstd::arithmetic::div_mod::lemma_mod_bound(i + step, n);
    }
    assert(0 <= o[j] < n);
    let (q, k) = choose|q: Seq<usize>, k: int|
        {
            &&& ordering::arranges(q, 0, n)
            &&& ordering::in_order(p, there.files, q)
            &&& 0 <= k < q.len()
            &&& q[k] == there.current->0
            &&& (back, returned) == there.moved(#[trigger] q[navigation::around(k, -step, n)] as int)
        };
    ordering::order_is_unique(p, v.files, o, q);
    assert(o[k] == o[j]);
    assert(k == j);
    navigation::around_undone(i, step, n);
    if n >= 2 && (step == 1 || step == -1) {
        assert(j != i) by {
            if 0 <= i + step < n {
                vstd::arithmetic::div_mod::lemma_small_mod((i + step) as nat, n as nat);
            } else if step == 1 {
                assert(i + step == n);
                vstd::arithmetic::div_mod::lemma_mod_self_0(n);
            } else {
                assert(i == 0);
                vstd::arithmetic::div_mod::lemma_mod_add_multiples_vanish(-1, n);
                vstd::arithmetic::div_mod::lemma_small_mod((n - 1) as nat, n as nat);
            }
        }
        assert(o[j] != o[i]);
    }
}

/// Shuffling keeps every entry, each once.
pub proof fn shuffling_keeps_entries(v: ListView, state: u64)
    requires
        v.files.len() <= usize::MAX,
    ensures
        ordering::rearranged(v.files, file_list::shuffled_list(v, state).files),
{
    let n = v.files.len() as int;
    if n <= 1 {
        let o = natural_sort::counting(n);
        natural_sort::counting_arranges(n);
        assert(v.files =~= ordering::reordered(v.files, o));
    } else {
        natural_sort::shuffle_arranges(n, state);
    }
}

/// Shuffling stays on the current entry.
pub proof fn shuffling_stays_on_entry(v: ListView, state: u64)
    requires
        v.valid(),
        v.files.len() <= usize::MAX,
        v.current is Some,
    ensures
        file_list::shuffled_list(v, state).current matches Some(j) && 0 <= j < v.files.len()
            && same_entry(file_list::shuffled_list(v, state).files[j], v.files[v.current->0]),
{
    let n = v.files.len() as int;
    let c = v.current->0;
    if n <= 1 {
        let e = v.files[c];
        assert(!(e.source is File) ==> file_list::same_source(e.source, e.source));
    } else {
        let o = natural_sort::shuffled_order(n, state);
        natural_sort::shuffle_arranges(n, state);
        ordering::arranged_contains(o, n, c as usize);
        let k = choose|k: int| 0 <= k < o.len() && o[k] == c as usize;
        let files = file_list::shuffled_list(v, state).files;
        assert(files[k] == v.files[c]);
        entry_is_found(files, v.files[c], k);
    }
}

/// A group holds what is of its kind.
spec fn of_group(key: (bool, Location)) -> spec_fn(FileInfo) -> bool {
    |f: FileInfo| groups::group_of(f) == key
}

proof fn filter_all(s: Seq<FileInfo>, p: spec_fn(FileInfo) -> bool)
    requires
        forall|i: int| 0 <= i < s.len() ==> p(#[trigger] s[i]),
    ensures
        s.filter(p) == s,
    decreases s.len(),
{
    reveal(Seq::filter);
    if s.len() > 0 {
        filter_all(s.drop_last(), p);
        assert(p(s[s.len() - 1]));
        assert(s.drop_last().push(s.last()) =~= s);
    } else {
        assert(s.filter(p) =~= s);
    }
}

proof fn filter_none(s: Seq<FileInfo>, p: spec_fn(FileInfo) -> bool)
    requires
        forall|i: int| 0 <= i < s.len() ==> !p(#[trigger] s[i]),
    ensures
        s.filter(p) == Seq::<FileInfo>::empty(),
    decreases s.len(),
{
    reveal(Seq::filter);
    if s.len() > 0 {
        filter_none(s.drop_last(), p);
        assert(!p(s[s.len() - 1]));
    } else {
        assert(s.filter(p) =~= Seq::<FileInfo>::empty());
    }
}

/// Each of the sequences holds entries of the group with its key.
spec fn keyed(parts: Seq<Seq<FileInfo>>, keys: Seq<(bool, Location)>) -> bool {
    &&& parts.len() == keys.len()
    &&& forall|g: int, i: int|
        0 <= g < parts.len() && 0 <= i < parts[g].len() ==> groups::group_of(
            #[trigger] parts[g][i],
        ) == keys[g]
    &&& forall|g: int, h: int| 0 <= g < h < keys.len() ==> #[trigger] keys[g] != #[trigger] keys[h]
}

proof fn flattened_group(parts: Seq<Seq<FileInfo>>, keys: Seq<(bool, Location)>, g: int)
    requires
        keyed(parts, keys),
        0 <= g < parts.len(),
    ensures
        parts.flatten().filter(of_group(keys[g])) == parts[g],
    decreases parts.len(),
{
    let p = of_group(keys[g]);
    let first = parts.first();
    let rest = parts.drop_first();
    Seq::filter_distributes_over_add(first, rest.flatten(), p);
    assert(parts.flatten() == first + rest.flatten());
    assert(keyed(rest, keys.drop_first())) by {
        assert forall|h: int, i: int|
            0 <= h < rest.len() && 0 <= i < rest[h].len() implies groups::group_of(
            #[trigger] rest[h][i],
        ) == keys.drop_first()[h] by {
            assert(groups::group_of(parts[h + 1][i]) == keys[h + 1]);
        }
        assert forall|x: int, y: int|
            0 <= x < y < keys.drop_first().len() implies #[trigger] keys.drop_first()[x]
            != #[trigger] keys.drop_first()[y] by {
            assert(keys[x + 1] != keys[y + 1]);
        }
    }
    if g == 0 {
        assert forall|i: int| 0 <= i < first.len() implies p(#[trigger] first[i]) by {
            assert(groups::group_of(parts[0][i]) == keys[0]);
        }
        filter_all(first, p);
        flattened_without(rest, keys.drop_first(), keys[0]);
        assert(first + Seq::<FileInfo>::empty() =~= first);
    } else {
        assert forall|i: int| 0 <= i < first.len() implies !p(#[trigger] first[i]) by {
            assert(groups::group_of(parts[0][i]) == keys[0]);
            assert(keys[0] != keys[g]);
        }
        filter_none(first, p);
        assert(keys.drop_first()[g - 1] == keys[g]);
        flattened_group(rest, keys.drop_first(), g - 1);
        assert(Seq::<FileInfo>::empty() + parts[g] =~= parts[g]);
    }
}

proof fn flattened_without(
    parts: Seq<Seq<FileInfo>>,
    keys: Seq<(bool, Location)>,
    key: (bool, Location),
)
    requires
        keyed(parts, keys),
        !keys.contains(key),
    ensures
        parts.flatten().filter(of_group(key)) == Seq::<FileInfo>::empty(),
    decreases parts.len(),
{
    let p = of_group(key);
    if parts.len() == 0 {
        reveal(Seq::filter);
        assert(parts.flatten() =~= Seq::<FileInfo>::empty());
        assert(parts.flatten().filter(p) =~= Seq::<FileInfo>::empty());
    } else {
        let first = parts.first();
        let rest = parts.drop_first();
        let fewer = keys.drop_first();
        Seq::filter_distributes_over_add(first, rest.flatten(), p);
        assert(parts.flatten() == first + rest.flatten());
        assert(keyed(rest, fewer)) by {
            assert forall|h: int, i: int|
                0 <= h < rest.len() && 0 <= i < rest[h].len() implies groups::group_of(
                #[trigger] rest[h][i],
            ) == fewer[h] by {
                assert(groups::group_of(parts[h + 1][i]) == keys[h + 1]);
            }
            assert forall|x: int, y: int| 0 <= x < y < fewer.len() implies #[trigger] fewer[x]
                != #[trigger] fewer[y] by {
                assert(keys[x + 1] != keys[y + 1]);
            }
        }
        assert(!fewer.contains(key)) by {
            if fewer.contains(key) {
                let i = choose|i: int| 0 <= i < fewer.len() && fewer[i] == key;
                assert(keys[i + 1] == key);
            }
        }
        assert forall|i: int| 0 <= i < first.len() implies !p(#[trigger] first[i]) by {
            assert(groups::group_of(parts[0][i]) == keys[0]);
            assert(keys.contains(keys[0]));
        }
        filter_none(first, p);
        flattened_without(rest, fewer, key);
        assert(Seq::<FileInfo>::empty() + Seq::<FileInfo>::empty() =~= Seq::<FileInfo>::empty());
    }
}

/// The groups of a list in the order of a shuffle.
spec fn mixed_groups(v: ListView, state: u64) -> Seq<Seq<FileInfo>> {
    let parts = file_list::grouped(v.files);
    ordering::reordered(parts, natural_sort::shuffled_order(parts.len() as int, state))
}

/// What the groups of a shuffled list share, in order.
spec fn mixed_keys(v: ListView, state: u64) -> Seq<(bool, Location)> {
    let all = groups::leaders(v.files, v.files.len() as int);
    let o = natural_sort::shuffled_order(all.len() as int, state);
    Seq::new(all.len(), |g: int| groups::group_of(v.files[all[o[g] as int]]))
}

proof fn mixed_are_keyed(v: ListView, state: u64)
    requires
        0 < v.files.len() <= usize::MAX,
    ensures
        keyed(mixed_groups(v, state), mixed_keys(v, state)),
{
    let files = v.files;
    let all = groups::leaders(files, files.len() as int);
    let m = all.len() as int;
    groups::leaders_ascend(files, files.len() as int);
    groups::leader_is_first(files, 0);
    let o = natural_sort::shuffled_order(m, state);
    natural_sort::shuffle_arranges(m, state);
    let mixed = mixed_groups(v, state);
    let keys = mixed_keys(v, state);
    assert forall|g: int, k: int|
        0 <= g < mixed.len() && 0 <= k < mixed[g].len() implies groups::group_of(
        #[trigger] mixed[g][k],
    ) == keys[g] by {
        let l = all[o[g] as int];
        assert(mixed[g] == file_list::members(files, l));
        files.lemma_filter_pred(
            |f: FileInfo| groups::group_of(f) == groups::group_of(files[l]),
            k,
        );
    }
    assert forall|g: int, h: int| 0 <= g < h < keys.len() implies #[trigger] keys[g]
        != #[trigger] keys[h] by {
        let (a, b) = (all[o[g] as int], all[o[h] as int]);
        assert(o[g] != o[h]);
        assert(a != b) by {
            if o[g] < o[h] {
                assert(all[o[g] as int] < all[o[h] as int]);
            } else {
                assert(all[o[h] as int] < all[o[g] as int]);
            }
        }
        groups::same_group_same_leader(files, a, b);
    }
}

/// Shuffling groups keeps the entries of each group, in their order.
pub proof fn group_shuffle_keeps_order(v: ListView, state: u64, i: int)
    requires
        0 <= i < v.files.len() <= usize::MAX,
    ensures
        ({
            let p = |f: FileInfo| groups::group_of(f) == groups::group_of(v.files[i]);
            file_list::group_shuffled_list(v, state).files.filter(p) == v.files.filter(p)
        }),
{
    let files = v.files;
    let n = files.len() as int;
    let all = groups::leaders(files, n);
    let m = all.len() as int;
    groups::leaders_ascend(files, n);
    groups::leader_is_first(files, i);
    let o = natural_sort::shuffled_order(m, state);
    natural_sort::shuffle_arranges(m, state);
    let mixed = mixed_groups(v, state);
    let keys = mixed_keys(v, state);
    mixed_are_keyed(v, state);
    let l = groups::leader(files, i);
    assert(all.contains(l));
    let place = choose|k: int| 0 <= k < all.len() && all[k] == l;
    ordering::arranged_contains(o, m, place as usize);
    let g = choose|g: int| 0 <= g < o.len() && o[g] == place as usize;
    flattened_group(mixed, keys, g);
    assert(mixed[g] == file_list::members(files, l));
    let p = |f: FileInfo| groups::group_of(f) == groups::group_of(files[i]);
    assert(of_group(keys[g]) =~= p);
    assert((|f: FileInfo| groups::group_of(f) == groups::group_of(files[l])) =~= p);
}

/// The part that holds place `i` of the parts one after the other.
spec fn part_of(parts: Seq<Seq<FileInfo>>, i: int) -> int
    decreases parts.len(),
{
    if parts.len() == 0 || i < parts.first().len() {
        0
    } else {
        1 + part_of(parts.drop_first(), i - parts.first().len())
    }
}

proof fn part_holds(parts: Seq<Seq<FileInfo>>, keys: Seq<(bool, Location)>, i: int)
    requires
        keyed(parts, keys),
        0 <= i < parts.flatten().len(),
    ensures
        0 <= part_of(parts, i) < parts.len(),
        groups::group_of(parts.flatten()[i]) == keys[part_of(parts, i)],
    decreases parts.len(),
{
    if parts.len() == 0 {
        assert(parts.flatten() =~= Seq::<FileInfo>::empty());
    } else {
        let first = parts.first();
        let rest = parts.drop_first();
        assert(parts.flatten() == first + rest.flatten());
        if i < first.len() {
            assert(groups::group_of(parts[0][i]) == keys[0]);
        } else {
            let fewer = keys.drop_first();
            assert(keyed(rest, fewer)) by {
                assert forall|h: int, k: int|
                    0 <= h < rest.len() && 0 <= k < rest[h].len() implies groups::group_of(
                    #[trigger] rest[h][k],
                ) == fewer[h] by {
                    assert(groups::group_of(parts[h + 1][k]) == keys[h + 1]);
                }
                assert forall|x: int, y: int| 0 <= x < y < fewer.len() implies #[trigger] fewer[x]
                    != #[trigger] fewer[y] by {
                    assert(keys[x + 1] != keys[y + 1]);
                }
            }
            part_holds(rest, fewer, i - first.len());
            assert(parts.flatten()[i] == rest.flatten()[i - first.len()]);
        }
    }
}

proof fn parts_ascend(parts: Seq<Seq<FileInfo>>, i: int, j: int)
    requires
        0 <= i <= j,
    ensures
        part_of(parts, i) <= part_of(parts, j),
        0 <= part_of(parts, i),
    decreases parts.len(),
{
    if parts.len() > 0 && i >= parts.first().len() {
        parts_ascend(parts.drop_first(), i - parts.first().len(), j - parts.first().len());
    } else if parts.len() > 0 && j >= parts.first().len() {
        parts_ascend(parts.drop_first(), 0, j - parts.first().len());
    }
}

/// Where the last part is not empty, it holds the last place.
proof fn last_part(parts: Seq<Seq<FileInfo>>)
    requires
        parts.len() > 0,
        parts.last().len() > 0,
    ensures
        parts.flatten().len() > 0,
        part_of(parts, parts.flatten().len() - 1) == parts.len() - 1,
    decreases parts.len(),
{
    let rest = parts.drop_first();
    assert(parts.flatten() == parts.first() + rest.flatten());
    if parts.len() > 1 {
        assert(rest.last() == parts.last());
        last_part(rest);
    } else {
        assert(rest.flatten() =~= Seq::<FileInfo>::empty());
    }
}

/// After a shuffle of groups, the entries of each folder and container stand together.
pub proof fn group_shuffle_keeps_together(v: ListView, state: u64, i: int, j: int, k: int)
    requires
        v.files.len() <= usize::MAX,
        0 <= i <= j <= k < file_list::group_shuffled_list(v, state).files.len(),
        groups::group_of(file_list::group_shuffled_list(v, state).files[i]) == groups::group_of(
            file_list::group_shuffled_list(v, state).files[k],
        ),
    ensures
        groups::group_of(file_list::group_shuffled_list(v, state).files[j]) == groups::group_of(
            file_list::group_shuffled_list(v, state).files[i],
        ),
{
    if v.files.len() > 0 {
        let (mixed, keys) = (mixed_groups(v, state), mixed_keys(v, state));
        mixed_are_keyed(v, state);
        part_holds(mixed, keys, i);
        part_holds(mixed, keys, j);
        part_holds(mixed, keys, k);
        parts_ascend(mixed, i, j);
        parts_ascend(mixed, j, k);
        let (a, b) = (part_of(mixed, i), part_of(mixed, k));
        if a < b {
            assert(keys[a] != keys[b]);
        }
    }
}

/// The group that stands last after a shuffle of groups is the one whose number was drawn
/// first, the groups being numbered as their first entries stood in the list.
pub proof fn group_shuffle_puts_first_drawn_last(v: ListView, state: u64)
    requires
        v.files.len() <= usize::MAX,
        groups::leaders(v.files, v.files.len() as int).len() >= 2,
    ensures
        ({
            let all = groups::leaders(v.files, v.files.len() as int);
            let after = file_list::group_shuffled_list(v, state).files;
            after.len() > 0 && groups::group_of(after.last()) == groups::group_of(
                v.files[all[natural_sort::number_drawn(state, all.len() as int)]],
            )
        }),
{
    let n = v.files.len() as int;
    let all = groups::leaders(v.files, n);
    let m = all.len() as int;
    groups::leaders_ascend(v.files, n);
    let o = natural_sort::shuffled_order(m, state);
    natural_sort::shuffle_arranges(m, state);
    natural_sort::last_is_drawn_first(m, state);
    let (mixed, keys) = (mixed_groups(v, state), mixed_keys(v, state));
    mixed_are_keyed(v, state);
    let l = all[o[m - 1] as int];
    assert(mixed.last() == file_list::members(v.files, l));
    v.files.lemma_filter_contains(
        |f: FileInfo| groups::group_of(f) == groups::group_of(v.files[l]),
        l,
    );
    assert(mixed.last().contains(v.files[l]));
    last_part(mixed);
    part_holds(mixed, keys, mixed.flatten().len() - 1);
}

/// Taking an entry out of a list leaves the others in their order. A position on another
/// entry stays on it; one on the entry comes to lie on the next, or on the last.
pub proof fn removal_leaves_the_others(v: ListView, index: int, k: int)
    requires
        v.valid(),
        0 <= index < v.files.len(),
        0 <= k < v.files.len(),
        k != index,
    ensures
        file_list::without(v, index).files.len() == v.files.len() - 1,
        file_list::without(v, index).files[if k < index {
            k
        } else {
            k - 1
        }] == v.files[k],
        v.current == Some(k) ==> (file_list::without(v, index).current matches Some(j)
            && file_list::without(v, index).files[j] == v.files[k]),
        v.current == Some(index) && index + 1 < v.files.len() ==> (file_list::without(
            v,
            index,
        ).current matches Some(j) && file_list::without(v, index).files[j] == v.files[index + 1]),
        v.current == Some(index) && index + 1 == v.files.len() ==> (file_list::without(
            v,
            index,
        ).current matches Some(j) && file_list::without(v, index).files[j] == v.files[index - 1]),
{
}

/// Removing the marked entries leaves exactly the others, each as often as it was there.
pub proof fn unmarked_entries_stay(v: ListView, e: FileInfo)
    ensures
        e.marked ==> !file_list::unmarked_only(v).files.contains(e),
        !e.marked ==> file_list::unmarked_only(v).files.to_multiset().count(e)
            == v.files.to_multiset().count(e),
{
    let p = |f: FileInfo| !f.marked;
    if e.marked {
        assert(!p(e));
        if v.files.filter(p).contains(e) {
            v.files.lemma_filter_contains_rev(p, e);
            let i = choose|i: int| 0 <= i < v.files.filter(p).len() && v.files.filter(p)[i] == e;
            v.files.lemma_filter_pred(p, i);
        }
    } else {
        filter_keeps_count(v.files, p, e);
    }
}

proof fn filter_keeps_count(s: Seq<FileInfo>, p: spec_fn(FileInfo) -> bool, e: FileInfo)
    requires
        p(e),
    ensures
        s.filter(p).to_multiset().count(e) == s.to_multiset().count(e),
    decreases s.len(),
{
    broadcast use vstd::seq_lib::group_to_multiset_ensures;

    reveal(Seq::filter);
    if s.len() > 0 {
        filter_keeps_count(s.drop_last(), p, e);
        assert(s =~= s.drop_last().push(s.last()));
    } else {
        assert(s.filter(p) =~= s);
    }
}

/// Shuffling groups keeps every entry, each once.
pub proof fn group_shuffle_keeps_entries(v: ListView, state: u64)
    requires
        v.files.len() <= usize::MAX,
    ensures
        ordering::rearranged(v.files, file_list::group_shuffled_list(v, state).files),
{
    let files = v.files;
    let after = file_list::group_shuffled_list(v, state).files;
    if files.len() > 0 {
        mixed_are_keyed(v, state);
        assert forall|e: FileInfo| files.to_multiset().count(e) == after.to_multiset().count(e) by {
            group_keeps_count(v, state, e);
        }
        assert(files.to_multiset() =~= after.to_multiset());
    }
    ordering::same_items_are_rearranged(files, after);
}

proof fn group_keeps_count(v: ListView, state: u64, e: FileInfo)
    requires
        0 < v.files.len() <= usize::MAX,
    ensures
        v.files.to_multiset().count(e) == file_list::group_shuffled_list(
            v,
            state,
        ).files.to_multiset().count(e),
{
    broadcast use vstd::seq_lib::group_to_multiset_ensures;

    let files = v.files;
    let after = file_list::group_shuffled_list(v, state).files;
    let key = groups::group_of(e);
    let p = of_group(key);
    filter_keeps_count(files, p, e);
    filter_keeps_count(after, p, e);
    if exists|i: int| 0 <= i < files.len() && groups::group_of(#[trigger] files[i]) == key {
        let i = choose|i: int|
            0 <= i < files.len() && groups::group_of(#[trigger] files[i]) == key;
        group_shuffle_keeps_order(v, state, i);
        assert((|f: FileInfo| groups::group_of(f) == groups::group_of(files[i])) =~= p);
    } else {
        let keys = mixed_keys(v, state);
        mixed_are_keyed(v, state);
        let all = groups::leaders(files, files.len() as int);
        groups::leaders_ascend(files, files.len() as int);
        natural_sort::shuffle_arranges(all.len() as int, state);
        assert(!keys.contains(key)) by {
            if keys.contains(key) {
                let g = choose|g: int| 0 <= g < keys.len() && keys[g] == key;
                let o = natural_sort::shuffled_order(all.len() as int, state);
                assert(groups::group_of(files[all[o[g] as int]]) == key);
            }
        }
        flattened_without(mixed_groups(v, state), keys, key);
        assert(!files.contains(e));
        assert(files.filter(p) =~= Seq::<FileInfo>::empty()) by {
            filter_none(files, p);
        }
    }
}

/// Shuffling groups stays on the current entry.
pub proof fn group_shuffle_stays_on_entry(v: ListView, state: u64)
    requires
        v.valid(),
        v.files.len() <= usize::MAX,
        v.current is Some,
    ensures
        ({
            let after = file_list::group_shuffled_list(v, state);
            after.current matches Some(j) && 0 <= j < after.files.len() && same_entry(
                after.files[j],
                v.files[v.current->0],
            )
        }),
{
    let c = v.current->0;
    let p = |f: FileInfo| groups::group_of(f) == groups::group_of(v.files[c]);
    let files = file_list::group_shuffled_list(v, state).files;
    group_shuffle_keeps_order(v, state, c);
    v.files.lemma_filter_contains(p, c);
    files.lemma_filter_contains_rev(p, v.files[c]);
    let k = choose|k: int| 0 <= k < files.len() && files[k] == v.files[c];
    entry_is_found(files, v.files[c], k);
}

/// Turning over all marks twice changes nothing.
pub proof fn marks_inverted_twice(files: Seq<FileInfo>, end: int)
    requires
        0 <= end <= files.len(),
    ensures
        file_list::marks_inverted(file_list::marks_inverted(files, end), end) == files,
{
    assert(file_list::marks_inverted(file_list::marks_inverted(files, end), end) =~= files);
}

/// Without entries that failed, a move and the same move back lead to the same
/// place.
pub proof fn move_is_undone(v: ListView, offset: int)
    requires
        v.valid(),
        v.current is Some,
        forall|i: int| 0 <= i < v.files.len() ==> !(#[trigger] v.files[i]).load_failed,
    ensures
        file_list::moved_by(file_list::moved_by(v, offset).0, -offset).0 == v,
{
    let n = v.files.len() as int;
    let c = v.current->0;
    let there = navigation::around(c, offset, n);
    navigation::around_undone(c, offset, n);
    assert(0 <= there < n);
    no_step_needed(v.files, there, 1);
    no_step_needed(v.files, there, -1);
    no_step_needed(v.files, c, 1);
    no_step_needed(v.files, c, -1);
    let moved = file_list::moved_by(v, offset).0;
    assert(moved.current == Some(there));
    assert(moved.files == v.files && moved.order == v.order);
}

proof fn no_step_needed(files: Seq<FileInfo>, start: int, step: int)
    requires
        0 <= start < files.len(),
        !files[start].load_failed,
    ensures
        file_list::loadable_from(files, start, step, 0) == Some(start),
{
    vstd::arithmetic::div_mod::lemma_small_mod(start as nat, files.len());
    assert(step * 0 == 0) by (nonlinear_arith);
}

/// The nearest mark lies `m` steps away where that place is marked and none before
/// it is.
proof fn mark_is_found(v: ListView, step: int, k: int, m: int)
    requires
        v.files.len() > 0,
        1 <= k <= m < v.files.len(),
        v.files[navigation::around(v.place(), step * m, v.files.len() as int)].marked,
        forall|j: int|
            k <= j < m ==> !v.files[#[trigger] navigation::around(
                v.place(),
                step * j,
                v.files.len() as int,
            )].marked,
    ensures
        file_list::marked_from(v, step, k) == Some(
            navigation::around(v.place(), step * m, v.files.len() as int),
        ),
    decreases m - k,
{
    if k < m {
        assert(!v.files[navigation::around(v.place(), step * k, v.files.len() as int)].marked);
        mark_is_found(v, step, k + 1, m);
    }
}

/// How far the nearest mark is.
pub proof fn mark_distance(v: ListView, step: int, k: int) -> (m: int)
    requires
        v.files.len() > 0,
        1 <= k,
        file_list::marked_from(v, step, k) is Some,
    ensures
        k <= m < v.files.len(),
        file_list::marked_from(v, step, k) == Some(
            navigation::around(v.place(), step * m, v.files.len() as int),
        ),
        v.files[navigation::around(v.place(), step * m, v.files.len() as int)].marked,
        forall|j: int|
            k <= j < m ==> !v.files[#[trigger] navigation::around(
                v.place(),
                step * j,
                v.files.len() as int,
            )].marked,
    decreases v.files.len() - k,
{
    if v.files[navigation::around(v.place(), step * k, v.files.len() as int)].marked {
        k
    } else {
        mark_distance(v, step, k + 1)
    }
}

/// From a marked entry, moving to the nearest mark in one direction and to the
/// nearest in the other leads back.
pub proof fn mark_move_is_undone(v: ListView, step: int)
    requires
        v.valid(),
        v.current matches Some(i) && v.files[i].marked,
        step == 1 || step == -1,
        file_list::moved_to_mark(v, step).1,
    ensures
        file_list::moved_to_mark(file_list::moved_to_mark(v, step).0, -step) == (v, true),
{
    let n = v.files.len() as int;
    let c = v.current->0;
    let m = mark_distance(v, step, 1);
    let there = v.at(navigation::around(c, step * m, n));
    assert forall|j: int| 1 <= j <= m implies #[trigger] navigation::around(
        there.place(),
        -step * j,
        n,
    ) == navigation::around(c, step * (m - j), n) by {
        vstd::arithmetic::div_mod::lemma_add_mod_noop(c + step * m, -step * j, n);
        vstd::arithmetic::div_mod::lemma_add_mod_noop_right(-step * j, c + step * m, n);
        assert(c + step * m + -step * j == c + step * (m - j)) by (nonlinear_arith);
    }
    assert(step * 0 == 0) by (nonlinear_arith);
    vstd::arithmetic::div_mod::lemma_small_mod(c as nat, n as nat);
    assert forall|j: int| 1 <= j < m implies !there.files[#[trigger] navigation::around(
        there.place(),
        -step * j,
        n,
    )].marked by {
        assert(!v.files[navigation::around(c, step * (m - j), n)].marked);
    }
    mark_is_found(there, -step, 1, m);
}

/// A relative move never lands on an entry that failed.
pub proof fn move_passes_failures(v: ListView, offset: int)
    requires
        v.valid(),
    ensures
        ({
            let (after, moved) = file_list::moved_by(v, offset);
            moved ==> (after.current matches Some(i) && 0 <= i < v.files.len()
                && !v.files[i].load_failed)
        }),
{
    if v.files.len() > 0 {
        let n = v.files.len() as int;
        let start = navigation::around(v.place(), offset, n);
        found_is_loadable(
            v.files,
            start,
            if offset >= 0 {
                1
            } else {
                -1
            },
            0,
        );
    }
}

proof fn found_is_loadable(files: Seq<FileInfo>, start: int, step: int, k: int)
    requires
        files.len() > 0,
    ensures
        file_list::loadable_from(files, start, step, k) matches Some(i) ==> 0 <= i < files.len()
            && !files[i].load_failed,
    decreases files.len() - k,
{
    if k < files.len() {
        found_is_loadable(files, start, step, k + 1);
        let t = start + step * k;
        assert(0 <= t % (files.len() as int) < files.len()) by (nonlinear_arith)
            requires
                files.len() > 0,
        ;
    }
}

/// A move to a group lands on the group's first entry.
pub proof fn group_move_lands_first(v: ListView, step: int)
    requires
        v.valid(),
    ensures
        ({
            let (after, moved) = file_list::moved_by_group(v, step);
            moved ==> (after.current matches Some(i) && 0 <= i < v.files.len() && groups::leader(
                v.files,
                i,
            ) == i)
        }),
{
    let n = v.files.len() as int;
    let all = groups::leaders(v.files, n);
    groups::leaders_ascend(v.files, n);
    if all.len() > 1 {
        let group = all.index_of(groups::leader(v.files, v.place()));
        let t = group + step;
        assert(0 <= t % (all.len() as int) < all.len()) by (nonlinear_arith)
            requires
                all.len() > 1,
        ;
    }
}

/// Removing marked entries leaves none that is marked, and none is lost.
pub proof fn marked_are_parted(v: ListView)
    ensures
        file_list::unmarked_only(v).files.len() + file_list::marked_number(v) == v.files.len(),
        forall|i: int|
            0 <= i < file_list::unmarked_only(v).files.len()
                ==> !(#[trigger] file_list::unmarked_only(v).files[i]).marked,
{
    parted(v.files);
    let p = |f: FileInfo| !f.marked;
    assert forall|i: int| 0 <= i < file_list::unmarked_only(v).files.len() implies !(
    #[trigger] file_list::unmarked_only(v).files[i]).marked by {
        v.files.lemma_filter_pred(p, i);
    }
}

proof fn parted(files: Seq<FileInfo>)
    ensures
        files.filter(|f: FileInfo| !f.marked).len() + files.filter(|f: FileInfo| f.marked).len()
            == files.len(),
    decreases files.len(),
{
    reveal(Seq::filter);
    if files.len() > 0 {
        parted(files.drop_last());
    }
}

/// Taking out another entry stays on the current one.
pub proof fn removal_stays_on_entry(v: ListView, index: int)
    requires
        v.valid(),
        v.current is Some,
        0 <= index < v.files.len(),
        index != v.current->0,
    ensures
        file_list::without(v, index).current matches Some(j) && 0 <= j < v.files.len() - 1
            && file_list::without(v, index).files[j] == v.files[v.current->0],
{
}

/// Expanding another entry stays on the current one.
pub proof fn expansion_stays_on_entry(
    before: ListView,
    index: int,
    entries: Seq<FileInfo>,
    direction: NavigationDirection,
    after: ListView,
)
    requires
        before.valid(),
        before.current is Some,
        0 <= index < before.files.len(),
        index != before.current->0,
        file_list::expanded_at(before, index, entries, direction, after),
    ensures
        after.current matches Some(j) && 0 <= j < after.files.len() && after.files[j]
            == before.files[before.current->0],
{
}

/// Expanding the current entry lands in the container: on its first entry when
/// coming forward, on its last when coming backward.
pub proof fn expansion_lands_inside(
    before: ListView,
    index: int,
    entries: Seq<FileInfo>,
    direction: NavigationDirection,
    after: ListView,
)
    requires
        before.valid(),
        before.current == Some(index),
        0 <= index < before.files.len(),
        entries.len() > 0,
        file_list::expanded_at(before, index, entries, direction, after),
    ensures
        after.current == Some(
            match direction {
                NavigationDirection::Forward => index,
                NavigationDirection::Backward => index + entries.len() - 1,
            },
        ),
        after.files.len() == before.files.len() + entries.len() - 1,
        forall|k: int| 0 <= k < index ==> #[trigger] after.files[k] == before.files[k],
        forall|k: int|
            index < k < before.files.len() ==> after.files[k + entries.len() - 1]
                == #[trigger] before.files[k],
{
}

} // verus!
