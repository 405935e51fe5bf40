//! What holds of sorted and shuffled lists.

use vstd::prelude::*;

use super::sort::ByOrder;
use super::{natural_sort, navigation, sort};
use super::{ListView, SortOrder};
use crate::file_info::FileInfo;
use crate::file_list;
use crate::ordering;
use crate::ordering::Precedence;
use crate::text;

verus! {

/// A text comes before another: they agree up to a place where the first has the lower
/// character, or where it ends and the other goes on.
pub open spec fn comes_before(a: Seq<char>, b: Seq<char>) -> bool {
    exists|k: int| #[trigger] differ_first(a, b, k)
}

/// The texts agree before place `k`, and there the first is behind or has ended.
pub open spec fn differ_first(a: Seq<char>, b: Seq<char>, k: int) -> bool {
    &&& 0 <= k <= a.len()
    &&& k < b.len()
    &&& forall|i: int| 0 <= i < k ==> #[trigger] a[i] == b[i]
    &&& k < a.len() ==> a[k] < b[k]
}

/// Texts are ordered by their first difference.
pub proof fn first_difference_decides(a: Seq<char>, b: Seq<char>)
    ensures
        text::lex_less(a, b) <==> comes_before(a, b),
    decreases a.len(),
{
    if b.len() > 0 && a.len() > 0 {
        let (x, y) = (a.drop_first(), b.drop_first());
        first_difference_decides(x, y);
        if text::lex_less(a, b) {
            if a[0] != b[0] {
                assert(differ_first(a, b, 0));
            } else {
                let k = choose|k: int| #[trigger] differ_first(x, y, k);
                assert forall|i: int| 0 <= i < k + 1 implies #[trigger] a[i] == b[i] by {
                    if i > 0 {
                        assert(x[i - 1] == y[i - 1]);
                    }
                }
                assert(differ_first(a, b, k + 1));
            }
        }
        if comes_before(a, b) {
            let k = choose|k: int| #[trigger] differ_first(a, b, k);
            if k > 0 {
                assert(a[0] == b[0]);
                assert forall|i: int| 0 <= i < k - 1 implies #[trigger] x[i] == y[i] by {
                    assert(a[i + 1] == b[i + 1]);
                }
                assert(differ_first(x, y, k - 1));
            }
        }
    } else if b.len() > 0 {
        assert(differ_first(a, b, 0));
    }
}

/// Without regard to case, entries compare by their shown paths in lower case and by
/// nothing else: two whose lower-case forms are the same are equal, and others compare
/// as any entries with the same lower-case forms do.
pub proof fn case_does_not_count(a: FileInfo, b: FileInfo, a2: FileInfo, b2: FileInfo)
    requires
        text::lowercase_of(a.source.shown()) == text::lowercase_of(a2.source.shown()),
        text::lowercase_of(b.source.shown()) == text::lowercase_of(b2.source.shown()),
    ensures
        SortOrder::NameNoCase.order_of(a, a2) is Equal,
        SortOrder::NameNoCase.order_of(a, b) == SortOrder::NameNoCase.order_of(a2, b2),
        SortOrder::NameNoCase.order_of(a, b) is Less <==> comes_before(
            text::lowercase_of(a.source.shown()),
            text::lowercase_of(b.source.shown()),
        ),
        SortOrder::NameNoCase.order_of(a, b) is Greater <==> comes_before(
            text::lowercase_of(b.source.shown()),
            text::lowercase_of(a.source.shown()),
        ),
{
    let (x, y) = (text::lowercase_of(a.source.shown()), text::lowercase_of(b.source.shown()));
    first_difference_decides(x, y);
    first_difference_decides(y, x);
    if text::lex_less(x, x) {
        text::lex_less_asymmetric(x, x);
    }
    if text::lex_less(x, y) {
        text::lex_less_asymmetric(x, y);
    }
}

proof fn letters_are_lowered(p: char, q: char)
    requires
        p == q || ('A' <= p && p <= 'Z' && q as u32 == p as u32 + 32) || ('A' <= q && q <= 'Z' && p
            as u32 == q as u32 + 32),
    ensures
        ({
            let x = if 'A' <= p && p <= 'Z' {
                (p as u32 + 32) as char
            } else {
                p
            };
            let y = if 'A' <= q && q <= 'Z' {
                (q as u32 + 32) as char
            } else {
                q
            };
            x == y && !('A' <= x && x <= 'Z')
        }),
{
}

/// In lower case, ASCII texts that differ only in the case of letters are the same, and
/// none holds a capital.
pub proof fn lower_case_forgets_case(a: Seq<char>, b: Seq<char>)
    requires
        text::is_ascii_text(a),
        text::is_ascii_text(b),
        a.len() == b.len(),
        forall|i: int|
            0 <= i < a.len() ==> #[trigger] a[i] == b[i] || ('A' <= a[i] && a[i] <= 'Z' && b[i] as u32
                == a[i] as u32 + 32) || ('A' <= b[i] && b[i] <= 'Z' && a[i] as u32 == b[i] as u32 + 32),
    ensures
        text::lowercase_of(a) == text::lowercase_of(b),
        text::lowercase_of(a).len() == a.len(),
        forall|i: int|
            0 <= i < a.len() ==> !('A' <= #[trigger] text::lowercase_of(a)[i]
                && text::lowercase_of(a)[i] <= 'Z') && (!('A' <= a[i] && a[i] <= 'Z')
                ==> text::lowercase_of(a)[i] == a[i]),
{
    let (x, y) = (text::lowercase_of(a), text::lowercase_of(b));
    assert forall|i: int| 0 <= i < a.len() implies #[trigger] x[i] == y[i] && !('A' <= x[i] && x[i]
        <= 'Z') by {
        let (p, q) = (a[i], b[i]);
        assert(p as u32 <= 0x7f && q as u32 <= 0x7f);
        assert(x[i] == (if 'A' <= p && p <= 'Z' {
            (p as u32 + 32) as char
        } else {
            p
        }));
        assert(y[i] == (if 'A' <= q && q <= 'Z' {
            (q as u32 + 32) as char
        } else {
            q
        }));
        letters_are_lowered(p, q);
    }
    assert(x =~= y);
}

/// A list sorted by name shows its paths in ascending order.
pub proof fn sorted_by_name(before: ListView, after: ListView, i: int, j: int)
    requires
        file_list::resorted(before, SortOrder::Name, after),
        0 <= i < j < after.files.len(),
    ensures
        !comes_before(after.files[j].source.shown(), after.files[i].source.shown()),
{
    file_list::laws::sorted_is_in_order(before, SortOrder::Name, after, i, j);
    first_difference_decides(after.files[j].source.shown(), after.files[i].source.shown());
}

/// A list sorted by name without regard to case shows its paths in ascending order of
/// their lower-case forms.
pub proof fn sorted_without_case(before: ListView, after: ListView, i: int, j: int)
    requires
        file_list::resorted(before, SortOrder::NameNoCase, after),
        0 <= i < j < after.files.len(),
    ensures
        !comes_before(
            text::lowercase_of(after.files[j].source.shown()),
            text::lowercase_of(after.files[i].source.shown()),
        ),
{
    file_list::laws::sorted_is_in_order(before, SortOrder::NameNoCase, after, i, j);
    first_difference_decides(
        text::lowercase_of(after.files[j].source.shown()),
        text::lowercase_of(after.files[i].source.shown()),
    );
}

/// A list sorted by size begins with the smallest; files of one size stand by name.
pub proof fn sorted_by_size(before: ListView, after: ListView, i: int, j: int)
    requires
        file_list::resorted(before, SortOrder::Size, after),
        0 <= i < j < after.files.len(),
    ensures
        after.files[i].file_size <= after.files[j].file_size,
        after.files[i].file_size == after.files[j].file_size ==> !comes_before(
            after.files[j].source.shown(),
            after.files[i].source.shown(),
        ),
{
    file_list::laws::sorted_is_in_order(before, SortOrder::Size, after, i, j);
    first_difference_decides(after.files[j].source.shown(), after.files[i].source.shown());
}

/// A list sorted by date begins with the oldest; files of one time stand by name.
pub proof fn sorted_by_date(before: ListView, after: ListView, i: int, j: int)
    requires
        file_list::resorted(before, SortOrder::Date, after),
        0 <= i < j < after.files.len(),
    ensures
        after.files[i].modified <= after.files[j].modified,
        after.files[i].modified == after.files[j].modified ==> !comes_before(
            after.files[j].source.shown(),
            after.files[i].source.shown(),
        ),
{
    file_list::laws::sorted_is_in_order(before, SortOrder::Date, after, i, j);
    first_difference_decides(after.files[j].source.shown(), after.files[i].source.shown());
}

/// A list sorted naturally shows its paths in ascending order of their natural keys.
pub proof fn sorted_naturally(before: ListView, after: ListView, i: int, j: int)
    requires
        file_list::resorted(before, SortOrder::Natural, after),
        0 <= i < j < after.files.len(),
    ensures
        !comes_before(
            sort::natural_key(after.files[j].source.shown()),
            sort::natural_key(after.files[i].source.shown()),
        ),
{
    file_list::laws::sorted_is_in_order(before, SortOrder::Natural, after, i, j);
    first_difference_decides(
        sort::natural_key(after.files[j].source.shown()),
        sort::natural_key(after.files[i].source.shown()),
    );
}

/// In a list that stands in an order, moving along that order leads to the next entry or
/// the one before, around the list.
pub proof fn ordered_move_in_sorted_list(
    v: ListView,
    step: int,
    order: SortOrder,
    there: ListView,
    moved: bool,
)
    requires
        v.valid(),
        v.files.len() <= usize::MAX,
        v.current is Some,
        step == 1 || step == -1,
        forall|i: int, j: int|
            0 <= i < j < v.files.len() ==> !#[trigger] (ByOrder { order }).before(
                v.files[j],
                v.files[i],
            ),
        file_list::moved_by_order(v, step, order, there, moved),
    ensures
        there.files == v.files,
        there.current == Some(
            if v.current->0 + step < 0 {
                v.files.len() - 1
            } else if v.current->0 + step >= v.files.len() {
                0
            } else {
                v.current->0 + step
            },
        ),
{
    let p = ByOrder { order };
    let n = v.files.len() as int;
    let c = v.current->0;
    let (o, i) = choose|o: Seq<usize>, i: int|
        {
            &&& ordering::arranges(o, 0, n)
            &&& ordering::in_order(p, v.files, o)
            &&& 0 <= i < o.len()
            &&& o[i] == c
            &&& (there, moved) == v.moved(#[trigger] o[navigation::around(i, step, n)] as int)
        };
    let q = natural_sort::counting(n);
    natural_sort::counting_arranges(n);
    assert(ordering::in_order(p, v.files, q)) by {
        assert forall|a: int, b: int| 0 <= a < b < q.len() implies ordering::precedes(
            p,
            v.files,
            #[trigger] q[a] as int,
            #[trigger] q[b] as int,
        ) by {
            assert(!p.before(v.files[b], v.files[a]));
        }
    }
    ordering::order_is_unique(p, v.files, o, q);
    assert(i == c);
    if 0 <= c + step < n {
        vstd::arithmetic::div_mod::lemma_small_mod((c + step) as nat, n as nat);
    } else if step == 1 {
        assert(c + step == n);
        vstd::arithmetic::div_mod::lemma_mod_self_0(n);
    } else {
        vstd::arithmetic::div_mod::lemma_mod_add_multiples_vanish(-1, n);
        vstd::arithmetic::div_mod::lemma_small_mod((n - 1) as nat, n as nat);
    }
}

/// One entry of a list comes before another in an order: the order says so, or it does not
/// tell them apart and the one stands first in the list.
pub open spec fn goes_first(order: SortOrder, files: Seq<FileInfo>, i: int, j: int) -> bool {
    (ByOrder { order }).before(files[i], files[j]) || (!(ByOrder { order }).before(
        files[j],
        files[i],
    ) && i < j)
}

proof fn one_goes_first(order: SortOrder, files: Seq<FileInfo>, i: int, j: int)
    requires
        i != j,
    ensures
        goes_first(order, files, i, j) <==> !goes_first(order, files, j, i),
{
    let p = ByOrder { order };
    if p.before(files[i], files[j]) {
        p.one_way(files[i], files[j]);
    }
    if p.before(files[j], files[i]) {
        p.one_way(files[j], files[i]);
    }
}

/// Of the places `from` and `to`, the second is the next in an order: no other place comes
/// between them, or the first is the last of all and the second the first of all.
pub open spec fn is_next(
    order: SortOrder,
    files: Seq<FileInfo>,
    from: int,
    to: int,
    other: int,
) -> bool {
    if goes_first(order, files, from, to) {
        !(goes_first(order, files, from, other) && goes_first(order, files, other, to))
    } else {
        goes_first(order, files, other, from) && goes_first(order, files, to, other)
    }
}

/// Moving along an order leads to the entry that is next in it, or to the one before,
/// however the list itself stands, and from the last to the first and back.
pub proof fn ordered_move_leads_to_next(
    v: ListView,
    step: int,
    order: SortOrder,
    there: ListView,
    moved: bool,
    k: int,
)
    requires
        v.valid(),
        2 <= v.files.len() <= usize::MAX,
        v.current is Some,
        step == 1 || step == -1,
        file_list::moved_by_order(v, step, order, there, moved),
        0 <= k < v.files.len(),
        k != v.current->0,
        Some(k) != there.current,
    ensures
        there.files == v.files,
        there.current matches Some(j) && 0 <= j < v.files.len() && j != v.current->0 && (if step
            == 1 {
            is_next(order, v.files, v.current->0, j, k)
        } else {
            is_next(order, v.files, j, v.current->0, k)
        }),
{
    let p = ByOrder { order };
    let n = v.files.len() as int;
    let c = v.current->0;
    let (o, i) = choose|o: Seq<usize>, i: int|
        {
            &&& ordering::arranges(o, 0, n)
            &&& ordering::in_order(p, v.files, o)
            &&& 0 <= i < o.len()
            &&& o[i] == c
            &&& (there, moved) == v.moved(#[trigger] o[navigation::around(i, step, n)] as int)
        };
    let q = navigation::around(i, step, n);
    if 0 <= i + step < n {
        vstd::arithmetic::div_mod::lemma_small_mod((i + step) as nat, n as nat);
    } else if step == 1 {
        assert(i + step == n);
        vstd::arithmetic::div_mod::lemma_mod_self_0(n);
    } else {
        vstd::arithmetic::div_mod::lemma_mod_add_multiples_vanish(-1, n);
        vstd::arithmetic::div_mod::lemma_small_mod((n - 1) as nat, n as nat);
    }
    assert(0 <= q < n && q != i);
    let j = o[q] as int;
    assert(j != c);
    assert(there.current == Some(j));
    ordering::arranged_contains(o, n, k as usize);
    let r = choose|r: int| 0 <= r < o.len() && o[r] == k as usize;
    assert(r != i && r != q);
    one_goes_first(order, v.files, c, j);
    one_goes_first(order, v.files, c, k);
    one_goes_first(order, v.files, j, k);
    stands_in_order(order, v.files, o, i, q);
    stands_in_order(order, v.files, o, q, i);
    stands_in_order(order, v.files, o, i, r);
    stands_in_order(order, v.files, o, r, i);
    stands_in_order(order, v.files, o, q, r);
    stands_in_order(order, v.files, o, r, q);
}

proof fn stands_in_order(order: SortOrder, files: Seq<FileInfo>, o: Seq<usize>, a: int, b: int)
    requires
        ordering::in_order((ByOrder { order }), files, o),
        0 <= a < o.len(),
        0 <= b < o.len(),
    ensures
        a < b ==> goes_first(order, files, o[a] as int, o[b] as int),
{
    if a < b {
        assert(ordering::precedes((ByOrder { order }), files, o[a] as int, o[b] as int));
    }
}

/// The entry that stands last after a shuffle is the one whose number was drawn first.
pub proof fn shuffle_puts_first_drawn_last(v: ListView, state: u64)
    requires
        2 <= v.files.len() <= usize::MAX,
    ensures
        file_list::shuffled_list(v, state).files.len() == v.files.len(),
        file_list::shuffled_list(v, state).files.last() == v.files[natural_sort::number_drawn(
            state,
            v.files.len() as int,
        )],
{
    natural_sort::last_is_drawn_first(v.files.len() as int, state);
}

/// Every entry of a list stands last after some shuffle.
pub proof fn every_entry_can_come_last(v: ListView, k: int)
    requires
        2 <= v.files.len() <= usize::MAX,
        0 <= k < v.files.len(),
    ensures
        exists|state: u64|
            state != 0 && (#[trigger] file_list::shuffled_list(v, state)).files.last()
                == v.files[k],
{
    let n = v.files.len() as int;
    natural_sort::every_number_is_drawn(n, k);
    let state = choose|state: u64|
        state != 0 && #[trigger] natural_sort::number_drawn(state, n) == k;
    shuffle_puts_first_drawn_last(v, state);
}

/// Shuffles of a list without equal entries come out alike only where the same number
/// was drawn for every place.
pub proof fn shuffles_differ_by_draws(v: ListView, s: u64, t: u64)
    requires
        2 <= v.files.len() <= usize::MAX,
        v.files.no_duplicates(),
        file_list::shuffled_list(v, s).files == file_list::shuffled_list(v, t).files,
    ensures
        forall|k: int|
            1 <= k < v.files.len() ==> natural_sort::number_drawn(
                #[trigger] natural_sort::state_for(v.files.len() as int, s, k),
                k + 1,
            ) == natural_sort::number_drawn(
                natural_sort::state_for(v.files.len() as int, t, k),
                k + 1,
            ),
{
    let n = v.files.len() as int;
    let (o, q) = (natural_sort::shuffled_order(n, s), natural_sort::shuffled_order(n, t));
    natural_sort::shuffle_arranges(n, s);
    natural_sort::shuffle_arranges(n, t);
    assert forall|i: int| 0 <= i < n implies o[i] == q[i] by {
        assert(ordering::reordered(v.files, o)[i] == ordering::reordered(v.files, q)[i]);
    }
    assert(o =~= q);
    natural_sort::draws_decide_arrangement(n, s, t);
}

} // verus!
