//! What the user's actions come to.

use vstd::prelude::*;

use super::action::{Action, Task};
use super::WinView;
use crate::document::{expansion, list, loading, DocView};
use crate::file_info::FileInfo;
use crate::file_list;
use crate::file_list::sort::ByOrder;
use crate::file_list::{groups, navigation, order_laws, ListView};
use crate::ordering::Precedence;
use crate::window;
use crate::window::action;

verus! {

/// Getting the image of the current entry leaves the list as it is.
pub proof fn loading_keeps_list(before: DocView, after: DocView)
    requires
        loading::loads(before, after),
    ensures
        after.list == before.list,
        after.filter == before.filter,
        after.direction == before.direction,
{
    if let Some(i) = before.list.current {
        if before.list.files[i].source is PendingContainer {
            let path = before.list.files[i].source->container_path;
            let waits = DocView { image: None, intent: Some((path, before.direction)), ..before };
            let mid = choose|mid: DocView|
                {
                    &&& #[trigger] expansion::rescheduled(waits, mid)
                    &&& after == crate::document::told(
                        crate::document::position_told(mid),
                        crate::document::types::DocumentEvent::ImageReady,
                    )
                };
            assert(mid.list == before.list && mid.filter == before.filter && mid.direction
                == before.direction);
        }
    }
}

/// What a move does to the list.
spec fn list_after(v: ListView, how: action::Move, after: ListView) -> bool {
    match how {
        action::Move::By(offset) => after == file_list::moved_by(v, offset as int).0,
        action::Move::First => after == file_list::moved_to(v, 0).0,
        action::Move::Last => after == file_list::moved_to(v, v.files.len() - 1).0,
        action::Move::PrevMark => after == file_list::moved_to_mark(v, -1).0,
        action::Move::NextMark => after == file_list::moved_to_mark(v, 1).0,
        action::Move::PrevFolder => after == file_list::moved_by_group(v, -1).0,
        action::Move::NextFolder => after == file_list::moved_by_group(v, 1).0,
        action::Move::SortBack => exists|m: bool| #[trigger]
            file_list::moved_by_order(v, -1, v.order, after, m),
        action::Move::SortForward => exists|m: bool| #[trigger]
            file_list::moved_by_order(v, 1, v.order, after, m),
        action::Move::Reload => true,
    }
}

pub proof fn navigated_list(
    before: DocView,
    direction: navigation::NavigationDirection,
    l: ListView,
    m: bool,
    after: DocView,
)
    requires
        list::navigated(before, direction, l, m, after),
    ensures
        after.list == l,
{
    if m {
        loading_keeps_list((DocView { direction, list: l, ..before }), after);
    }
}

proof fn moving_changes_list(before: WinView, action: Action, how: action::Move, after: WinView)
    requires
        window::executed(before, action, after),
        action::spec_task_of(action) == Task::Move(how),
    ensures
        list_after(before.doc.list, how, after.doc.list),
{
    let w = window::stopped(before);
    let d = window::guarded(w).doc;
    let v = before.doc.list;
    assert(d.list == v);
    let doc = choose|doc: DocView| #[trigger]
        window::moves(d, how, doc) && after == window::with_doc(window::guarded(w), doc);
    match how {
        action::Move::By(offset) => {
            let (l, m) = file_list::moved_by(v, offset as int);
            navigated_list(d, list::towards(offset as int), l, m, doc);
        },
        action::Move::First => {
            let (l, m) = file_list::moved_to(v, 0);
            navigated_list(d, navigation::NavigationDirection::Forward, l, m, doc);
        },
        action::Move::Last => {
            let (l, m) = file_list::moved_to(v, v.files.len() - 1);
            navigated_list(d, navigation::NavigationDirection::Backward, l, m, doc);
        },
        action::Move::PrevMark => {
            let (l, m) = file_list::moved_to_mark(v, -1);
            navigated_list(d, navigation::NavigationDirection::Backward, l, m, doc);
        },
        action::Move::NextMark => {
            let (l, m) = file_list::moved_to_mark(v, 1);
            navigated_list(d, navigation::NavigationDirection::Forward, l, m, doc);
        },
        action::Move::PrevFolder => {
            let (l, m) = file_list::moved_by_group(v, -1);
            navigated_list(d, navigation::NavigationDirection::Forward, l, m, doc);
        },
        action::Move::NextFolder => {
            let (l, m) = file_list::moved_by_group(v, 1);
            navigated_list(d, navigation::NavigationDirection::Forward, l, m, doc);
        },
        action::Move::SortBack => {
            let (l, m) = choose|l: ListView, m: bool| #[trigger]
                file_list::moved_by_order(v, -1, v.order, l, m) && list::navigated(
                    d,
                    navigation::NavigationDirection::Backward,
                    l,
                    m,
                    doc,
                );
            navigated_list(d, navigation::NavigationDirection::Backward, l, m, doc);
        },
        action::Move::SortForward => {
            let (l, m) = choose|l: ListView, m: bool| #[trigger]
                file_list::moved_by_order(v, 1, v.order, l, m) && list::navigated(
                    d,
                    navigation::NavigationDirection::Forward,
                    l,
                    m,
                    doc,
                );
            navigated_list(d, navigation::NavigationDirection::Forward, l, m, doc);
        },
        action::Move::Reload => {},
    }
}

/// How many entries an action goes forward; back where it is negative.
pub open spec fn strides(action: Action) -> Option<int> {
    match action {
        Action::NavigateForward | Action::Navigate1Forward => Some(1),
        Action::NavigateBack | Action::Navigate1Back => Some(-1),
        Action::Navigate5Forward => Some(5),
        Action::Navigate5Back => Some(-5),
        Action::Navigate50Forward => Some(50),
        Action::Navigate50Back => Some(-50),
        _ => None,
    }
}

/// The way of a stride: one place forward, or one back.
pub open spec fn way_of(o: int) -> int {
    if o > 0 {
        1
    } else {
        -1
    }
}

/// The way of going to marks: one place forward for the next, one back for the others.
pub open spec fn mark_way(action: Action) -> int {
    if action == Action::NavigateNextMark {
        1
    } else {
        -1
    }
}

/// The place so many entries behind another, around a list.
pub open spec fn place_behind(from: int, n: int, len: int) -> int {
    (from + n) % len
}

/// From step `k` on, the search finds the first place that did not fail.
proof fn loadable_is_nearest(files: Seq<FileInfo>, start: int, step: int, k: int) -> (d: int)
    requires
        files.len() > 0,
        0 <= k <= files.len(),
    ensures
        k <= d <= files.len(),
        forall|e: int|
            k <= e < d ==> files[#[trigger] navigation::around(
                start,
                step * e,
                files.len() as int,
            )].load_failed,
        match file_list::loadable_from(files, start, step, k) {
            Some(t) => d < files.len() && t == navigation::around(
                start,
                step * d,
                files.len() as int,
            ) && !files[t].load_failed,
            None => d == files.len(),
        },
    decreases files.len() - k,
{
    let place = navigation::around(start, step * k, files.len() as int);
    if k >= files.len() || !files[place].load_failed {
        k
    } else {
        loadable_is_nearest(files, start, step, k + 1)
    }
}

proof fn around_twice(i: int, o: int, e: int, n: int)
    requires
        n > 0,
    ensures
        navigation::around(navigation::around(i, o, n), e, n) == place_behind(i, o + e, n),
{
    vstd::arithmetic::div_mod::lemma_add_mod_noop(i + o, e, n);
    vstd::arithmetic::div_mod::lemma_add_mod_noop_right(e, i + o, n);
    assert(e + i + o == i + (o + e));
}

/// From `i`, the position came to lie `d` places further on than `o` entries away, the way
/// being forward or back. The places before that failed, and this one did not; where all
/// failed, the position stayed.
pub open spec fn lands(
    files: Seq<FileInfo>,
    i: int,
    o: int,
    way: int,
    d: int,
    current: Option<int>,
) -> bool {
    let n = files.len() as int;
    &&& 0 <= d <= n
    &&& forall|e: int|
        0 <= e < d ==> files[#[trigger] place_behind(i, o + way * e, n)].load_failed
    &&& d < n ==> current == Some(place_behind(i, o + way * d, n))
    &&& d < n ==> !files[place_behind(i, o + way * d, n)].load_failed
    &&& d == n ==> current == Some(i)
}

proof fn stride_lands(v: ListView, o: int, way: int)
    requires
        v.valid(),
        v.current is Some,
        o != 0,
        way == (if o > 0 {
            1int
        } else {
            -1
        }),
    ensures
        file_list::moved_by(v, o).0.files == v.files,
        exists|d: int| #[trigger]
            lands(v.files, v.current->0, o, way, d, file_list::moved_by(v, o).0.current),
{
    let files = v.files;
    let n = files.len() as int;
    let i = v.current->0;
    let start = navigation::around(i, o, n);
    let d = loadable_is_nearest(files, start, way, 0);
    assert forall|e: int| 0 <= e < d implies files[#[trigger] place_behind(
        i,
        o + way * e,
        n,
    )].load_failed by {
        around_twice(i, o, way * e, n);
        assert(files[navigation::around(start, way * e, n)].load_failed);
    }
    around_twice(i, o, way * d, n);
    assert(lands(files, i, o, way, d, file_list::moved_by(v, o).0.current));
}

pub proof fn strides_are_tasks(action: Action) -> (r: isize)
    requires
        strides(action) is Some,
    ensures
        action::spec_task_of(action) == Task::Move(action::Move::By(r)),
        r == strides(action)->0,
        r != 0,
{
    strides(action)->0 as isize
}

/// Going back and forward leads as many entries through the list as the action says,
/// around its ends, and from there on in the same direction past entries that failed.
/// Where all failed, the position stays.
pub proof fn going_through_images(before: WinView, action: Action, after: WinView)
    requires
        before.doc.list.valid(),
        before.doc.list.current is Some,
        strides(action) is Some,
        window::executed(before, action, after),
    ensures
        after.doc.list.files == before.doc.list.files,
        exists|d: int| #[trigger]
            lands(
                before.doc.list.files,
                before.doc.list.current->0,
                strides(action)->0,
                way_of(strides(action)->0),
                d,
                after.doc.list.current,
            ),
{
    let o = strides_are_tasks(action);
    moving_changes_list(before, action, action::Move::By(o), after);
    let v = before.doc.list;
    let way = way_of(o as int);
    stride_lands(v, o as int, way);
    let d = choose|d: int| #[trigger]
        lands(v.files, v.current->0, o as int, way, d, after.doc.list.current);
    assert(lands(
        v.files,
        v.current->0,
        strides(action)->0,
        way_of(strides(action)->0),
        d,
        after.doc.list.current,
    ));
}

pub proof fn stride_in_sound_list(v: ListView, o: int)
    requires
        v.valid(),
        v.current is Some,
        o != 0,
        forall|k: int| 0 <= k < v.files.len() ==> !(#[trigger] v.files[k]).load_failed,
    ensures
        file_list::moved_by(v, o).0.files == v.files,
        file_list::moved_by(v, o).0.current == Some(
            place_behind(v.current->0, o, v.files.len() as int),
        ),
        0 <= place_behind(v.current->0, o, v.files.len() as int) < v.files.len(),
{
    let way: int = if o > 0 {
        1
    } else {
        -1
    };
    stride_lands(v, o, way);
    let i = v.current->0;
    let n = v.files.len() as int;
    let d = choose|d: int| #[trigger]
        lands(v.files, i, o, way, d, file_list::moved_by(v, o).0.current);
    assert(way * 0 == 0) by (nonlinear_arith);
    let p = place_behind(i, o + way * 0, n);
    vstd::arithmetic::div_mod::lemma_mod_bound(i + o, n);
    if d > 0 {
        assert(v.files[p].load_failed);
    }
}

pub proof fn next_places(i: int, n: int)
    requires
        0 <= i < n,
    ensures
        place_behind(i, 1, n) == (if i + 1 < n {
            i + 1
        } else {
            0
        }),
        place_behind(i, -1, n) == (if i > 0 {
            i - 1
        } else {
            n - 1
        }),
{
    if i + 1 < n {
        vstd::arithmetic::div_mod::lemma_small_mod((i + 1) as nat, n as nat);
    } else {
        vstd::arithmetic::div_mod::lemma_mod_self_0(n);
    }
    if i > 0 {
        vstd::arithmetic::div_mod::lemma_small_mod((i - 1) as nat, n as nat);
    } else {
        vstd::arithmetic::div_mod::lemma_mod_add_multiples_vanish(-1, n);
        vstd::arithmetic::div_mod::lemma_small_mod((n - 1) as nat, n as nat);
    }
}

/// Without entries that failed, an action goes exactly so many entries: forward to the
/// next one and from the last to the first, back to the one before and from the first to
/// the last.
pub proof fn going_one_by_one(before: WinView, action: Action, after: WinView)
    requires
        before.doc.list.valid(),
        before.doc.list.current is Some,
        strides(action) is Some,
        forall|k: int|
            0 <= k < before.doc.list.files.len()
                ==> !(#[trigger] before.doc.list.files[k]).load_failed,
        window::executed(before, action, after),
    ensures
        after.doc.list.files == before.doc.list.files,
        after.doc.list.current == Some(
            place_behind(
                before.doc.list.current->0,
                strides(action)->0,
                before.doc.list.files.len() as int,
            ),
        ),
        after.doc.list.valid(),
        action == Action::NavigateForward || action == Action::Navigate1Forward
            ==> after.doc.list.current == Some(
            if before.doc.list.current->0 + 1 < before.doc.list.files.len() {
                before.doc.list.current->0 + 1
            } else {
                0
            },
        ),
        action == Action::NavigateBack || action == Action::Navigate1Back
            ==> after.doc.list.current == Some(
            if before.doc.list.current->0 > 0 {
                before.doc.list.current->0 - 1
            } else {
                before.doc.list.files.len() - 1
            },
        ),
{
    let o = strides_are_tasks(action);
    moving_changes_list(before, action, action::Move::By(o), after);
    stride_in_sound_list(before.doc.list, o as int);
    next_places(before.doc.list.current->0, before.doc.list.files.len() as int);
}

/// Without entries that failed, going back and forward, by one, five or fifty, leads to
/// the same entry.
pub proof fn going_back_is_undone(
    before: WinView,
    there: Action,
    mid: WinView,
    back: Action,
    after: WinView,
)
    requires
        before.doc.list.valid(),
        before.doc.list.current is Some,
        strides(there) is Some,
        strides(back) == Some(-strides(there)->0),
        forall|k: int|
            0 <= k < before.doc.list.files.len()
                ==> !(#[trigger] before.doc.list.files[k]).load_failed,
        window::executed(before, there, mid),
        window::executed(mid, back, after),
    ensures
        after.doc.list.current == before.doc.list.current,
{
    let n = before.doc.list.files.len() as int;
    let (i, o) = (before.doc.list.current->0, strides(there)->0);
    going_one_by_one(before, there, mid);
    going_one_by_one(mid, back, after);
    navigation::around_undone(i, o, n);
}

/// Of three entries or more, none of which failed, going back and going forward lead to
/// different ones.
pub proof fn back_is_not_forward(before: WinView, back: WinView, forward: WinView)
    requires
        before.doc.list.valid(),
        before.doc.list.current is Some,
        before.doc.list.files.len() >= 3,
        forall|k: int|
            0 <= k < before.doc.list.files.len()
                ==> !(#[trigger] before.doc.list.files[k]).load_failed,
        window::executed(before, Action::NavigateBack, back),
        window::executed(before, Action::NavigateForward, forward),
    ensures
        back.doc.list.current != forward.doc.list.current,
{
    going_one_by_one(before, Action::NavigateBack, back);
    going_one_by_one(before, Action::NavigateForward, forward);
}

/// The first and the last entry are reached from everywhere.
pub proof fn going_to_the_ends(before: WinView, action: Action, after: WinView)
    requires
        before.doc.list.files.len() > 0,
        action == Action::NavigateFirst || action == Action::NavigateLast,
        window::executed(before, action, after),
    ensures
        after.doc.list.files == before.doc.list.files,
        after.doc.list.current == Some(
            if action == Action::NavigateFirst {
                0
            } else {
                before.doc.list.files.len() - 1
            },
        ),
{
    moving_changes_list(before, action, action::spec_task_of(action)->Move_0, after);
}

/// From `i`, the position came to lie on the mark `d` places away, the way being forward
/// or back, and nothing on the way is marked; without another mark the position stayed.
pub open spec fn lands_on_mark(
    files: Seq<FileInfo>,
    i: int,
    way: int,
    d: int,
    current: Option<int>,
) -> bool {
    let n = files.len() as int;
    &&& 1 <= d <= n
    &&& forall|e: int| 1 <= e < d ==> !files[#[trigger] place_behind(i, way * e, n)].marked
    &&& d < n ==> current == Some(place_behind(i, way * d, n))
    &&& d < n ==> files[place_behind(i, way * d, n)].marked
    &&& d == n ==> current == Some(i)
}

/// Going to the next mark leads to the nearest marked entry behind the current one, around
/// the list, and going to the previous mark to the nearest before it. Without another mark
/// the position stays.
pub proof fn going_to_marks(before: WinView, action: Action, after: WinView)
    requires
        before.doc.list.valid(),
        before.doc.list.current is Some,
        action == Action::NavigateNextMark || action == Action::NavigatePrevMark,
        window::executed(before, action, after),
    ensures
        after.doc.list.files == before.doc.list.files,
        exists|d: int| #[trigger]
            lands_on_mark(
                before.doc.list.files,
                before.doc.list.current->0,
                mark_way(action),
                d,
                after.doc.list.current,
            ),
{
    moving_changes_list(before, action, action::spec_task_of(action)->Move_0, after);
    let v = before.doc.list;
    mark_lands(v, mark_way(action));
    let d = choose|d: int| #[trigger]
        lands_on_mark(
            v.files,
            v.current->0,
            mark_way(action),
            d,
            file_list::moved_to_mark(v, mark_way(action)).0.current,
        );
    assert(lands_on_mark(v.files, v.current->0, mark_way(action), d, after.doc.list.current));
}

proof fn mark_lands(v: ListView, way: int)
    requires
        v.valid(),
        v.current is Some,
    ensures
        file_list::moved_to_mark(v, way).0.files == v.files,
        exists|d: int| #[trigger]
            lands_on_mark(
                v.files,
                v.current->0,
                way,
                d,
                file_list::moved_to_mark(v, way).0.current,
            ),
{
    let n = v.files.len() as int;
    let i = v.current->0;
    let current = file_list::moved_to_mark(v, way).0.current;
    if file_list::marked_from(v, way, 1) is Some {
        let d = file_list::laws::mark_distance(v, way, 1);
        assert forall|e: int| 1 <= e < d implies !v.files[#[trigger] place_behind(
            i,
            way * e,
            n,
        )].marked by {
            assert(!v.files[navigation::around(i, way * e, n)].marked);
        }
        assert(place_behind(i, way * d, n) == navigation::around(i, way * d, n));
        assert(lands_on_mark(v.files, i, way, d, current));
    } else {
        no_mark(v, way, 1);
        assert forall|e: int| 1 <= e < n implies !v.files[#[trigger] place_behind(
            i,
            way * e,
            n,
        )].marked by {
            assert(!v.files[navigation::around(i, way * e, n)].marked);
        }
        assert(lands_on_mark(v.files, i, way, n, current));
    }
}

proof fn no_mark(v: ListView, step: int, k: int)
    requires
        file_list::marked_from(v, step, k) is None,
    ensures
        forall|e: int|
            k <= e < v.files.len() ==> !v.files[#[trigger] navigation::around(
                v.place(),
                step * e,
                v.files.len() as int,
            )].marked,
    decreases v.files.len() - k,
{
    if k < v.files.len() {
        no_mark(v, step, k + 1);
    }
}

/// Going along the sort order of a list that stands in it is going to the next entry or
/// to the one before, around the list.
pub proof fn going_by_order(before: WinView, action: Action, after: WinView)
    requires
        before.doc.list.valid(),
        before.doc.list.files.len() <= usize::MAX,
        before.doc.list.current is Some,
        action == Action::SortNavigateForward || action == Action::SortNavigateBack,
        forall|i: int, j: int|
            0 <= i < j < before.doc.list.files.len() ==> !#[trigger] (ByOrder {
                order: before.doc.list.order,
            }).before(before.doc.list.files[j], before.doc.list.files[i]),
        window::executed(before, action, after),
    ensures
        after.doc.list.files == before.doc.list.files,
        ({
            let (i, n) = (before.doc.list.current->0, before.doc.list.files.len() as int);
            after.doc.list.current == Some(
                if action == Action::SortNavigateForward {
                    if i + 1 < n {
                        i + 1
                    } else {
                        0
                    }
                } else if i > 0 {
                    i - 1
                } else {
                    n - 1
                },
            )
        }),
{
    moving_changes_list(before, action, action::spec_task_of(action)->Move_0, after);
    let v = before.doc.list;
    let step: int = if action == Action::SortNavigateForward {
        1
    } else {
        -1
    };
    let m = choose|m: bool| #[trigger]
        file_list::moved_by_order(v, step, v.order, after.doc.list, m);
    order_laws::ordered_move_in_sorted_list(v, step, v.order, after.doc.list, m);
}

/// Going along the sort order leads to the entry that is next in it, or to the one before,
/// however the list stands.
pub proof fn going_along_order(before: WinView, action: Action, after: WinView, k: int)
    requires
        before.doc.list.valid(),
        2 <= before.doc.list.files.len() <= usize::MAX,
        before.doc.list.current is Some,
        action == Action::SortNavigateForward || action == Action::SortNavigateBack,
        window::executed(before, action, after),
        0 <= k < before.doc.list.files.len(),
        k != before.doc.list.current->0,
        Some(k) != after.doc.list.current,
    ensures
        after.doc.list.files == before.doc.list.files,
        after.doc.list.current matches Some(j) && j != before.doc.list.current->0 && (if action
            == Action::SortNavigateForward {
            order_laws::is_next(
                before.doc.list.order,
                before.doc.list.files,
                before.doc.list.current->0,
                j,
                k,
            )
        } else {
            order_laws::is_next(
                before.doc.list.order,
                before.doc.list.files,
                j,
                before.doc.list.current->0,
                k,
            )
        }),
{
    moving_changes_list(before, action, action::spec_task_of(action)->Move_0, after);
    let v = before.doc.list;
    let step: int = if action == Action::SortNavigateForward {
        1
    } else {
        -1
    };
    let m = choose|m: bool| #[trigger]
        file_list::moved_by_order(v, step, v.order, after.doc.list, m);
    order_laws::ordered_move_leads_to_next(v, step, v.order, after.doc.list, m, k);
}

/// The entry is the first of its folder or container in the list.
pub open spec fn begins_group(files: Seq<FileInfo>, k: int) -> bool {
    0 <= k < files.len() && forall|m: int|
        0 <= m < k ==> groups::group_of(#[trigger] files[m]) != groups::group_of(files[k])
}

proof fn beginnings_are_leaders(files: Seq<FileInfo>, k: int)
    requires
        0 <= k < files.len(),
    ensures
        begins_group(files, k) <==> groups::leaders(files, files.len() as int).contains(k),
        begins_group(files, k) <==> groups::leader(files, k) == k,
{
    let n = files.len() as int;
    groups::leaders_ascend(files, n);
    groups::leader_is_first(files, k);
    let all = groups::leaders(files, n);
    assert(all.contains(groups::leader(files, k)));
    if begins_group(files, k) {
        if groups::leader(files, k) < k {
            assert(groups::group_of(files[groups::leader(files, k)]) != groups::group_of(files[k]));
        }
    }
    if all.contains(k) {
        let a = choose|a: int| 0 <= a < all.len() && all[a] == k;
        assert(groups::leader(files, all[a]) == all[a]);
    }
}

/// Going to the next or the previous folder leads to where another group of the list
/// begins, and no group begins between that and the beginning of the current one; from
/// the last group it leads to the first, and from the first to the last. In a list of one
/// group the position stays.
pub proof fn going_to_folders(before: WinView, action: Action, after: WinView, first: int, k: int)
    requires
        before.doc.list.valid(),
        before.doc.list.current is Some,
        action == Action::NavigateNextFolder || action == Action::NavigatePrevFolder,
        begins_group(before.doc.list.files, first),
        groups::group_of(before.doc.list.files[first]) == groups::group_of(
            before.doc.list.files[before.doc.list.current->0],
        ),
        begins_group(before.doc.list.files, k),
        k != first,
        window::executed(before, action, after),
    ensures
        after.doc.list.files == before.doc.list.files,
        after.doc.list.current matches Some(j) && begins_group(before.doc.list.files, j) && j
            != first && (if action == Action::NavigateNextFolder {
            if first < j {
                !(first < k < j)
            } else {
                j <= k < first
            }
        } else {
            if j < first {
                !(j < k < first)
            } else {
                first < k <= j
            }
        }),
{
    moving_changes_list(before, action, action::spec_task_of(action)->Move_0, after);
    let v = before.doc.list;
    let files = v.files;
    let n = files.len() as int;
    let i = v.current->0;
    let step: int = if action == Action::NavigateNextFolder {
        1
    } else {
        -1
    };
    let all = groups::leaders(files, n);
    let m = all.len() as int;
    groups::leaders_ascend(files, n);
    beginnings_are_leaders(files, first);
    beginnings_are_leaders(files, k);
    groups::same_group_same_leader(files, first, i);
    assert(groups::leader(files, i) == first);
    let b = choose|b: int| 0 <= b < m && all[b] == k;
    let g = all.index_of(first);
    assert(0 <= g < m && all[g] == first);
    assert(m >= 2) by {
        if m == 1 {
            assert(b == g);
        }
    }
    let h = navigation::around(g, step, m);
    if 0 <= g + step < m {
        vstd::arithmetic::div_mod::lemma_small_mod((g + step) as nat, m as nat);
    } else if step == 1 {
        assert(g + step == m);
        vstd::arithmetic::div_mod::lemma_mod_self_0(m);
    } else {
        assert(g == 0);
        vstd::arithmetic::div_mod::lemma_mod_add_multiples_vanish(-1, m);
        vstd::arithmetic::div_mod::lemma_small_mod((m - 1) as nat, m as nat);
    }
    let j = all[h];
    assert(0 <= j < n);
    beginnings_are_leaders(files, j);
    assert(all.contains(j));
    assert(after.doc.list.current == Some(j)) by {
        if j == i {
            assert(groups::leader(files, j) == j);
            assert(j == first);
            assert(h == g);
        }
    }
    if b < g {
        assert(all[b] < all[g]);
    } else {
        assert(all[g] < all[b]);
    }
    if b < h {
        assert(all[b] < all[h]);
    }
    if h < b {
        assert(all[h] < all[b]);
    }
    if h < g {
        assert(all[h] < all[g]);
    } else {
        assert(all[g] < all[h]);
    }
}

} // verus!
