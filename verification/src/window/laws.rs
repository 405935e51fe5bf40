//! What holds of every window.

use vstd::prelude::*;

use super::action::{Action, SlideChange, Task};
use super::{edit, WinView};
use crate::image::DecodedImage;
use crate::persistent_filter;
use crate::persistent_filter::{FilterKind, FilterOperation, PersistentFilter};
use crate::window;
use crate::window::action;

verus! {

/// Every action but those of the slide show itself stops it.
pub proof fn actions_stop_slideshow(before: WinView, action: Action, after: WinView)
    requires
        window::executed(before, action, after),
        !(action::spec_task_of(action) is Slide),
    ensures
        !after.slideshow.active,
{
    let w = window::stopped(before);
    assert(!w.slideshow.active);
    performing_keeps_slideshow(w, action::spec_task_of(action), after);
}

proof fn performing_keeps_slideshow(w: WinView, task: Task, after: WinView)
    requires
        window::performed(w, task, after),
        !(task is Slide),
    ensures
        after.slideshow == w.slideshow,
{
    match task {
        Task::Transform(how) => {
            if w.doc.image is Some {
                let result = choose|result: DecodedImage| #[trigger]
                    crate::filter::transform::turned(w.doc.image->0, how, result) && edit::edited(
                        window::deselected(w),
                        result,
                        after,
                    );
                assert(edit::edited(window::deselected(w), result, after));
            }
        },
        _ => {},
    }
}

/// The slide show's interval stays between half a second and half a minute.
pub proof fn interval_is_bounded(interval: int, delta: int)
    ensures
        500 <= window::adjusted(interval, delta) <= 30000,
{
}

/// Making the slide show faster and slower again gives its interval back, away
/// from the bounds.
pub proof fn interval_is_restored(interval: int, delta: int)
    requires
        500 <= interval <= 30000,
        500 <= interval + delta <= 30000,
    ensures
        window::adjusted(window::adjusted(interval, delta), -delta) == interval,
{
}

/// Starting and stopping the slide show leaves it as it was.
pub proof fn slideshow_toggled_twice(w: WinView)
    requires
        !w.slideshow.active,
    ensures
        window::slid(window::slid(w, SlideChange::Toggle), SlideChange::Toggle).slideshow
            == w.slideshow || w.doc.list.files.len() < 2,
{
}

/// Filling the screen and giving it back leaves the window's state as it was.
pub proof fn fullscreen_toggled_twice(w: WinView)
    ensures
        window::fullscreen_toggled(window::fullscreen_toggled(w)) == (WinView {
            commands: window::fullscreen_toggled(window::fullscreen_toggled(w)).commands,
            ..w
        }),
{
}

proof fn pushed_is_dropped(ops: Seq<FilterOperation>, op: FilterOperation)
    requires
        !persistent_filter::has_kind(ops, op.spec_kind()),
    ensures
        ops.push(op).filter(|o: FilterOperation| o.spec_kind() != op.spec_kind()) == ops,
{
    reveal(Seq::filter);
    window::all_kept(ops, op.spec_kind());
    assert(ops.push(op).drop_last() =~= ops);
}

/// Putting a filter for every image in and out again leaves the filters as they
/// were.
pub proof fn filter_toggled_twice(
    f: PersistentFilter,
    kind: FilterKind,
    op: FilterOperation,
    with: PersistentFilter,
    without: PersistentFilter,
)
    requires
        op.spec_kind() == kind,
        !persistent_filter::has_kind(f.operations@, kind),
        window::filter_added(f, op, with),
        window::filter_removed(with, kind, without),
    ensures
        persistent_filter::has_kind(with.operations@, kind),
        without.operations@ == f.operations@,
        without.enabled == f.enabled,
{
    pushed_is_dropped(f.operations@, op);
    assert(with.operations@[f.operations@.len() as int].spec_kind() == kind);
}

} // verus!
