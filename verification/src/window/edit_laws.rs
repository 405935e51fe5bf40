//! What the user's edits, filters and toggles come to.

use vstd::prelude::*;

use super::action::{Action, PlainFilter, Task};
use super::{edit, Slideshow, WinView};
use crate::document::DocView;
use crate::file_info::FileInfo;
use crate::file_list;
use crate::filter;
use crate::filter::transform;
use crate::filter::transform::Turn;
use crate::image::DecodedImage;
use crate::persistent_filter;
use crate::persistent_filter::{FilterKind, FilterOperation, PersistentFilter};
use crate::text;
use crate::window;
use crate::window::action;

verus! {

proof fn turn_is_shown(before: WinView, action: Action, turn: Turn, after: WinView)
    requires
        before.doc.image is Some,
        action::spec_task_of(action) == Task::Transform(turn),
        window::executed(before, action, after),
    ensures
        after.doc.image matches Some(b) && transform::turned(before.doc.image->0, turn, b),
        after.selection is None,
{
    let w = window::stopped(before);
    let a = before.doc.image->0;
    let result = choose|result: DecodedImage| #[trigger]
        transform::turned(a, turn, result) && edit::edited(window::deselected(w), result, after);
    let doc = choose|doc: DocView| #[trigger]
        edit::edit_shown(window::deselected(w).doc, result, doc) && after == super::noted(
            (WinView { doc, ..window::deselected(w) }),
            super::Command::ProcessEvents,
        );
    assert(doc.image == Some(result));
}

/// Flipping sideways puts each pixel as far from the right edge as it was from the left.
pub proof fn flips_sideways(before: WinView, after: WinView, x: int, y: int, c: int)
    requires
        before.doc.image matches Some(a) && a.has(x, y, c),
        window::executed(before, Action::FlipHorizontal, after),
    ensures
        after.doc.image matches Some(b) && ({
            let a = before.doc.image->0;
            b.width == a.width && b.height == a.height && b.at(a.width - 1 - x, y, c) == a.at(x, y, c)
        }),
{
    turn_is_shown(before, Action::FlipHorizontal, Turn::Mirror, after);
    let (a, b) = (before.doc.image->0, after.doc.image->0);
    assert(b.has(a.width - 1 - x, y, c));
}

/// Flipping upside down puts each pixel as far from the bottom as it was from the top.
pub proof fn flips_upside_down(before: WinView, after: WinView, x: int, y: int, c: int)
    requires
        before.doc.image matches Some(a) && a.has(x, y, c),
        window::executed(before, Action::FlipVertical, after),
    ensures
        after.doc.image matches Some(b) && ({
            let a = before.doc.image->0;
            b.width == a.width && b.height == a.height && b.at(x, a.height - 1 - y, c) == a.at(x, y, c)
        }),
{
    turn_is_shown(before, Action::FlipVertical, Turn::Flip, after);
    let (a, b) = (before.doc.image->0, after.doc.image->0);
    assert(b.has(x, a.height - 1 - y, c));
}

/// A quarter turn clockwise makes the top row the last column, from top to bottom: each
/// pixel comes to lie as far from the right edge as it was from the top, and as far from
/// the top as it was from the left.
pub proof fn turns_clockwise(before: WinView, after: WinView, x: int, y: int, c: int)
    requires
        before.doc.image matches Some(a) && a.has(x, y, c),
        window::executed(before, Action::Rotate90CW, after),
    ensures
        after.doc.image matches Some(b) && ({
            let a = before.doc.image->0;
            b.width == a.height && b.height == a.width && b.at(b.width - 1 - y, x, c) == a.at(x, y, c)
        }),
{
    turn_is_shown(before, Action::Rotate90CW, Turn::Right, after);
    let (a, b) = (before.doc.image->0, after.doc.image->0);
    assert(b.has(b.width - 1 - y, x, c));
}

/// A quarter turn counterclockwise makes the top row the first column, from bottom to top.
pub proof fn turns_counterclockwise(before: WinView, after: WinView, x: int, y: int, c: int)
    requires
        before.doc.image matches Some(a) && a.has(x, y, c),
        window::executed(before, Action::Rotate90CCW, after),
    ensures
        after.doc.image matches Some(b) && ({
            let a = before.doc.image->0;
            b.width == a.height && b.height == a.width && b.at(y, b.height - 1 - x, c) == a.at(x, y, c)
        }),
{
    turn_is_shown(before, Action::Rotate90CCW, Turn::Left, after);
    let (a, b) = (before.doc.image->0, after.doc.image->0);
    assert(b.has(y, b.height - 1 - x, c));
}

/// Half a turn puts each pixel at the opposite place.
pub proof fn turns_half(before: WinView, after: WinView, x: int, y: int, c: int)
    requires
        before.doc.image matches Some(a) && a.has(x, y, c),
        window::executed(before, Action::Rotate180, after),
    ensures
        after.doc.image matches Some(b) && ({
            let a = before.doc.image->0;
            b.width == a.width && b.height == a.height && b.at(
                a.width - 1 - x,
                a.height - 1 - y,
                c,
            ) == a.at(x, y, c)
        }),
{
    turn_is_shown(before, Action::Rotate180, Turn::Half, after);
    let (a, b) = (before.doc.image->0, after.doc.image->0);
    assert(b.has(a.width - 1 - x, a.height - 1 - y, c));
}

/// The filter for every image of the same name as an action that edits the shown one.
pub open spec fn same_name(action: Action, op: FilterOperation) -> bool {
    match action {
        Action::InvertColors => op is InvertColors,
        Action::GrayscaleSimple => op is GrayscaleSimple,
        Action::GrayscaleStrict => op is GrayscaleStrict,
        Action::ApplyAlpha => op is ApplyAlpha,
        Action::Blur => op is Blur,
        Action::BlurStrong => op is BlurStrong,
        Action::Sharpen => op is Sharpen,
        Action::SharpenStrong => op is SharpenStrong,
        Action::MedianFilter => op is MedianFilter,
        Action::FlipHorizontal => op is FlipHorizontal,
        Action::FlipVertical => op is FlipVertical,
        Action::Rotate180 => op is Rotate180,
        Action::Rotate90CW => op is Rotate90CW,
        Action::Rotate90CCW => op is Rotate90CCW,
        _ => false,
    }
}

/// Editing the shown image with nothing selected does what the filter of the same name
/// does to every image.
pub proof fn edits_are_filters(before: WinView, action: Action, op: FilterOperation, after: WinView)
    requires
        before.doc.image is Some,
        before.selection is None,
        same_name(action, op),
        window::executed(before, action, after),
    ensures
        after.doc.image matches Some(b) && op.makes(before.doc.image->0, b),
{
    names_are_edits(action, op);
    if is_turn(action) {
        turn_is_shown(before, action, turn_of(action), after);
        turn_is_named(action, op, before.doc.image->0, after.doc.image->0);
    } else {
        filter_is_shown(before, action, filter_of(action), after);
        filter_is_named(action, op, before.doc.image->0, after.doc.image->0);
    }
}

spec fn is_turn(action: Action) -> bool {
    action::spec_task_of(action) is Transform
}

spec fn turn_of(action: Action) -> Turn {
    action::spec_task_of(action)->Transform_0
}

spec fn filter_of(action: Action) -> PlainFilter {
    action::spec_task_of(action)->Filter_0
}

proof fn turn_is_named(action: Action, op: FilterOperation, a: DecodedImage, b: DecodedImage)
    requires
        same_name(action, op),
        is_turn(action),
        transform::turned(a, turn_of(action), b),
    ensures
        op.makes(a, b),
{
}

proof fn filter_is_named(action: Action, op: FilterOperation, a: DecodedImage, b: DecodedImage)
    requires
        same_name(action, op),
        !is_turn(action),
        edit::plain_makes(filter_of(action), a, None, b),
    ensures
        op.makes(a, b),
{
    filter::squares::filters_for_all_are_edits(op, a, b);
}

proof fn names_are_edits(action: Action, op: FilterOperation)
    requires
        same_name(action, op),
    ensures
        is_turn(action) ==> action::spec_task_of(action) == Task::Transform(turn_of(action)),
        !is_turn(action) ==> action::spec_task_of(action) == Task::Filter(filter_of(action)),
{
}

proof fn filter_is_shown(before: WinView, action: Action, kind: PlainFilter, after: WinView)
    requires
        before.doc.image is Some,
        action::spec_task_of(action) == Task::Filter(kind),
        window::executed(before, action, after),
    ensures
        after.doc.image matches Some(b) && edit::plain_makes(
            kind,
            before.doc.image->0,
            super::region_of(&before.selection),
            b,
        ),
        after.selection == before.selection,
{
    let w = window::stopped(before);
    let a = before.doc.image->0;
    let result = choose|result: DecodedImage| #[trigger]
        edit::plain_makes(kind, a, super::region_of(&w.selection), result) && edit::edited(
            w,
            result,
            after,
        );
    let doc = choose|doc: DocView| #[trigger]
        edit::edit_shown(w.doc, result, doc) && after == super::noted(
            (WinView { doc, ..w }),
            super::Command::ProcessEvents,
        );
    assert(doc.image == Some(result));
}

/// The kind of filter that an action puts in or out for every image.
pub open spec fn switched_kind(action: Action) -> Option<FilterKind> {
    match action {
        Action::PFilterFlipH => Some(FilterKind::FlipHorizontal),
        Action::PFilterFlipV => Some(FilterKind::FlipVertical),
        Action::PFilterRotate180 => Some(FilterKind::Rotate180),
        Action::PFilterRotate90CW => Some(FilterKind::Rotate90CW),
        Action::PFilterRotate90CCW => Some(FilterKind::Rotate90CCW),
        Action::PFilterGrayscaleSimple => Some(FilterKind::GrayscaleSimple),
        Action::PFilterGrayscaleStrict => Some(FilterKind::GrayscaleStrict),
        Action::PFilterBlur => Some(FilterKind::Blur),
        Action::PFilterBlurStrong => Some(FilterKind::BlurStrong),
        Action::PFilterSharpen => Some(FilterKind::Sharpen),
        Action::PFilterSharpenStrong => Some(FilterKind::SharpenStrong),
        Action::PFilterMedianFilter => Some(FilterKind::MedianFilter),
        Action::PFilterInvertColors => Some(FilterKind::InvertColors),
        Action::PFilterApplyAlpha => Some(FilterKind::ApplyAlpha),
        _ => None,
    }
}

/// Without filters of a kind, they hold none of it, and all of the others in their order.
pub proof fn removed_has_none(ops: Seq<FilterOperation>, kind: FilterKind, other: FilterKind)
    ensures
        ({
            let left = ops.filter(|o: FilterOperation| o.spec_kind() != kind);
            &&& !persistent_filter::has_kind(left, kind)
            &&& other != kind ==> (persistent_filter::has_kind(left, other)
                <==> persistent_filter::has_kind(ops, other))
        }),
{
    let p = |o: FilterOperation| o.spec_kind() != kind;
    let left = ops.filter(p);
    assert forall|i: int| 0 <= i < left.len() implies p(#[trigger] left[i]) && ops.contains(
        left[i],
    ) by {
        ops.lemma_filter_pred(p, i);
        ops.lemma_filter_contains_rev(p, left[i]);
        assert(left.contains(left[i]));
    }
    if other != kind {
        if persistent_filter::has_kind(ops, other) {
            let i = choose|i: int| 0 <= i < ops.len() && (#[trigger] ops[i]).spec_kind() == other;
            ops.lemma_filter_contains(p, i);
            let j = choose|j: int| 0 <= j < left.len() && left[j] == ops[i];
            assert(left[j].spec_kind() == other);
        }
        if persistent_filter::has_kind(left, other) {
            let j = choose|j: int| 0 <= j < left.len() && (#[trigger] left[j]).spec_kind() == other;
            assert(ops.contains(left[j]));
            let i = choose|i: int| 0 <= i < ops.len() && ops[i] == left[j];
            assert(ops[i].spec_kind() == other);
        }
    }
}

/// Putting a filter for every image in or out: it is there afterwards exactly where it was
/// not before, and the filters of every other kind are there as they were.
pub proof fn filter_is_switched(
    before: WinView,
    action: Action,
    after: WinView,
    other: FilterKind,
)
    requires
        switched_kind(action) is Some,
        other != switched_kind(action)->0,
        window::executed(before, action, after),
    ensures
        persistent_filter::has_kind(after.doc.filter.operations@, switched_kind(action)->0)
            <==> !persistent_filter::has_kind(
            before.doc.filter.operations@,
            switched_kind(action)->0,
        ),
        persistent_filter::has_kind(after.doc.filter.operations@, other)
            <==> persistent_filter::has_kind(before.doc.filter.operations@, other),
        after.doc.filter.enabled == before.doc.filter.enabled,
{
    let kind = switched_kind(action)->0;
    let w = window::stopped(before);
    switches_are_tasks(action);
    let doc = choose|doc: DocView| #[trigger]
        window::filter_toggled(w.doc, kind, doc) && after == window::with_doc(w, doc);
    toggled_filter(w.doc, kind, doc, other);
}

proof fn switches_are_tasks(action: Action)
    requires
        switched_kind(action) is Some,
    ensures
        action::spec_task_of(action) == Task::ToggleFilter(switched_kind(action)->0),
        window::plain_operation(switched_kind(action)->0).spec_kind() == switched_kind(action)->0,
{
}

pub proof fn refiltering_sets_filter(before: DocView, f: PersistentFilter, after: DocView)
    requires
        window::refiltered(before, f, after),
    ensures
        after.filter == f,
{
    window::action_laws::loading_keeps_list(
        crate::document::cache_dropped(DocView { filter: f, ..before }),
        after,
    );
}

proof fn added_has_kind(ops: Seq<FilterOperation>, op: FilterOperation, other: FilterKind)
    requires
        other != op.spec_kind(),
    ensures
        persistent_filter::has_kind(ops.push(op), op.spec_kind()),
        persistent_filter::has_kind(ops.push(op), other) <==> persistent_filter::has_kind(
            ops,
            other,
        ),
{
    let more = ops.push(op);
    assert(more[ops.len() as int].spec_kind() == op.spec_kind());
    if persistent_filter::has_kind(ops, other) {
        let i = choose|i: int| 0 <= i < ops.len() && (#[trigger] ops[i]).spec_kind() == other;
        assert(more[i].spec_kind() == other);
    }
    if persistent_filter::has_kind(more, other) {
        let i = choose|i: int| 0 <= i < more.len() && (#[trigger] more[i]).spec_kind() == other;
        assert(ops[i].spec_kind() == other);
    }
}

proof fn toggled_filter(before: DocView, kind: FilterKind, after: DocView, other: FilterKind)
    requires
        other != kind,
        window::plain_operation(kind).spec_kind() == kind,
        window::filter_toggled(before, kind, after),
    ensures
        persistent_filter::has_kind(after.filter.operations@, kind) <==> !persistent_filter::has_kind(
            before.filter.operations@,
            kind,
        ),
        persistent_filter::has_kind(after.filter.operations@, other)
            <==> persistent_filter::has_kind(before.filter.operations@, other),
        after.filter.enabled == before.filter.enabled,
{
    let f = choose|f: PersistentFilter|
        {
            &&& if persistent_filter::has_kind(before.filter.operations@, kind) {
                window::filter_removed(before.filter, kind, f)
            } else {
                window::filter_added(before.filter, window::plain_operation(kind), f)
            }
            &&& #[trigger] window::refiltered(before, f, after)
        };
    refiltering_sets_filter(before, f, after);
    let ops = before.filter.operations@;
    if persistent_filter::has_kind(ops, kind) {
        removed_has_none(ops, kind, other);
    } else {
        added_has_kind(ops, window::plain_operation(kind), other);
    }
}

/// Putting the filters for every image in or out of use changes that and no filter.
pub proof fn filters_are_switched(before: WinView, after: WinView)
    requires
        window::executed(before, Action::PFilterToggle, after),
    ensures
        after.doc.filter.enabled == !before.doc.filter.enabled,
        after.doc.filter.operations == before.doc.filter.operations,
{
    let w = window::stopped(before);
    assert(w.doc == before.doc);
    assert(window::filters_toggled(w, after));
    toggled_filters(w, after);
}

proof fn toggled_filters(w: WinView, after: WinView)
    requires
        window::filters_toggled(w, after),
    ensures
        after.doc.filter.enabled == !w.doc.filter.enabled,
        after.doc.filter.operations == w.doc.filter.operations,
{
    let (f, doc) = choose|f: PersistentFilter, doc: DocView|
        {
            &&& f.enabled == !w.doc.filter.enabled
            &&& f.operations == w.doc.filter.operations
            &&& f.generation == w.doc.filter.generation.wrapping_add(1)
            &&& #[trigger] window::refiltered(w.doc, f, doc)
            &&& after == window::with_doc(w, doc)
        };
    assert(window::refiltered(w.doc, f, doc));
    refiltering_sets_filter(w.doc, f, doc);
    assert(after.doc == doc);
}

/// The marks of a list after an action, at one place.
pub open spec fn marked_after(before: WinView, action: Action, k: int) -> bool {
    let v = before.doc.list;
    match action {
        Action::MarkSet => v.files[k].marked || v.current == Some(k),
        Action::MarkUnset => v.files[k].marked && v.current != Some(k),
        Action::MarkInvertAll => !v.files[k].marked,
        _ => v.files[k].marked != (v.current matches Some(i) && k <= i),
    }
}

/// Setting a mark marks the current entry and taking it back unmarks it; inverting turns
/// over every mark, or those up to the current entry. Nothing else of an entry changes, and
/// only setting a mark moves on.
pub proof fn marks_are_changed(before: WinView, action: Action, after: WinView, k: int)
    requires
        before.doc.list.valid(),
        action == Action::MarkSet || action == Action::MarkUnset || action
            == Action::MarkInvertAll || action == Action::MarkInvertToHere,
        window::executed(before, action, after),
        0 <= k < before.doc.list.files.len(),
    ensures
        after.doc.list.files.len() == before.doc.list.files.len(),
        after.doc.list.files[k] == (FileInfo {
            marked: marked_after(before, action, k),
            ..before.doc.list.files[k]
        }),
        action != Action::MarkSet ==> after.doc.list.current == before.doc.list.current,
{
    let w = window::stopped(before);
    let how = action::spec_task_of(action)->Mark_0;
    let doc = choose|doc: DocView| #[trigger]
        window::marks(w.doc, how, doc) && after == window::marks_shown(w, how, doc);
    assert(after.doc == doc);
    if action == Action::MarkSet {
        if let Some(i) = before.doc.list.current {
            let d = DocView { list: file_list::with_mark(w.doc.list, i, true), ..w.doc };
            let (l, m) = file_list::moved_by(d.list, 1);
            window::action_laws::navigated_list(
                d,
                file_list::NavigationDirection::Forward,
                l,
                m,
                doc,
            );
            assert(l.files == d.list.files);
        }
    }
}

/// The slide show gets half a second faster or slower, between half a second and half a
/// minute, and goes on as it did.
pub proof fn slides_change_pace(before: WinView, action: Action, after: WinView)
    requires
        action == Action::SlideshowFaster || action == Action::SlideshowSlower,
        500 <= before.slideshow.interval_ms <= 30000,
        window::executed(before, action, after),
    ensures
        ({
            let i = before.slideshow.interval_ms as int;
            &&& action == Action::SlideshowFaster && i >= 1000 ==> after.slideshow.interval_ms == i
                - 500
            &&& action == Action::SlideshowFaster && i < 1000 ==> after.slideshow.interval_ms == 500
            &&& action == Action::SlideshowSlower && i <= 29500 ==> after.slideshow.interval_ms == i
                + 500
            &&& action == Action::SlideshowSlower && i > 29500 ==> after.slideshow.interval_ms
                == 30000
        }),
        after.slideshow.active == before.slideshow.active,
        after.slideshow.repeat == before.slideshow.repeat,
{
}

/// The slide show starts where it stands still and there are two entries, and stops where
/// it runs.
pub proof fn slides_start_and_stop(before: WinView, after: WinView)
    requires
        window::executed(before, Action::SlideshowToggle, after),
    ensures
        after.slideshow == (Slideshow {
            active: !before.slideshow.active && before.doc.list.files.len() >= 2,
            ..before.slideshow
        }),
        after.doc == before.doc,
{
}

/// Each toggle turns over its own state of the window and no other.
pub proof fn toggles_turn_over(before: WinView, action: Action, after: WinView)
    requires
        action == Action::ToggleFullscreen || action == Action::ToggleAlwaysOnTop || action
            == Action::ToggleMenuBar || action == Action::ToggleFileList,
        window::executed(before, action, after),
    ensures
        after.fullscreen == (before.fullscreen != (action == Action::ToggleFullscreen)),
        after.always_on_top == (before.always_on_top != (action == Action::ToggleAlwaysOnTop)),
        after.menu_visible == (before.menu_visible != (action == Action::ToggleMenuBar)),
        after.panel_visible == (before.panel_visible != (action == Action::ToggleFileList)),
        after.doc == before.doc,
        after.selection == before.selection,
{
}

/// Closing everything leaves no entry and no image.
pub proof fn closing_leaves_nothing(before: WinView, after: WinView)
    requires
        window::executed(before, Action::CloseAll, after),
    ensures
        after.doc.list.files.len() == 0,
        after.doc.list.current is None,
        after.doc.image is None,
        after.doc.containers.len() == 0,
        after.doc.temp_dirs.len() == 0,
        after.selection is None,
{
}

/// Deselecting leaves nothing selected and the document as it is.
pub proof fn deselecting_keeps_document(before: WinView, after: WinView)
    requires
        window::executed(before, Action::DeselectSelection, after),
    ensures
        after.selection is None,
        !after.dragging,
        after.doc == before.doc,
{
}

/// Different actions come to different tasks, but for the two names of a single step
/// forward and of a single step back.
pub proof fn actions_are_told_apart(a: Action, b: Action)
    requires
        action::spec_task_of(a) == action::spec_task_of(b),
    ensures
        a == b || ((a == Action::NavigateBack || a == Action::Navigate1Back) && (b
            == Action::NavigateBack || b == Action::Navigate1Back)) || ((a
            == Action::NavigateForward || a == Action::Navigate1Forward) && (b
            == Action::NavigateForward || b == Action::Navigate1Forward)),
{
}

/// A number written in digits is read as it is, and behind a minus sign as its opposite.
pub proof fn written_numbers_are_read(n: nat)
    requires
        n <= 0x7fff_ffff,
    ensures
        edit::signed_in(text::decimal(n)) == Some(n as int),
        edit::signed_in(seq!['-'] + text::decimal(n)) == Some(-(n as int)),
{
    let d = text::decimal(n);
    text::decimal_denotes(n);
    text::decimal_read_back(n, 0x7fff_ffff);
    text::decimal_read_back(n, 0x8000_0000);
    assert(text::is_digit(d[0]));
    assert((seq!['-'] + d).skip(1) =~= d);
}

} // verus!
