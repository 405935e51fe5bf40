//! What the user's changes of the list and requests come to.

use vstd::prelude::*;

use super::action::{Action, ListChange, Request, ViewChange};
use super::{edit, Command, WinView};
use crate::document;
use crate::document::{expansion, list, loading, DocView};
use crate::file_info::FileInfo;
use crate::file_list;
use crate::file_list::{groups, natural_sort};
use crate::filter::transform;
use crate::image::DecodedImage;
use crate::persistent_filter;
use crate::persistent_filter::{FilterKind, PersistentFilter};
use crate::window;
use crate::window::action;
use crate::window::action_laws;
use crate::window::edit_laws;

verus! {

/// What follows a change of the list keeps the list, but that no entry counts as failed.
proof fn change_keeps_list(before: DocView, after: DocView)
    requires
        list::list_changed(before, after),
    ensures
        after.list == document::without_failures(before.list),
{
    let dropped = document::cache_dropped(before);
    let mid = choose|mid: DocView|
        {
            &&& #[trigger] expansion::rescheduled(dropped, mid)
            &&& {
                let d = document::told(mid, document::types::DocumentEvent::FileListChanged);
                if d.list.files.len() > 0 {
                    loading::loads(d, after)
                } else {
                    after == document::told(
                        (DocView { image: None, ..d }),
                        document::types::DocumentEvent::ImageReady,
                    )
                }
            }
        };
    assert(mid.list == dropped.list);
    let d = document::told(mid, document::types::DocumentEvent::FileListChanged);
    if d.list.files.len() > 0 {
        action_laws::loading_keeps_list(d, after);
    }
}

/// Removing the current entry from the list leaves the paths of the others in their order.
pub proof fn current_is_removed(before: WinView, after: WinView, k: int)
    requires
        before.doc.list.valid(),
        before.doc.list.current is Some,
        0 <= k < before.doc.list.files.len() - 1,
        window::executed(before, Action::RemoveFromList, after),
    ensures
        after.doc.list.files.len() == before.doc.list.files.len() - 1,
        after.doc.list.files[k].path == before.doc.list.files[if k < before.doc.list.current->0 {
            k
        } else {
            k + 1
        }].path,
{
    let w = window::stopped(before);
    let i = before.doc.list.current->0;
    let doc = choose|doc: DocView| #[trigger]
        window::changes(w.doc, ListChange::RemoveCurrent, doc) && after == window::with_doc(w, doc);
    change_keeps_list((DocView { list: file_list::without(w.doc.list, i), ..w.doc }), doc);
}

/// Removing the marked entries leaves none that is marked, and as many as were not.
pub proof fn marked_are_removed(before: WinView, after: WinView, k: int)
    requires
        0 <= k < after.doc.list.files.len(),
        window::executed(before, Action::MarkedRemoveFromList, after),
    ensures
        !after.doc.list.files[k].marked,
        after.doc.list.files.len() == before.doc.list.files.len() - file_list::marked_number(
            before.doc.list,
        ),
{
    let w = window::stopped(before);
    let v = before.doc.list;
    let doc = choose|doc: DocView| #[trigger]
        window::changes(w.doc, ListChange::RemoveMarked, doc) && after == window::with_doc(w, doc);
    file_list::laws::marked_are_parted(v);
    if file_list::marked_number(v) == 0 {
        none_is_marked(v.files, k);
    } else {
        change_keeps_list((DocView { list: file_list::unmarked_only(w.doc.list), ..w.doc }), doc);
    }
}

proof fn none_is_marked(files: Seq<FileInfo>, k: int)
    requires
        0 <= k < files.len(),
        files.filter(|f: FileInfo| f.marked).len() == 0,
    ensures
        !files[k].marked,
{
    let p = |f: FileInfo| f.marked;
    if files[k].marked {
        files.lemma_filter_contains(p, k);
        assert(files.filter(p).contains(files[k]));
    }
}

/// Shuffling the list puts the entry whose number is drawn first at its end, and leaves as
/// many entries as there were.
pub proof fn list_is_shuffled(before: WinView, after: WinView)
    requires
        2 <= before.doc.list.files.len() <= usize::MAX,
        window::executed(before, Action::ShuffleAll, after),
    ensures
        after.doc.list.files.len() == before.doc.list.files.len(),
        exists|state: u64|
            state != 0 && after.doc.list.files.last().path
                == before.doc.list.files[#[trigger] natural_sort::number_drawn(
                state,
                before.doc.list.files.len() as int,
            )].path,
{
    let w = window::stopped(before);
    let v = before.doc.list;
    let n = v.files.len() as int;
    let doc = choose|doc: DocView| #[trigger]
        window::changes(w.doc, ListChange::ShuffleAll, doc) && after == window::with_doc(w, doc);
    let state = choose|state: u64|
        state != 0 && list::list_changed(
            (DocView { list: #[trigger] file_list::shuffled_list(w.doc.list, state), ..w.doc }),
            doc,
        );
    let shuffled = file_list::shuffled_list(v, state);
    change_keeps_list((DocView { list: shuffled, ..w.doc }), doc);
    file_list::order_laws::shuffle_puts_first_drawn_last(v, state);
    natural_sort::drawn_below(state, n);
    assert(after.doc.list.files.last().path == shuffled.files.last().path);
    assert(after.doc.list.files.last().path == v.files[natural_sort::number_drawn(
        state,
        n,
    )].path);
}

/// Shuffling the groups leaves the entries of each folder and container together.
pub proof fn groups_are_shuffled(before: WinView, after: WinView, i: int, j: int, k: int)
    requires
        before.doc.list.files.len() <= usize::MAX,
        window::executed(before, Action::ShuffleGroups, after),
        0 <= i <= j <= k < after.doc.list.files.len(),
        groups::group_of(after.doc.list.files[i]) == groups::group_of(after.doc.list.files[k]),
    ensures
        groups::group_of(after.doc.list.files[j]) == groups::group_of(after.doc.list.files[i]),
{
    let w = window::stopped(before);
    let v = before.doc.list;
    let doc = choose|doc: DocView| #[trigger]
        window::changes(w.doc, ListChange::ShuffleGroups, doc) && after == window::with_doc(w, doc);
    let state = choose|state: u64|
        state != 0 && list::list_changed(
            (DocView {
                list: #[trigger] file_list::group_shuffled_list(w.doc.list, state),
                ..w.doc
            }),
            doc,
        );
    let mixed = file_list::group_shuffled_list(v, state);
    change_keeps_list((DocView { list: mixed, ..w.doc }), doc);
    assert(groups::group_of(after.doc.list.files[i]) == groups::group_of(mixed.files[i]));
    assert(groups::group_of(after.doc.list.files[j]) == groups::group_of(mixed.files[j]));
    assert(groups::group_of(after.doc.list.files[k]) == groups::group_of(mixed.files[k]));
    file_list::laws::group_shuffle_keeps_together(v, state, i, j, k);
}

/// Reloading stays on the entry and tries those again that failed.
pub proof fn reloading_tries_again(before: WinView, after: WinView, k: int)
    requires
        0 <= k < before.doc.list.files.len(),
        window::executed(before, Action::Reload, after),
    ensures
        after.doc.list.current == before.doc.list.current,
        after.doc.list.files.len() == before.doc.list.files.len(),
        after.doc.list.files[k] == (FileInfo { load_failed: false, ..before.doc.list.files[k] }),
{
    let w = window::stopped(before);
    let d = window::guarded(w).doc;
    let doc = choose|doc: DocView| #[trigger]
        window::moves(d, action::Move::Reload, doc) && after == window::with_doc(
            window::guarded(w),
            doc,
        );
    action_laws::loading_keeps_list(document::cache_dropped(d), doc);
}

/// Cropping shows the selected part of the image and leaves nothing selected.
pub proof fn selection_is_cropped(before: WinView, after: WinView)
    requires
        before.selection is Some,
        before.doc.image is Some,
        window::executed(before, Action::Crop, after),
    ensures
        after.doc.image matches Some(b) && transform::cropped(
            before.doc.image->0,
            before.selection->0,
            b,
        ),
        after.selection is None,
{
    let w = window::stopped(before);
    let (rect, picture) = (w.selection->0, w.doc.image->0);
    let (result, mid) = choose|result: DecodedImage, mid: WinView|
        {
            &&& #[trigger] transform::cropped(picture, rect, result)
            &&& #[trigger] edit::edited(window::deselected(w), result, mid)
            &&& after == window::noted(mid, Command::UpdateTitle)
        };
    let doc = choose|doc: DocView| #[trigger]
        edit::edit_shown(window::deselected(w).doc, result, doc) && mid == window::noted(
            (WinView { doc, ..window::deselected(w) }),
            Command::ProcessEvents,
        );
    assert(doc.image == Some(result));
}

/// The kind of filter with parameters that an action takes out or asks for.
pub open spec fn asked_kind(action: Action) -> Option<FilterKind> {
    match action {
        Action::PFilterLevels => Some(FilterKind::Levels),
        Action::PFilterGamma => Some(FilterKind::Gamma),
        Action::PFilterBrightnessContrast => Some(FilterKind::BrightnessContrast),
        Action::PFilterGaussianBlur => Some(FilterKind::GaussianBlur),
        Action::PFilterUnsharpMask => Some(FilterKind::UnsharpMask),
        _ => None,
    }
}

/// A filter with parameters is taken out where it is there; else its parameters are asked
/// for, and the filters stay.
pub proof fn parameters_are_asked_for(before: WinView, action: Action, after: WinView)
    requires
        asked_kind(action) is Some,
        window::executed(before, action, after),
    ensures
        !persistent_filter::has_kind(after.doc.filter.operations@, asked_kind(action)->0),
        !persistent_filter::has_kind(before.doc.filter.operations@, asked_kind(action)->0)
            ==> after.commands.last() == Command::AskFilter(asked_kind(action)->0)
            && after.doc == before.doc,
{
    let kind = asked_kind(action)->0;
    let w = window::stopped(before);
    assert(action::spec_task_of(action) == action::Task::RemoveOrAsk(kind));
    assert(window::removed_or_asked(w, kind, after));
    if persistent_filter::has_kind(w.doc.filter.operations@, kind) {
        removed_filter(w, kind, after);
    }
}

proof fn removed_filter(w: WinView, kind: FilterKind, after: WinView)
    requires
        persistent_filter::has_kind(w.doc.filter.operations@, kind),
        window::removed_or_asked(w, kind, after),
    ensures
        !persistent_filter::has_kind(after.doc.filter.operations@, kind),
{
    let (f, doc) = choose|f: PersistentFilter, doc: DocView|
        {
            &&& window::filter_removed(w.doc.filter, kind, f)
            &&& #[trigger] window::refiltered(w.doc, f, doc)
            &&& after == window::with_doc(w, doc)
        };
    edit_laws::refiltering_sets_filter(w.doc, f, doc);
    edit_laws::removed_has_none(w.doc.filter.operations@, kind, kind);
}

/// What an action asks the system for.
pub open spec fn request_of(action: Action) -> Option<Request> {
    match action {
        Action::OpenFile => Some(Request::OpenFile),
        Action::OpenFolder => Some(Request::OpenFolder),
        Action::PasteImage => Some(Request::PasteImage),
        Action::BookmarkLoad => Some(Request::BookmarkLoad),
        Action::NavigateToPage => Some(Request::NavigateToPage),
        Action::Minimize => Some(Request::Minimize),
        Action::ToggleCursorHide => Some(Request::ToggleCursorHide),
        Action::DeleteFile => Some(Request::DeleteFile),
        Action::MoveFile => Some(Request::MoveFile),
        Action::CopyFile => Some(Request::CopyFile),
        Action::MarkedDelete => Some(Request::MarkedDelete),
        Action::MarkedMove => Some(Request::MarkedMove),
        Action::MarkedCopy => Some(Request::MarkedCopy),
        Action::MarkedCopyNames => Some(Request::MarkedCopyNames),
        Action::CopyFileName => Some(Request::CopyFileName),
        Action::NewWindow => Some(Request::NewWindow),
        Action::OpenContainingFolder => Some(Request::OpenContainingFolder),
        Action::OpenExeFolder => Some(Request::OpenExeFolder),
        Action::OpenBookmarkFolder => Some(Request::OpenBookmarkFolder),
        Action::OpenSpiFolder => Some(Request::OpenSpiFolder),
        Action::OpenTempFolder => Some(Request::OpenTempFolder),
        Action::ShowImageInfo => Some(Request::ShowImageInfo),
        Action::ShowHelp => Some(Request::ShowHelp),
        Action::CheckUpdate => Some(Request::CheckUpdate),
        Action::RegisterShell => Some(Request::RegisterShell),
        Action::UnregisterShell => Some(Request::UnregisterShell),
        Action::BookmarkSave => Some(Request::BookmarkSave),
        Action::Exit => Some(Request::Exit),
        Action::CopyImage => Some(Request::CopyImage),
        Action::ExportJpg => Some(Request::ExportJpg),
        Action::ExportBmp => Some(Request::ExportBmp),
        Action::ExportPng => Some(Request::ExportPng),
        Action::RotateArbitrary => Some(Request::RotateArbitrary),
        Action::Resize => Some(Request::Resize),
        Action::Fill => Some(Request::Fill),
        Action::Levels => Some(Request::Levels),
        Action::Gamma => Some(Request::Gamma),
        Action::BrightnessContrast => Some(Request::BrightnessContrast),
        Action::Mosaic => Some(Request::Mosaic),
        Action::GaussianBlur => Some(Request::GaussianBlur),
        Action::UnsharpMask => Some(Request::UnsharpMask),
        _ => None,
    }
}

/// The request is about the shown image.
pub open spec fn is_of_image(request: Request) -> bool {
    match request {
        Request::CopyImage => true,
        Request::ExportJpg => true,
        Request::ExportBmp => true,
        Request::ExportPng => true,
        Request::RotateArbitrary => true,
        Request::Resize => true,
        Request::Fill => true,
        Request::Levels => true,
        Request::Gamma => true,
        Request::BrightnessContrast => true,
        Request::Mosaic => true,
        Request::GaussianBlur => true,
        Request::UnsharpMask => true,
        _ => false,
    }
}

/// An action that needs the system asks it for exactly that, and where it is about the
/// shown image, only if there is one. The list stays.
pub proof fn requests_are_passed_on(before: WinView, action: Action, after: WinView)
    requires
        request_of(action) is Some,
        window::executed(before, action, after),
    ensures
        after.doc.list == before.doc.list,
        !is_of_image(request_of(action)->0) || before.doc.image is Some ==> after.commands.last()
            == Command::Ask(request_of(action)->0),
        is_of_image(request_of(action)->0) && before.doc.image is None ==> after
            == window::stopped(before),
{
    requests_are_tasks(action);
}

proof fn requests_are_tasks(action: Action)
    requires
        request_of(action) is Some,
    ensures
        is_of_image(request_of(action)->0) ==> action::spec_task_of(action)
            == action::Task::AskOfImage(request_of(action)->0),
        !is_of_image(request_of(action)->0) ==> action::spec_task_of(action) == action::Task::Ask(
            request_of(action)->0,
        ) || action::spec_task_of(action) == action::Task::AskGuarded(request_of(action)->0),
{
}

/// How an action changes the layout.
pub open spec fn layout_of(action: Action) -> Option<ViewChange> {
    match action {
        Action::DisplayAutoShrink => Some(ViewChange::DisplayAutoShrink),
        Action::DisplayAutoFit => Some(ViewChange::DisplayAutoFit),
        Action::ZoomIn => Some(ViewChange::ZoomIn),
        Action::ZoomOut => Some(ViewChange::ZoomOut),
        Action::ZoomReset => Some(ViewChange::ZoomReset),
        Action::ToggleMargin => Some(ViewChange::ToggleMargin),
        Action::CycleAlphaBackground => Some(ViewChange::CycleAlphaBackground),
        _ => None,
    }
}

/// A change of the layout is asked for and the window drawn again; zooming needs an image.
pub proof fn layout_is_changed(before: WinView, action: Action, after: WinView)
    requires
        layout_of(action) is Some,
        before.doc.image is Some,
        window::executed(before, action, after),
    ensures
        after.doc == before.doc,
        after.commands.len() >= 2,
        after.commands[after.commands.len() - 2] == Command::View(layout_of(action)->0),
        after.commands.last() == Command::Invalidate,
{
}

} // verus!
