//! What holds of marked files, transfers and menu marks.

use vstd::prelude::*;

use super::edit_laws;
use super::files;
use super::files::TransferKind;
use super::menu;
use super::WinView;
use crate::document::{list, loading, DocView};
use crate::file_info::{FileInfo, FileSource};
use crate::file_list::{ListView, NavigationDirection};
use crate::persistent_filter;
use crate::window;
use crate::window::action;
use crate::window::action::Action;
use crate::window::action_laws;

verus! {

/// Only a file of its own is moved. What lies in an archive stays there and is written or
/// copied out; pages and containers that are not expanded are left.
pub proof fn containers_are_not_emptied(source: FileSource)
    ensures
        files::move_kind_of(source) == Some(TransferKind::MoveFile) <==> source is File,
        source matches FileSource::ArchiveEntry { on_demand, .. } ==> files::move_kind_of(source)
            == Some(
            if on_demand {
                TransferKind::WriteEntry
            } else {
                TransferKind::CopyFile
            },
        ),
        source is PdfPage || source is PendingContainer ==> files::move_kind_of(source) is None,
{
}

/// The marked files are the paths of the marked entries and no others.
pub proof fn marked_files_are_marked(v: ListView, p: String)
    ensures
        files::marked_files(v).contains(p) <==> exists|i: int|
            0 <= i < v.files.len() && (#[trigger] v.files[i]).marked && v.files[i].path == p,
{
    let test = |f: FileInfo| f.marked;
    let name = |f: FileInfo| f.path;
    let marked = v.files.filter(test);
    let all = files::marked_files(v);
    assert(all == marked.map_values(name));
    if all.contains(p) {
        let j = choose|j: int| 0 <= j < all.len() && all[j] == p;
        v.files.lemma_filter_pred(test, j);
        v.files.lemma_filter_contains_rev(test, marked[j]);
        assert(marked.contains(marked[j]));
        let i = choose|i: int| 0 <= i < v.files.len() && v.files[i] == marked[j];
        assert(v.files[i].marked && v.files[i].path == p);
    }
    if exists|i: int|
        0 <= i < v.files.len() && (#[trigger] v.files[i]).marked && v.files[i].path == p {
        let i = choose|i: int|
            0 <= i < v.files.len() && (#[trigger] v.files[i]).marked && v.files[i].path == p;
        v.files.lemma_filter_contains(test, i);
        let j = choose|j: int| 0 <= j < marked.len() && marked[j] == v.files[i];
        assert(all[j] == p);
    }
}

/// The folder of the marked files is that of the first of them.
pub proof fn first_marked_is_first(v: ListView, k: int)
    requires
        0 <= k <= v.files.len(),
    ensures
        match files::first_marked(v, k) {
            Some(i) => k <= i < v.files.len() && v.files[i].marked && forall|j: int|
                k <= j < i ==> !(#[trigger] v.files[j]).marked,
            None => forall|j: int| k <= j < v.files.len() ==> !(#[trigger] v.files[j]).marked,
        },
    decreases v.files.len() - k,
{
    if k < v.files.len() && !v.files[k].marked {
        first_marked_is_first(v, k + 1);
    }
}

/// The text of the marked entries ends with the shown path of the last of them; the text
/// of those before stands in front of it on lines of its own.
pub proof fn marked_text_goes_on(v: ListView, k: int, end: int)
    requires
        0 <= k < end <= v.files.len(),
        v.files[k].marked,
        forall|j: int| k < j < end ==> !(#[trigger] v.files[j]).marked,
    ensures
        (forall|j: int| 0 <= j < k ==> !(#[trigger] v.files[j]).marked) ==> files::marked_lines(
            v,
            end,
        ) == v.files[k].source.shown(),
        (exists|j: int| 0 <= j < k && (#[trigger] v.files[j]).marked) ==> files::marked_lines(
            v,
            end,
        ) == files::marked_lines(v, k) + "\r\n"@ + v.files[k].source.shown(),
    decreases end,
{
    if k < end - 1 {
        assert(!v.files[end - 1].marked);
        marked_text_goes_on(v, k, end - 1);
    }
}

/// The menu item of a filter for every image is checked exactly where there is such a
/// filter, and enabled where the filters are in use.
pub proof fn filter_items_are_checked(w: WinView, i: int)
    requires
        0 <= i < menu::filter_states(w).len(),
        edit_laws::switched_kind(menu::filter_states(w)[i].action) is Some,
    ensures
        menu::filter_states(w)[i].checked == persistent_filter::has_kind(
            w.doc.filter.operations@,
            edit_laws::switched_kind(menu::filter_states(w)[i].action)->0,
        ),
        menu::filter_states(w)[i].enabled == Some(w.doc.filter.enabled),
{
    let item = menu::filter_items()[i];
    assert(menu::filter_states(w)[i].action == item.0);
    assert(edit_laws::switched_kind(item.0) == Some(item.1));
}

/// Every filter for every image that is put in or out by an action has its menu item.
pub proof fn filters_have_items(action: Action)
    requires
        edit_laws::switched_kind(action) is Some,
    ensures
        menu::filter_items().contains((action, edit_laws::switched_kind(action)->0)),
{
    let items = menu::filter_items();
    let i: int = match action {
        Action::PFilterFlipH => 0,
        Action::PFilterFlipV => 1,
        Action::PFilterRotate180 => 2,
        Action::PFilterRotate90CW => 3,
        Action::PFilterRotate90CCW => 4,
        Action::PFilterGrayscaleSimple => 8,
        Action::PFilterGrayscaleStrict => 9,
        Action::PFilterBlur => 10,
        Action::PFilterBlurStrong => 11,
        Action::PFilterSharpen => 12,
        Action::PFilterSharpenStrong => 13,
        Action::PFilterMedianFilter => 16,
        Action::PFilterInvertColors => 17,
        _ => 18,
    };
    assert(items[i] == (action, edit_laws::switched_kind(action)->0));
}

/// The way that the user last went is remembered: where the position waits for a container,
/// it comes in from that side.
pub proof fn direction_is_remembered(before: WinView, action: Action, after: WinView)
    requires
        action_laws::strides(action) is Some,
        window::executed(before, action, after),
    ensures
        after.doc.direction == (if action_laws::strides(action)->0 < 0 {
            NavigationDirection::Backward
        } else {
            NavigationDirection::Forward
        }),
{
    let o = action_laws::strides_are_tasks(action);
    let w = window::stopped(before);
    let d = window::guarded(w).doc;
    let how = action::Move::By(o);
    let doc = choose|doc: DocView| #[trigger]
        window::moves(d, how, doc) && after == window::with_doc(window::guarded(w), doc);
    let (l, m) = crate::file_list::moved_by(d.list, o as int);
    let moved = DocView { direction: list::towards(o as int), list: l, ..d };
    if m {
        assert(loading::loads(moved, doc));
        action_laws::loading_keeps_list(moved, doc);
    }
}

} // verus!
