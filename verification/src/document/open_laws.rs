//! What holds of opened files and of given paths.

use vstd::prelude::*;

use super::states;
use super::types::{ContainerResult, ContainerState};
use super::utils;
use super::{container, expansion, loading, open, DocView};
use crate::document;
use crate::extension_registry;
use crate::file_info::{FileInfo, FileMetadata, FileSource};
use crate::file_list;
use crate::file_list::{FolderEntry, ListView};
use crate::ordering;
use crate::paths;
use crate::window::action_laws;

verus! {

/// The entry of a folder is an image file that can be read: its extension, in lower case,
/// is one of those of images.
pub open spec fn is_image_file(images: Seq<String>, e: FolderEntry) -> bool {
    &&& e.is_file
    &&& e.metadata is Some
    &&& paths::spec_file_name(e.path@) matches Some(name) && (paths::spec_extension(
        name,
    ) matches Some(ext) && extension_registry::listed(images, crate::text::lowercase_of(ext)))
}

proof fn images_are_found(images: Seq<String>, entries: Seq<FolderEntry>, k: int) -> (j: int)
    requires
        0 <= k < entries.len(),
        is_image_file(images, entries[k]),
    ensures
        0 <= j < file_list::images_among(images, entries).len(),
        file_list::images_among(images, entries)[j] == entries[k],
{
    let p = |e: FolderEntry|
        e.is_file && e.metadata is Some && (paths::spec_file_name(e.path@) matches Some(name)
            && extension_registry::name_listed(images, name));
    entries.lemma_filter_contains(p, k);
    let found = file_list::images_among(images, entries);
    assert(found == entries.filter(p));
    assert(found.contains(entries[k]));
    choose|j: int| 0 <= j < found.len() && found[j] == entries[k]
}

proof fn found_are_images(images: Seq<String>, entries: Seq<FolderEntry>, j: int)
    requires
        0 <= j < file_list::images_among(images, entries).len(),
    ensures
        is_image_file(images, file_list::images_among(images, entries)[j]),
        entries.contains(file_list::images_among(images, entries)[j]),
{
    let p = |e: FolderEntry|
        e.is_file && e.metadata is Some && (paths::spec_file_name(e.path@) matches Some(name)
            && extension_registry::name_listed(images, name));
    let found = file_list::images_among(images, entries);
    assert(found == entries.filter(p));
    entries.lemma_filter_pred(p, j);
    entries.lemma_filter_contains_rev(p, found[j]);
    assert(found.contains(found[j]));
}

/// A list filled from a folder holds each image file of the folder, and nothing else.
pub proof fn filled_holds_images(
    before: ListView,
    images: Seq<String>,
    entries: Seq<FolderEntry>,
    after: ListView,
)
    requires
        entries.len() <= usize::MAX,
        file_list::filled(before, images, entries, after),
    ensures
        forall|k: int|
            0 <= k < entries.len() && is_image_file(images, #[trigger] entries[k])
                ==> exists|i: int|
                0 <= i < after.files.len() && (#[trigger] after.files[i]).path@ == entries[k].path@,
        forall|i: int|
            0 <= i < after.files.len() ==> exists|k: int|
                0 <= k < entries.len() && is_image_file(images, #[trigger] entries[k]) && (
                #[trigger] after.files[i]).path@ == entries[k].path@,
{
    let wanted = file_list::images_among(images, entries);
    entries.lemma_filter_len(
        |e: FolderEntry|
            e.is_file && e.metadata is Some && (paths::spec_file_name(e.path@) matches Some(name)
                && extension_registry::name_listed(images, name)),
    );
    assert(wanted.len() <= entries.len());
    let found = choose|found: Seq<FileInfo>| #[trigger]
        file_list::lists(found, wanted) && ordering::stably_sorted(
            (file_list::sort::ByOrder { order: before.order }),
            found,
            after.files,
        );
    let o = choose|o: Seq<usize>|
        {
            &&& #[trigger] ordering::arranges(o, 0, found.len() as int)
            &&& after.files == ordering::reordered(found, o)
            &&& ordering::in_order((file_list::sort::ByOrder { order: before.order }), found, o)
        };
    assert forall|k: int|
        0 <= k < entries.len() && is_image_file(images, #[trigger] entries[k]) implies exists|i: int|
        0 <= i < after.files.len() && (#[trigger] after.files[i]).path@ == entries[k].path@ by {
        let j = images_are_found(images, entries, k);
        assert(found[j].path@ == wanted[j].path@);
        ordering::arranged_contains(o, found.len() as int, j as usize);
        let i = choose|i: int| 0 <= i < o.len() && o[i] == j as usize;
        assert(after.files[i].path@ == entries[k].path@);
    }
    assert forall|i: int| 0 <= i < after.files.len() implies exists|k: int|
        0 <= k < entries.len() && is_image_file(images, #[trigger] entries[k]) && (
        #[trigger] after.files[i]).path@ == entries[k].path@ by {
        let j = o[i] as int;
        found_are_images(images, entries, j);
        assert(found[j].path@ == wanted[j].path@);
        let k = choose|k: int| 0 <= k < entries.len() && entries[k] == wanted[j];
        assert(is_image_file(images, entries[k]) && after.files[i].path@ == entries[k].path@);
    }
}

proof fn path_is_first(files: Seq<FileInfo>, at: paths::Location, k: int, i: int)
    requires
        0 <= k <= i < files.len(),
        paths::location(files[i].path@) == at,
    ensures
        file_list::path_from(files, at, k) matches Some(j) && k <= j <= i && paths::location(
            files[j].path@,
        ) == at,
    decreases i - k,
{
    if paths::location(files[k].path@) != at {
        path_is_first(files, at, k + 1, i);
    }
}

/// Opening an image file lists the images of its folder and shows that file.
pub proof fn opened_file_is_shown(
    before: DocView,
    path: Seq<char>,
    listing: open::FolderListing,
    after: DocView,
    r: bool,
    k: int,
)
    requires
        open::file_opened(before, path, listing, after, r),
        listing matches open::FolderListing::Entries(entries) && 0 <= k < entries@.len()
            && is_image_file(before.extensions.images@, entries@[k]) && paths::location(
            entries@[k].path@,
        ) == paths::location(path),
    ensures
        r,
        after.list.current matches Some(i) && 0 <= i < after.list.files.len() && paths::location(
            after.list.files[i].path@,
        ) == paths::location(path),
        after.list.order == before.list.order,
        forall|j: int|
            0 <= j < listing->Entries_0@.len() && is_image_file(
                before.extensions.images@,
                #[trigger] listing->Entries_0@[j],
            ) ==> exists|i: int|
                0 <= i < after.list.files.len() && (#[trigger] after.list.files[i]).path@
                    == listing->Entries_0@[j].path@,
{
    let entries = listing->Entries_0;
    let d = open::refreshed(before);
    let list = choose|list: ListView|
        {
            &&& #[trigger] file_list::filled(d.list, d.extensions.images@, entries@, list)
            &&& loading::loads(
                document::told(
                    (DocView {
                        list: match file_list::path_from(
                            list.files,
                            paths::location(path),
                            0,
                        ) {
                            Some(i) => list.at(i),
                            None => list,
                        },
                        ..d
                    }),
                    document::types::DocumentEvent::FileListChanged,
                ),
                after,
            )
        };
    assert(entries.len() == entries@.len());
    filled_holds_images(d.list, d.extensions.images@, entries@, list);
    let i = choose|i: int|
        0 <= i < list.files.len() && (#[trigger] list.files[i]).path@ == entries@[k].path@;
    path_is_first(list.files, paths::location(path), 0, i);
    let j = file_list::path_from(list.files, paths::location(path), 0)->0;
    action_laws::loading_keeps_list(
        document::told(
            (DocView { list: list.at(j), ..d }),
            document::types::DocumentEvent::FileListChanged,
        ),
        after,
    );
}

/// Of given paths, each place is kept once, and none is lost.
pub proof fn places_are_kept_once(all: Seq<String>)
    ensures
        forall|i: int, j: int|
            0 <= i < j < utils::deduplicated(all).len() ==> paths::location(
                #[trigger] utils::deduplicated(all)[i]@,
            ) != paths::location(#[trigger] utils::deduplicated(all)[j]@),
        forall|i: int|
            0 <= i < all.len() ==> exists|j: int|
                0 <= j < utils::deduplicated(all).len() && paths::location(
                    #[trigger] utils::deduplicated(all)[j]@,
                ) == paths::location(#[trigger] all[i]@),
        forall|j: int|
            0 <= j < utils::deduplicated(all).len() ==> all.contains(
                #[trigger] utils::deduplicated(all)[j],
            ),
    decreases all.len(),
{
    if all.len() > 0 {
        let less = all.drop_last();
        places_are_kept_once(less);
        let rest = utils::deduplicated(less);
        let r = utils::deduplicated(all);
        let n = all.len() - 1;
        assert forall|i: int, j: int| 0 <= i < j < r.len() implies paths::location(
            #[trigger] r[i]@,
        ) != paths::location(#[trigger] r[j]@) by {
            if j == rest.len() {
                assert(less.contains(rest[i]));
                let k = choose|k: int| 0 <= k < less.len() && less[k] == rest[i];
                assert(paths::location(all[k]@) != paths::location(all[n]@));
            } else {
                assert(paths::location(rest[i]@) != paths::location(rest[j]@));
            }
        }
        assert forall|i: int| 0 <= i < all.len() implies exists|j: int|
            0 <= j < r.len() && paths::location(#[trigger] r[j]@) == paths::location(
                #[trigger] all[i]@,
            ) by {
            if i < n {
                assert(less[i] == all[i]);
                let j = choose|j: int|
                    0 <= j < rest.len() && paths::location(#[trigger] rest[j]@) == paths::location(
                        less[i]@,
                    );
                assert(r[j] == rest[j]);
            } else if utils::is_new(all, n) {
                assert(r[rest.len() as int] == all[n]);
            } else {
                let k = choose|k: int|
                    0 <= k < n && paths::location(#[trigger] all[k]@) == paths::location(all[n]@);
                assert(less[k] == all[k]);
                let j = choose|j: int|
                    0 <= j < rest.len() && paths::location(#[trigger] rest[j]@) == paths::location(
                        less[k]@,
                    );
                assert(r[j] == rest[j]);
            }
        }
        assert forall|j: int| 0 <= j < r.len() implies all.contains(#[trigger] r[j]) by {
            if j < rest.len() {
                assert(less.contains(rest[j]));
                let k = choose|k: int| 0 <= k < less.len() && less[k] == rest[j];
                assert(all[k] == r[j]);
            } else {
                assert(all[n] == r[j]);
            }
        }
    }
}

/// Containers that wait stand at the end of the list, a placeholder for each in their
/// order, and count as pending.
pub proof fn waiting_containers_are_listed(
    before: DocView,
    waiting: Seq<String>,
    lookup: Seq<Option<FileMetadata>>,
    after: DocView,
    k: int,
)
    requires
        states::distinct(before.states),
        open::queued(before, waiting, lookup, after),
        0 <= k < waiting.len(),
    ensures
        after.list.files.len() == before.list.files.len() + waiting.len(),
        after.list.files.take(before.list.files.len() as int) == before.list.files,
        after.list.files[before.list.files.len() + k].source == (FileSource::PendingContainer {
            container_path: waiting[k],
        }),
        after.list.current == before.list.current,
        states::state_of(after.states, paths::location(waiting[k]@)) == Some(
            ContainerState::Pending,
        ),
{
    let infos = choose|infos: Seq<FileInfo>|
        {
            &&& #[trigger] open::are_placeholders(infos, waiting, lookup)
            &&& after == DocView {
                list: ListView { files: before.list.files + infos, ..before.list },
                states: states::with_all(before.states, waiting, ContainerState::Pending),
                containers: before.containers + waiting,
                ..before
            }
        };
    assert(after.list.files.take(before.list.files.len() as int) =~= before.list.files);
    assert(open::is_placeholder(infos[k], waiting[k], lookup[k]));
    states::all_set_are_found(
        before.states,
        waiting,
        ContainerState::Pending,
        paths::location(waiting[k]@),
    );
    assert(paths::location(waiting[k]@) == paths::location(waiting[k]@));
}

/// The images of a container that was read stand at the end of the list, each in the
/// container, which counts as expanded; one that could not be read, or has none, adds
/// nothing.
pub proof fn container_images_are_listed(
    before: DocView,
    result: ContainerResult,
    now: i128,
    after: DocView,
    i: int,
)
    requires
        states::distinct(before.states),
        open::integrated(before, result, now, after),
        before.list.files.len() <= i < after.list.files.len(),
    ensures
        after.list.files.take(before.list.files.len() as int) == before.list.files,
        after.list.files[i].source.holder() == open::path_of(result)@,
        !after.list.files[i].marked,
        !(after.list.files[i].source is PendingContainer),
        states::state_of(after.states, paths::location(open::path_of(result)@)) == Some(
            ContainerState::Expanded,
        ),
        !(result is Error),
{
    if !open::is_barren(result) {
        let entries = choose|entries: Seq<FileInfo>|
            {
                &&& #[trigger] container::entries_of(result, now, entries)
                &&& after == DocView {
                    list: ListView { files: before.list.files + entries, ..before.list },
                    states: states::with_state(
                        before.states,
                        paths::location(open::path_of(result)@),
                        ContainerState::Expanded,
                    ),
                    containers: before.containers.push(open::path_of(result)),
                    ..expansion::kept(before, result)
                }
            };
        assert(after.list.files.take(before.list.files.len() as int) =~= before.list.files);
        let e = entries[i - before.list.files.len()];
        assert(after.list.files[i] == e);
        states::set_is_found(
            before.states,
            paths::location(open::path_of(result)@),
            ContainerState::Expanded,
            paths::location(open::path_of(result)@),
        );
    }
}

/// Bookmarks, containers and images are told apart by their extensions; what is none of
/// them is left.
pub proof fn candidates_are_told_apart(d: DocView, path: Seq<char>)
    ensures
        open::kind_of(d, path) == open::CandidateKind::Bookmark <==> crate::bookmark::is_bookmark(
            path,
        ),
        open::kind_of(d, path) == open::CandidateKind::Container ==> (document::is_pdf_path(path)
            || document::is_archive_path(d.archives, path)) && !crate::bookmark::is_bookmark(path),
        open::kind_of(d, path) == open::CandidateKind::Image ==> (paths::spec_file_name(
            path,
        ) matches Some(name) && (paths::spec_extension(name) matches Some(ext)
            && extension_registry::listed(
            d.extensions.images@,
            crate::text::lowercase_of(ext),
        ))),
{
}

} // verus!
