//! Opening files, folders, containers and bookmarks.

use vstd::prelude::*;

use super::container;
use super::container::build_container_entries;
use super::states;
use super::states::StatesView;
use super::types::{ContainerResult, ContainerState, DocumentError, DocumentEvent, Effect};
use super::utils;
use super::utils::sort_paths_natural;
use super::{expansion, loading};
use super::{DocView, Document};
use crate::bookmark;
use crate::bookmark::{is_bookmark_file, BookmarkData};
use crate::document;
use crate::extension_registry;
use crate::file_info::{FileInfo, FileMetadata, FileSource};
use crate::file_list;
use crate::file_list::{FileList, FolderEntry, ListError, ListView};
use crate::ordering;
use crate::paths;
use crate::paths::{file_name_of, parent_of, same_path, Location};
use crate::text::{join2, join3};

verus! {

/// What opening a path begins with.
#[derive(Debug)]
pub enum OpenKind {
    /// A bookmark is read.
    Bookmark,
    /// A container is opened.
    Container,
    /// The images of the folder are listed.
    Folder(String),
    /// The path has no folder.
    Nowhere,
}

/// What is known of the folder of a file that is opened.
#[derive(Debug)]
pub enum FolderListing {
    NoFolder,
    Unreadable,
    Entries(Vec<FolderEntry>),
}

/// A list without entries and position.
pub open spec fn emptied(list: ListView) -> ListView {
    ListView { files: Seq::empty(), current: None, ..list }
}

/// The containers and what was decoded are forgotten.
pub open spec fn refreshed(d: DocView) -> DocView {
    document::cache_dropped(document::cleaned_up(d))
}

/// All is forgotten, and the expansion is given up.
pub open spec fn reset(d: DocView) -> DocView {
    let fresh = refreshed(d);
    expansion::abandoned(
        DocView {
            list: emptied(fresh.list),
            states: StatesView::empty(),
            intent: None,
            ..fresh
        },
    )
}

/// What opening a file comes to.
pub open spec fn file_opened(
    before: DocView,
    path: Seq<char>,
    listing: FolderListing,
    after: DocView,
    r: bool,
) -> bool {
    match listing {
        FolderListing::NoFolder => r && loading::loads(document::cleaned_up(before), after),
        FolderListing::Unreadable => {
            let d = refreshed(before);
            !r && after == DocView { list: emptied(d.list), ..d }
        },
        FolderListing::Entries(entries) => {
            let d = refreshed(before);
            &&& r
            &&& exists|list: ListView|
                {
                    &&& #[trigger] file_list::filled(
                        d.list,
                        d.extensions.images@,
                        entries@,
                        list,
                    )
                    &&& loading::loads(
                        document::told(
                            (DocView {
                                list: match file_list::path_from(
                                    list.files,
                                    paths::location(path),
                                    0,
                                ) {
                                    Some(i) => list.at(i),
                                    None => list,
                                },
                                ..d
                            }),
                            DocumentEvent::FileListChanged,
                        ),
                        after,
                    )
                }
        },
    }
}

/// The container gives no images.
pub open spec fn is_barren(result: ContainerResult) -> bool {
    match result {
        ContainerResult::Error { .. } => true,
        ContainerResult::Pdf { page_count, .. } => page_count == 0,
        ContainerResult::Zip { images, .. } => images@.len() == 0,
        ContainerResult::TempExtracted { entries, .. } => entries@.len() == 0,
    }
}

/// The path of a container.
pub open spec fn path_of(result: ContainerResult) -> String {
    match result {
        ContainerResult::Error { path, .. } => path,
        ContainerResult::Pdf { path, .. } => path,
        ContainerResult::Zip { path, .. } => path,
        ContainerResult::TempExtracted { path, .. } => path,
    }
}

/// A container's entries were put at the end of the list. One that gives no
/// images changes nothing.
pub open spec fn integrated(before: DocView, result: ContainerResult, now: i128, after: DocView)
    -> bool {
    if is_barren(result) {
        after == before
    } else {
        exists|entries: Seq<FileInfo>|
            {
                &&& #[trigger] container::entries_of(result, now, entries)
                &&& after == DocView {
                    list: ListView { files: before.list.files + entries, ..before.list },
                    states: states::with_state(
                        before.states,
                        paths::location(path_of(result)@),
                        ContainerState::Expanded,
                    ),
                    containers: before.containers.push(path_of(result)),
                    ..expansion::kept(before, result)
                }
            }
    }
}

/// The entry stands for a container that is not expanded yet.
pub open spec fn is_placeholder(info: FileInfo, path: String, metadata: Option<FileMetadata>)
    -> bool {
    &&& info.path == path
    &&& info.source == (FileSource::PendingContainer { container_path: path })
    &&& info.file_name@ == utils::name_of(path@)
    &&& info.file_size == (match metadata {
        Some(m) => m.size,
        None => 0,
    })
    &&& info.modified == (match metadata {
        Some(m) => m.modified,
        None => 0,
    })
    &&& !info.marked
    &&& !info.load_failed
}

/// The entries stand for the containers.
pub open spec fn are_placeholders(
    infos: Seq<FileInfo>,
    paths: Seq<String>,
    lookup: Seq<Option<FileMetadata>>,
) -> bool {
    &&& infos.len() == paths.len()
    &&& forall|k: int|
        0 <= k < infos.len() ==> is_placeholder(#[trigger] infos[k], paths[k], lookup[k])
}

/// Placeholders for containers were put at the end of the list.
pub open spec fn queued(
    before: DocView,
    paths: Seq<String>,
    lookup: Seq<Option<FileMetadata>>,
    after: DocView,
) -> bool {
    exists|infos: Seq<FileInfo>|
        {
            &&& #[trigger] are_placeholders(infos, paths, lookup)
            &&& after == DocView {
                list: ListView { files: before.list.files + infos, ..before.list },
                states: states::with_all(before.states, paths, ContainerState::Pending),
                containers: before.containers + paths,
                ..before
            }
        }
}

/// Containers were put at the end of the list one after the other.
pub open spec fn integrated_all(
    steps: Seq<DocView>,
    results: Seq<ContainerResult>,
    now: i128,
) -> bool {
    &&& steps.len() == results.len() + 1
    &&& forall|k: int|
        0 <= k < results.len() ==> #[trigger] integrated(steps[k], results[k], now, steps[k + 1])
}

/// The containers that were read are in the list, and the others are queued.
pub open spec fn containers_added(
    before: DocView,
    results: Seq<ContainerResult>,
    rest: Seq<String>,
    lookup: Seq<Option<FileMetadata>>,
    now: i128,
    after: DocView,
) -> bool {
    exists|steps: Seq<DocView>|
        {
            &&& #[trigger] integrated_all(steps, results, now)
            &&& steps[0] == before
            &&& queued(steps.last(), rest, lookup, after)
        }
}

/// The sorted list is shown from its start.
pub open spec fn at_start(d: DocView, list: ListView) -> DocView {
    document::told(
        (DocView { list: file_list::moved_to(list, 0).0, ..d }),
        DocumentEvent::FileListChanged,
    )
}

/// The list is sorted and shown from its start, and the queued containers are
/// expanded.
pub open spec fn shown_from_start(d: DocView, after: DocView) -> bool {
    exists|list: ListView, mid: DocView|
        {
            &&& #[trigger] file_list::resorted(d.list, d.list.order, list)
            &&& #[trigger] expansion::started(at_start(d, list), mid)
            &&& loading::loads(mid, after)
        }
}

/// A container that could not be read.
#[derive(Debug)]
pub struct Failure {
    pub path: String,
    pub error: String,
}

/// The failures in words, each on a line.
pub open spec fn failure_lines(failures: Seq<Failure>) -> Seq<char>
    decreases failures.len(),
{
    if failures.len() == 0 {
        Seq::empty()
    } else {
        let f = failures.last();
        let line = f.path@ + ": "@ + f.error@;
        if failures.len() == 1 {
            line
        } else {
            failure_lines(failures.drop_last()) + "\n"@ + line
        }
    }
}

/// The failures in words, each on a line.
pub fn list_failures(failures: &Vec<Failure>) -> (r: String)
    ensures
        r@ == failure_lines(failures@),
{
    let mut r = String::new();
    let mut i: usize = 0;
    assert(failures@.take(0) =~= Seq::empty());
    assert(r@ =~= failure_lines(failures@.take(0)));
    while i < failures.len()
        invariant
            i <= failures@.len(),
            r@ == failure_lines(failures@.take(i as int)),
        decreases failures.len() - i,
    {
        assert(failures@.take(i + 1).drop_last() =~= failures@.take(i as int));
        assert(failures@.take(i + 1).last() == failures@[i as int]);
        let line = join3(failures[i].path.as_str(), ": ", failures[i].error.as_str());
        r =
        if i == 0 {
            line
        } else {
            join3(r.as_str(), "\n", line.as_str())
        };
        i = i + 1;
    }
    assert(failures@.take(failures@.len() as int) =~= failures@);
    r
}

/// Why nothing could be opened.
#[derive(Debug)]
pub enum OpenError {
    /// There are no images.
    NoImages,
    /// Containers could not be read.
    Failed(Vec<Failure>),
}

impl OpenError {
    pub open spec fn spec_message(&self, containers_only: bool) -> Seq<char> {
        match self {
            OpenError::NoImages => if containers_only {
                "コンテナ内に画像ファイルが存在しない"@
            } else {
                "画像ファイルが存在しない"@
            },
            OpenError::Failed(failures) => (if containers_only {
                "全てのコンテナの読み込みに失敗:\n"@
            } else {
                "読み込みに失敗:\n"@
            }) + failure_lines(failures@),
        }
    }

    /// The error in words, for containers or for mixed inputs.
    pub fn message(&self, containers_only: bool) -> (r: String)
        ensures
            r@ == self.spec_message(containers_only),
    {
        match self {
            OpenError::NoImages => if containers_only {
                "コンテナ内に画像ファイルが存在しない".to_owned()
            } else {
                "画像ファイルが存在しない".to_owned()
            },
            OpenError::Failed(failures) => {
                let what = list_failures(failures);
                if containers_only {
                    join2("全てのコンテナの読み込みに失敗:\n", what.as_str())
                } else {
                    join2("読み込みに失敗:\n", what.as_str())
                }
            },
        }
    }
}

/// What the last step of opening comes to. Without images there is an error.
pub open spec fn open_finished(
    before: DocView,
    failures: Vec<Failure>,
    after: DocView,
    r: Result<(), OpenError>,
) -> bool {
    if before.list.files.len() == 0 {
        &&& after == before
        &&& if failures@.len() == 0 {
            r == Err::<(), OpenError>(OpenError::NoImages)
        } else {
            r == Err::<(), OpenError>(OpenError::Failed(failures))
        }
    } else {
        &&& r is Ok
        &&& shown_from_start(
            if failures@.len() > 0 {
                document::told(
                    before,
                    DocumentEvent::Error(
                        DocumentError::Unopened { count: failures@.len() as usize },
                    ),
                )
            } else {
                before
            },
            after,
        )
    }
}

/// The containers that could not be read, in order.
pub open spec fn unread(results: Seq<ContainerResult>) -> Seq<ContainerResult> {
    results.filter(|r: ContainerResult| r is Error)
}

/// The failures are those of the containers that could not be read.
pub open spec fn are_failures(failures: Seq<Failure>, results: Seq<ContainerResult>) -> bool {
    &&& failures.len() == unread(results).len()
    &&& forall|k: int|
        0 <= k < failures.len() ==> unread(results)[k] == (ContainerResult::Error {
            path: (#[trigger] failures[k]).path,
            error: failures[k].error,
        })
}

/// A file among the inputs.
pub struct Candidate {
    pub path: String,
    /// None where the metadata could not be read.
    pub metadata: Option<FileMetadata>,
    /// It was found in a folder.
    pub nested: bool,
}

/// What a file is to a document.
#[derive(Debug, Clone, Copy, PartialEq, Eq, Structural)]
pub enum CandidateKind {
    Bookmark,
    Container,
    Image,
    Other,
}

/// What the path is to the document.
pub open spec fn kind_of(d: DocView, path: Seq<char>) -> CandidateKind {
    if bookmark::is_bookmark(path) {
        CandidateKind::Bookmark
    } else if document::is_container_path(d.archives, path) {
        CandidateKind::Container
    } else if paths::spec_file_name(path) matches Some(name) && extension_registry::name_listed(
        d.extensions.images@,
        name,
    ) {
        CandidateKind::Image
    } else {
        CandidateKind::Other
    }
}

/// The containers and bookmarks among the inputs.
pub struct Gathered {
    /// Containers that were given themselves, or by bookmarks.
    pub toplevel: Vec<String>,
    /// Containers that were found in folders.
    pub folder: Vec<String>,
    pub bookmarks: Vec<String>,
}

/// The candidates of a kind, in order.
pub open spec fn of_kind(d: DocView, all: Seq<Candidate>, kind: CandidateKind) -> Seq<Candidate> {
    all.filter(|c: Candidate| kind_of(d, c.path@) == kind)
}

/// The images that can be read, in order.
pub open spec fn readable_images(d: DocView, all: Seq<Candidate>) -> Seq<Candidate> {
    all.filter(
        |c: Candidate| kind_of(d, c.path@) == CandidateKind::Image && c.metadata is Some,
    )
}

/// The containers that were given themselves, or those found in folders.
pub open spec fn containers_in(d: DocView, all: Seq<Candidate>, nested: bool) -> Seq<Candidate> {
    if nested {
        all.filter(
            |c: Candidate| kind_of(d, c.path@) == CandidateKind::Container && c.nested,
        )
    } else {
        all.filter(
            |c: Candidate| kind_of(d, c.path@) == CandidateKind::Container && !c.nested,
        )
    }
}

/// The paths of candidates.
pub open spec fn paths_of(all: Seq<Candidate>) -> Seq<String> {
    all.map_values(|c: Candidate| c.path)
}

/// The entries are the candidates', fresh.
pub open spec fn fresh_entries(infos: Seq<FileInfo>, all: Seq<Candidate>) -> bool {
    &&& infos.len() == all.len()
    &&& forall|i: int|
        0 <= i < infos.len() ==> {
            &&& all[i].metadata matches Some(m) && (#[trigger] infos[i]).describes(
                all[i].path@,
                m.size,
                m.modified,
            )
            &&& !infos[i].marked
            &&& !infos[i].load_failed
        }
}

/// One of the paths denotes the place.
pub open spec fn holds_place(paths: Seq<String>, at: Location) -> bool {
    exists|i: int| 0 <= i < paths.len() && paths::location(#[trigger] paths[i]@) == at
}

/// The container of a source that a bookmark names in a list: that of an archive's
/// entry, or one that was not expanded.
pub open spec fn named_container(source: FileSource) -> Option<String> {
    match source {
        FileSource::ArchiveEntry { archive, .. } => Some(archive),
        FileSource::PendingContainer { container_path } => Some(container_path),
        _ => None,
    }
}

/// The containers with those that a bookmark names and that are not there yet.
pub open spec fn with_named(
    toplevel: Seq<String>,
    folder: Seq<String>,
    entries: Seq<FileSource>,
) -> Seq<String>
    decreases entries.len(),
{
    if entries.len() == 0 {
        toplevel
    } else {
        let so_far = with_named(toplevel, folder, entries.drop_last());
        match named_container(entries.last()) {
            Some(path) => if holds_place(so_far, paths::location(path@)) || holds_place(
                folder,
                paths::location(path@),
            ) {
                so_far
            } else {
                so_far.push(path)
            },
            None => so_far,
        }
    }
}

/// A bookmark's plain files that can be read, as candidates.
pub open spec fn is_readable_file(
    entries: Seq<FileSource>,
    lookup: Seq<Option<FileMetadata>>,
    i: int,
) -> bool {
    entries[i] is File && lookup[i] is Some
}

/// The places of a bookmark's plain files that can be read, before `end`.
pub open spec fn readable_places(
    entries: Seq<FileSource>,
    lookup: Seq<Option<FileMetadata>>,
    end: int,
) -> Seq<int>
    decreases end,
{
    if end <= 0 {
        Seq::empty()
    } else if is_readable_file(entries, lookup, end - 1) {
        readable_places(entries, lookup, end - 1).push(end - 1)
    } else {
        readable_places(entries, lookup, end - 1)
    }
}

/// The entries are those of a bookmark's plain files, fresh.
pub open spec fn bookmarked_entries(
    infos: Seq<FileInfo>,
    entries: Seq<FileSource>,
    lookup: Seq<Option<FileMetadata>>,
    end: int,
) -> bool {
    let places = readable_places(entries, lookup, end);
    &&& infos.len() == places.len()
    &&& forall|k: int|
        0 <= k < infos.len() ==> {
            &&& entries[places[k]] matches FileSource::File(path)
            &&& lookup[places[k]] matches Some(m)
            &&& (#[trigger] infos[k]).describes(path@, m.size, m.modified)
            &&& !infos[k].marked
            &&& !infos[k].load_failed
        }
}

/// What a bookmark among the inputs holds.
pub struct ReadBookmark {
    pub entries: Vec<FileSource>,
    /// For each source the metadata of its file, where that exists.
    pub lookup: Vec<Option<FileMetadata>>,
}

/// The document with entries behind those of its list.
pub open spec fn with_entries(d: DocView, infos: Seq<FileInfo>) -> DocView {
    DocView { list: ListView { files: d.list.files + infos, ..d.list }, ..d }
}

/// The images among the inputs that can be read went into the list.
pub open spec fn images_taken(d: DocView, candidates: Seq<Candidate>, after: DocView) -> bool {
    exists|infos: Seq<FileInfo>| #[trigger]
        fresh_entries(infos, readable_images(d, candidates)) && after == with_entries(d, infos)
}

/// A bookmark's plain files that can be read went into the list.
pub open spec fn files_taken(
    d: DocView,
    entries: Seq<FileSource>,
    lookup: Seq<Option<FileMetadata>>,
    after: DocView,
) -> bool {
    exists|infos: Seq<FileInfo>| #[trigger]
        bookmarked_entries(infos, entries, lookup, entries.len() as int) && after == with_entries(
            d,
            infos,
        )
}

/// The containers that were given themselves, with those that bookmarks name.
pub open spec fn with_all_named(
    toplevel: Seq<String>,
    folder: Seq<String>,
    bookmarks: Seq<ReadBookmark>,
) -> Seq<String>
    decreases bookmarks.len(),
{
    if bookmarks.len() == 0 {
        toplevel
    } else {
        with_named(
            with_all_named(toplevel, folder, bookmarks.drop_last()),
            folder,
            bookmarks.last().entries@,
        )
    }
}

/// The bookmarks' files went into the list, one bookmark after the other.
pub open spec fn all_files_taken(steps: Seq<DocView>, bookmarks: Seq<ReadBookmark>) -> bool {
    &&& steps.len() == bookmarks.len() + 1
    &&& forall|k: int|
        0 <= k < bookmarks.len() ==> #[trigger] files_taken(
            steps[k],
            bookmarks[k].entries@,
            bookmarks[k].lookup@,
            steps[k + 1],
        )
}

/// The inputs' images, and then the bookmarks' files, went into the list.
pub open spec fn inputs_listed(
    d: DocView,
    candidates: Seq<Candidate>,
    bookmarks: Seq<ReadBookmark>,
    after: DocView,
) -> bool {
    exists|steps: Seq<DocView>|
        {
            &&& #[trigger] all_files_taken(steps, bookmarks)
            &&& images_taken(d, candidates, steps[0])
            &&& steps.last() == after
        }
}

/// The inputs' containers in the order in which they are opened: those given
/// themselves or by bookmarks, in the natural order of their names, and then those
/// found in folders.
pub open spec fn inputs_containers(
    d: DocView,
    candidates: Seq<Candidate>,
    bookmarks: Seq<ReadBookmark>,
    containers: Seq<String>,
) -> bool {
    let folder = paths_of(containers_in(d, candidates, true));
    let toplevel = with_all_named(
        paths_of(containers_in(d, candidates, false)),
        folder,
        bookmarks,
    );
    exists|sorted: Seq<String>| #[trigger]
        ordering::stably_sorted(utils::ByFileName, toplevel, sorted) && containers == sorted
            + folder
}

/// The containers that were read went into the list, with placeholders for the
/// rest; then the list is shown from its start, or there are no images.
pub open spec fn opened(
    d: DocView,
    results: Seq<ContainerResult>,
    rest: Seq<String>,
    lookup: Seq<Option<FileMetadata>>,
    now: i128,
    after: DocView,
    r: Result<(), OpenError>,
) -> bool {
    exists|mid: DocView, failures: Vec<Failure>|
        {
            &&& #[trigger] containers_added(d, results, rest, lookup, now, mid)
            &&& are_failures(failures@, results)
            &&& #[trigger] open_finished(mid, failures, after, r)
        }
}

fn any_holds(paths: &Vec<String>, path: &str) -> (r: bool)
    ensures
        r == holds_place(paths@, paths::location(path@)),
{
    let mut i: usize = 0;
    while i < paths.len()
        invariant
            i <= paths@.len(),
            forall|k: int|
                0 <= k < i ==> paths::location(#[trigger] paths@[k]@) != paths::location(path@),
        decreases paths.len() - i,
    {
        if same_path(paths[i].as_str(), path) {
            return true;
        }
        i = i + 1;
    }
    false
}

/// The containers in the order in which they are opened: those given themselves
/// in the natural order of their names, then those found in folders.
pub fn containers_to_open(gathered: Gathered) -> (r: Vec<String>)
    ensures
        exists|sorted: Seq<String>| #[trigger]
            ordering::stably_sorted(utils::ByFileName, gathered.toplevel@, sorted) && r@ == sorted
                + gathered.folder@,
{
    let Gathered { toplevel, folder, .. } = gathered;
    let mut folder = folder;
    let ghost nested = folder@;
    let mut sorted = sort_paths_natural(toplevel);
    let ghost first = sorted@;
    sorted.append(&mut folder);
    assert(sorted@ =~= first + nested);
    sorted
}

/// The containers that are read at once, the first one, and those that wait.
pub fn first_at_once(paths: &Vec<String>) -> (r: (Vec<String>, Vec<String>))
    ensures
        paths@.len() == 0 ==> r.0@.len() == 0 && r.1@.len() == 0,
        paths@.len() > 0 ==> r.0@ == seq![paths@[0]] && r.1@ == paths@.skip(1),
{
    let mut first: Vec<String> = Vec::new();
    let mut rest: Vec<String> = Vec::new();
    if paths.len() > 0 {
        first.push(paths[0].clone());
        let mut i: usize = 1;
        while i < paths.len()
            invariant
                1 <= i <= paths@.len(),
                rest@ == paths@.subrange(1, i as int),
            decreases paths.len() - i,
        {
            rest.push(paths[i].clone());
            i = i + 1;
            assert(rest@ =~= paths@.subrange(1, i as int));
        }
        assert(first@ =~= seq![paths@[0]]);
        assert(rest@ =~= paths@.skip(1));
    }
    (first, rest)
}

/// How a bookmark is opened.
#[derive(Debug)]
pub enum BookmarkPlan {
    /// Its containers are opened.
    Containers(Vec<String>),
    /// Its files are listed.
    Files,
    /// None of its containers exists.
    Missing,
}

/// The container of a source.
pub open spec fn container_of(source: FileSource) -> Option<String> {
    match source {
        FileSource::File(_) => None,
        FileSource::ArchiveEntry { archive, .. } => Some(archive),
        FileSource::PdfPage { pdf_path, .. } => Some(pdf_path),
        FileSource::PendingContainer { container_path } => Some(container_path),
    }
}

/// The existing containers of a bookmark's sources, each once, in order.
pub open spec fn existing_containers(entries: Seq<FileSource>, exist: Seq<bool>) -> Seq<String>
    decreases entries.len(),
{
    if entries.len() == 0 {
        Seq::empty()
    } else {
        let so_far = existing_containers(entries.drop_last(), exist);
        match container_of(entries.last()) {
            Some(path) => if exist[entries.len() - 1] && !holds_place(
                so_far,
                paths::location(path@),
            ) {
                so_far.push(path)
            } else {
                so_far
            },
            None => so_far,
        }
    }
}

/// Some source lies in a container.
pub open spec fn names_container(entries: Seq<FileSource>) -> bool {
    exists|i: int| 0 <= i < entries.len() && !((#[trigger] entries[i]) is File)
}

/// How a bookmark is opened. `exist` tells of each source whether its container
/// exists.
pub fn plan_bookmark(entries: &Vec<FileSource>, exist: &Vec<bool>) -> (r: BookmarkPlan)
    requires
        exist@.len() == entries@.len(),
    ensures
        if !names_container(entries@) {
            r is Files
        } else if existing_containers(entries@, exist@).len() == 0 {
            r is Missing
        } else {
            r matches BookmarkPlan::Containers(found) && found@ == existing_containers(
                entries@,
                exist@,
            )
        },
{
    let mut found: Vec<String> = Vec::new();
    let mut named = false;
    let mut i: usize = 0;
    assert(entries@.take(0) =~= Seq::empty());
    while i < entries.len()
        invariant
            exist@.len() == entries@.len(),
            i <= entries@.len(),
            named == (exists|k: int| 0 <= k < i && !((#[trigger] entries@[k]) is File)),
            found@ == existing_containers(entries@.take(i as int), exist@),
        decreases entries.len() - i,
    {
        assert(entries@.take(i + 1).drop_last() =~= entries@.take(i as int));
        assert(entries@.take(i + 1).last() == entries@[i as int]);
        let path = match &entries[i] {
            FileSource::File(_) => None,
            FileSource::ArchiveEntry { archive, .. } => Some(archive.clone()),
            FileSource::PdfPage { pdf_path, .. } => Some(pdf_path.clone()),
            FileSource::PendingContainer { container_path } => Some(container_path.clone()),
        };
        match path {
            Some(p) => {
                assert(!(entries@[i as int] is File));
                named = true;
                if exist[i] && !any_holds(&found, p.as_str()) {
                    found.push(p);
                }
            },
            None => {},
        }
        i = i + 1;
    }
    assert(entries@.take(entries@.len() as int) =~= entries@);
    if !named {
        BookmarkPlan::Files
    } else if found.len() == 0 {
        BookmarkPlan::Missing
    } else {
        BookmarkPlan::Containers(found)
    }
}

/// The smaller of two numbers.
pub open spec fn lesser(a: int, b: int) -> int {
    if a < b {
        a
    } else {
        b
    }
}

/// Where a bookmark's position lies in the list: at the entry with the source,
/// else at the same number, but in the list.
pub open spec fn bookmarked_place(files: Seq<FileInfo>, source: FileSource, index: int) -> int {
    match file_list::source_from(files, source, 0) {
        Some(i) => i,
        None => lesser(
            index,
            if files.len() == 0 {
                0
            } else {
                files.len() - 1
            },
        ),
    }
}

impl Document {
    /// What opening the path begins with.
    pub fn open_kind(&self, path: &str) -> (r: OpenKind)
        ensures
            if document::is_container_path(self@.archives, path@) {
                if bookmark::is_bookmark(path@) {
                    r is Bookmark
                } else {
                    r is Container
                }
            } else {
                match paths::spec_parent(path@) {
                    Some(folder) => r matches OpenKind::Folder(f) && f@ == folder,
                    None => r is Nowhere,
                }
            },
    {
        if is_bookmark_file(path) {
            OpenKind::Bookmark
        } else if Self::is_pdf(path) || self.archives.is_archive(path) {
            OpenKind::Container
        } else {
            match parent_of(path) {
                Some(folder) => OpenKind::Folder(folder),
                None => OpenKind::Nowhere,
            }
        }
    }

    /// Opens a file among the images of its folder. False where the folder could
    /// not be read.
    pub fn open(&mut self, path: &str, listing: FolderListing) -> (r: bool)
        requires
            old(self).wf(),
        ensures
            final(self).wf(),
            file_opened(old(self)@, path@, listing, final(self)@, r),
    {
        self.cleanup_archive_temp();
        match listing {
            FolderListing::NoFolder => {
                self.load_current();
                true
            },
            FolderListing::Unreadable => {
                self.invalidate_cache();
                self.file_list.clear();
                false
            },
            FolderListing::Entries(entries) => {
                self.invalidate_cache();
                let ghost d = self@;
                self.file_list.populate_from_folder(&entries);
                let ghost list = self@.list;
                assert(file_list::filled(d.list, d.extensions.images@, entries@, list));
                let _ = self.file_list.set_current_by_path(path);
                self.tell(DocumentEvent::FileListChanged);
                self.load_current();
                true
            },
        }
    }

    /// Opens one file without its folder.
    pub fn open_single(&mut self, path: &str, metadata: Option<FileMetadata>) -> (r: Result<
        (),
        ListError,
    >)
        requires
            old(self).wf(),
        ensures
            final(self).wf(),
            ({
                let d = refreshed(old(self)@);
                exists|list: ListView|
                    {
                        &&& #[trigger] file_list::filled_by_one(d.list, path@, metadata, list, r)
                        &&& if r is Ok {
                            loading::loads(
                                document::told(
                                    (DocView { list, ..d }),
                                    DocumentEvent::FileListChanged,
                                ),
                                final(self)@,
                            )
                        } else {
                            final(self)@ == (DocView { list, ..d })
                        }
                    }
            }),
    {
        self.cleanup_archive_temp();
        self.invalidate_cache();
        let ghost d = self@;
        let r = self.file_list.populate_single(path, metadata);
        let ghost list = self@.list;
        assert(file_list::filled_by_one(d.list, path@, metadata, list, r));
        assert(self@ == DocView { list, ..d });
        if r.is_ok() {
            self.tell(DocumentEvent::FileListChanged);
            self.load_current();
        }
        r
    }

    /// Forgets all, before containers or several inputs are opened.
    pub fn reset_document_state(&mut self)
        requires
            old(self).wf(),
        ensures
            final(self).wf(),
            final(self)@ == reset(old(self)@),
    {
        self.cleanup_archive_temp();
        self.invalidate_cache();
        self.file_list.clear();
        self.states.clear();
        self.intent = None;
        self.abandon_expansion();
    }

    fn push_all(&mut self, entries: Vec<FileInfo>)
        requires
            old(self).wf(),
        ensures
            final(self).wf(),
            final(self)@ == (DocView {
                list: ListView {
                    files: old(self)@.list.files + entries@,
                    ..old(self)@.list
                },
                ..old(self)@
            }),
    {
        let ghost before = self@;
        let ghost all = entries@;
        assert(all.take(0) =~= Seq::empty());
        assert(before.list.files + all.take(0) =~= before.list.files);
        for info in it: entries
            invariant
                it.seq() == all,
                self.wf(),
                self@ == (DocView {
                    list: ListView {
                        files: before.list.files + all.take(it.index()),
                        ..before.list
                    },
                    ..before
                }),
        {
            self.file_list.push(info);
            assert(before.list.files + all.take(it.index() + 1) =~= (before.list.files + all.take(
                it.index(),
            )).push(info));
        }
        assert(all.take(all.len() as int) =~= all);
    }

    /// Puts a container's entries at the end of the list.
    pub fn integrate_container_result(&mut self, result: ContainerResult, now: i128)
        requires
            old(self).wf(),
        ensures
            final(self).wf(),
            integrated(old(self)@, result, now, final(self)@),
    {
        let entries = build_container_entries(&result, now);
        let ghost before = self@;
        let ghost given = entries@;
        assert(container::entries_of(result, now, given));
        proof {
            states::stays_distinct(
                before.states,
                paths::location(path_of(result)@),
                ContainerState::Expanded,
            );
        }
        match result {
            ContainerResult::Error { .. } => {
                return;
            },
            ContainerResult::Pdf { path, page_count, .. } => {
                if page_count == 0 {
                    return;
                }
                self.states.set(path.as_str(), ContainerState::Expanded);
                self.containers.push(path);
            },
            ContainerResult::Zip { path, images } => {
                if images.len() == 0 {
                    return;
                }
                self.states.set(path.as_str(), ContainerState::Expanded);
                self.containers.push(path.clone());
                self.send(Effect::KeepBuffer(path));
            },
            ContainerResult::TempExtracted { path, temp_dir, entries: files } => {
                if files.len() == 0 {
                    return;
                }
                self.temp_dirs.push(temp_dir);
                self.states.set(path.as_str(), ContainerState::Expanded);
                self.containers.push(path);
            },
        }
        self.push_all(entries);
        assert(integrated(before, result, now, self@));
    }

    /// Puts placeholders for containers at the end of the list. `lookup` holds for
    /// each the metadata, where it could be read.
    pub fn queue_containers(&mut self, paths: &Vec<String>, lookup: &Vec<Option<FileMetadata>>)
        requires
            old(self).wf(),
            lookup@.len() == paths@.len(),
        ensures
            final(self).wf(),
            queued(old(self)@, paths@, lookup@, final(self)@),
    {
        let ghost before = self@;
        let mut infos: Vec<FileInfo> = Vec::new();
        let mut i: usize = 0;
        while i < paths.len()
            invariant
                lookup@.len() == paths@.len(),
                i <= paths@.len(),
                infos@.len() == i,
                self@ == (DocView {
                    containers: before.containers + paths@.take(i as int),
                    ..before
                }),
                forall|k: int|
                    0 <= k < i ==> is_placeholder(#[trigger] infos@[k], paths@[k], lookup@[k]),
            decreases paths.len() - i,
        {
            let path = paths[i].clone();
            let file_name = match file_name_of(path.as_str()) {
                Some(name) => name,
                None => "".to_owned(),
            };
            let file_size: u64 = match &lookup[i] {
                Some(m) => m.size,
                None => 0,
            };
            let modified: i128 = match &lookup[i] {
                Some(m) => m.modified,
                None => 0,
            };
            infos.push(
                FileInfo {
                    path: path.clone(),
                    source: FileSource::PendingContainer { container_path: path.clone() },
                    file_name,
                    file_size,
                    modified,
                    marked: false,
                    load_failed: false,
                },
            );
            self.containers.push(path);
            assert(before.containers + paths@.take(i + 1) =~= (before.containers + paths@.take(
                i as int,
            )).push(path));
            i = i + 1;
        }
        assert(paths@.take(paths@.len() as int) =~= paths@);
        self.states.set_all(paths, ContainerState::Pending);
        proof {
            states::all_stay_distinct(before.states, paths@, ContainerState::Pending);
        }
        let ghost given = infos@;
        assert(are_placeholders(given, paths@, lookup@));
        self.push_all(infos);
        assert(queued(before, paths@, lookup@, self@));
    }

    /// Puts the entries of the containers that were read, and placeholders for the
    /// others, at the end of the list. Returns those that could not be read.
    pub fn process_and_integrate_containers(
        &mut self,
        results: Vec<ContainerResult>,
        rest: &Vec<String>,
        lookup: &Vec<Option<FileMetadata>>,
        now: i128,
    ) -> (r: Vec<Failure>)
        requires
            old(self).wf(),
            lookup@.len() == rest@.len(),
        ensures
            final(self).wf(),
            containers_added(old(self)@, results@, rest@, lookup@, now, final(self)@),
            are_failures(r@, results@),
    {
        let ghost all = results@;
        let ghost mut steps: Seq<DocView> = seq![self@];
        let mut failures: Vec<Failure> = Vec::new();
        proof {
            reveal(Seq::filter);
            assert(unread(all.take(0)) =~= Seq::empty());
        }
        for result in it: results
            invariant
                it.seq() == all,
                self.wf(),
                steps.len() == it.index() + 1,
                steps[0] == old(self)@,
                steps.last() == self@,
                forall|k: int|
                    0 <= k < it.index() ==> #[trigger] integrated(
                        steps[k],
                        all[k],
                        now,
                        steps[k + 1],
                    ),
                are_failures(failures@, all.take(it.index())),
        {
            proof {
                reveal(Seq::filter);
                assert(all.take(it.index() + 1).drop_last() =~= all.take(it.index()));
                assert(all.take(it.index() + 1).last() == result);
            }
            match &result {
                ContainerResult::Error { path, error } => {
                    failures.push(Failure { path: path.clone(), error: error.clone() });
                },
                _ => {},
            }
            assert(are_failures(failures@, all.take(it.index() + 1)));
            self.integrate_container_result(result, now);
            proof {
                steps = steps.push(self@);
            }
        }
        assert(all.take(all.len() as int) =~= all);
        assert(integrated_all(steps, all, now));
        self.queue_containers(rest, lookup);
        failures
    }

    /// Shows what was opened from its start, and tells how many containers could
    /// not be read; an error where there are no images.
    pub fn finish_open(&mut self, failures: Vec<Failure>) -> (r: Result<(), OpenError>)
        requires
            old(self).wf(),
        ensures
            final(self).wf(),
            open_finished(old(self)@, failures, final(self)@, r),
    {
        let count: usize = failures.len();
        if self.file_list.len() == 0 {
            return if count == 0 {
                Err(OpenError::NoImages)
            } else {
                Err(OpenError::Failed(failures))
            };
        }
        if count > 0 {
            self.tell(DocumentEvent::Error(DocumentError::Unopened { count }));
        }
        let ghost d = self@;
        self.file_list.sort_current();
        let ghost list = self@.list;
        assert(file_list::resorted(d.list, d.list.order, list));
        let _ = self.file_list.navigate_first();
        self.tell(DocumentEvent::FileListChanged);
        let ghost ready = self@;
        assert(ready == at_start(d, list));
        self.start_background_expansion();
        let ghost mid = self@;
        assert(expansion::started(ready, mid));
        self.load_current();
        assert(shown_from_start(d, self@));
        Ok(())
    }

    /// Puts the containers that were read into the list, and placeholders for the
    /// others, and shows the list from its start.
    pub fn open_gathered(
        &mut self,
        results: Vec<ContainerResult>,
        rest: &Vec<String>,
        lookup: &Vec<Option<FileMetadata>>,
        now: i128,
    ) -> (r: Result<(), OpenError>)
        requires
            old(self).wf(),
            lookup@.len() == rest@.len(),
        ensures
            final(self).wf(),
            opened(old(self)@, results@, rest@, lookup@, now, final(self)@, r),
    {
        let failures = self.process_and_integrate_containers(results, rest, lookup, now);
        let ghost mid = self@;
        assert(containers_added(old(self)@, results@, rest@, lookup@, now, mid));
        let r = self.finish_open(failures);
        assert(open_finished(mid, failures, self@, r));
        r
    }

    /// Opens containers: those that were read, and placeholders for the others.
    pub fn open_containers(
        &mut self,
        results: Vec<ContainerResult>,
        rest: &Vec<String>,
        lookup: &Vec<Option<FileMetadata>>,
        now: i128,
    ) -> (r: Result<(), OpenError>)
        requires
            old(self).wf(),
            lookup@.len() == rest@.len(),
        ensures
            final(self).wf(),
            opened(reset(old(self)@), results@, rest@, lookup@, now, final(self)@, r),
    {
        self.reset_document_state();
        self.open_gathered(results, rest, lookup, now)
    }

    /// Begins anew with files, the files below folders, and what the bookmarks
    /// among them hold. Lists the images and gives the containers in the order in
    /// which they are opened; the first of them is read for `open_gathered`, and
    /// the others wait.
    pub fn open_multiple(
        &mut self,
        candidates: &Vec<Candidate>,
        bookmarks: &Vec<ReadBookmark>,
    ) -> (r: Vec<String>)
        requires
            old(self).wf(),
            forall|k: int|
                0 <= k < bookmarks@.len() ==> (#[trigger] bookmarks@[k]).lookup@.len()
                    == bookmarks@[k].entries@.len(),
        ensures
            final(self).wf(),
            inputs_listed(reset(old(self)@), candidates@, bookmarks@, final(self)@),
            inputs_containers(reset(old(self)@), candidates@, bookmarks@, r@),
    {
        self.reset_document_state();
        let ghost d = self@;
        let mut gathered = self.gather(candidates);
        let ghost toplevel = gathered.toplevel@;
        let ghost folder = gathered.folder@;
        let ghost mut steps: Seq<DocView> = seq![self@];
        let mut i: usize = 0;
        assert(bookmarks@.take(0) =~= Seq::empty());
        while i < bookmarks.len()
            invariant
                self.wf(),
                i <= bookmarks@.len(),
                forall|k: int|
                    0 <= k < bookmarks@.len() ==> (#[trigger] bookmarks@[k]).lookup@.len()
                        == bookmarks@[k].entries@.len(),
                images_taken(d, candidates@, steps[0]),
                steps.last() == self@,
                all_files_taken(steps, bookmarks@.take(i as int)),
                gathered.folder@ == folder,
                gathered.toplevel@ == with_all_named(
                    toplevel,
                    folder,
                    bookmarks@.take(i as int),
                ),
            decreases bookmarks.len() - i,
        {
            let ghost earlier = bookmarks@.take(i as int);
            let ghost now = bookmarks@.take(i + 1);
            let bookmark = &bookmarks[i];
            self.gather_bookmark(&mut gathered, &bookmark.entries, &bookmark.lookup);
            proof {
                assert(now.drop_last() =~= earlier);
                assert(now.last() == bookmarks@[i as int]);
                let grown = steps.push(self@);
                assert forall|k: int| 0 <= k < now.len() implies #[trigger] files_taken(
                    grown[k],
                    now[k].entries@,
                    now[k].lookup@,
                    grown[k + 1],
                ) by {
                    if k < i {
                        assert(files_taken(
                            steps[k],
                            earlier[k].entries@,
                            earlier[k].lookup@,
                            steps[k + 1],
                        ));
                    }
                }
                steps = grown;
            }
            i = i + 1;
        }
        assert(bookmarks@.take(bookmarks@.len() as int) =~= bookmarks@);
        containers_to_open(gathered)
    }

    /// What the path is to the document.
    pub fn candidate_kind(&self, path: &str) -> (r: CandidateKind)
        ensures
            r == kind_of(self@, path@),
    {
        if is_bookmark_file(path) {
            CandidateKind::Bookmark
        } else if self.is_container(path) {
            CandidateKind::Container
        } else {
            match file_name_of(path) {
                Some(name) => if self.file_list.registry().is_image_extension(name.as_str()) {
                    CandidateKind::Image
                } else {
                    CandidateKind::Other
                },
                None => CandidateKind::Other,
            }
        }
    }

    /// Puts the images among the inputs into the list, and gathers the containers
    /// and bookmarks.
    #[verifier::rlimit(60)]
    pub fn gather(&mut self, candidates: &Vec<Candidate>) -> (r: Gathered)
        requires
            old(self).wf(),
        ensures
            final(self).wf(),
            r.toplevel@ == paths_of(containers_in(old(self)@, candidates@, false)),
            r.folder@ == paths_of(containers_in(old(self)@, candidates@, true)),
            r.bookmarks@ == paths_of(
                of_kind(old(self)@, candidates@, CandidateKind::Bookmark),
            ),
            images_taken(old(self)@, candidates@, final(self)@),
    {
        let ghost d = self@;
        let mut toplevel: Vec<String> = Vec::new();
        let mut folder: Vec<String> = Vec::new();
        let mut bookmarks: Vec<String> = Vec::new();
        let mut infos: Vec<FileInfo> = Vec::new();
        let mut i: usize = 0;
        proof {
            nothing_gathered(d, candidates@);
        }
        while i < candidates.len()
            invariant
                i <= candidates@.len(),
                self@ == d,
                self.wf(),
                toplevel@ == paths_of(containers_in(d, candidates@.take(i as int), false)),
                folder@ == paths_of(containers_in(d, candidates@.take(i as int), true)),
                bookmarks@ == paths_of(
                    of_kind(d, candidates@.take(i as int), CandidateKind::Bookmark),
                ),
                fresh_entries(infos@, readable_images(d, candidates@.take(i as int))),
            decreases candidates.len() - i,
        {
            let c = &candidates[i];
            proof {
                one_more_gathered(d, candidates@, i as int);
            }
            match self.candidate_kind(c.path.as_str()) {
                CandidateKind::Bookmark => bookmarks.push(c.path.clone()),
                CandidateKind::Container => if c.nested {
                    folder.push(c.path.clone())
                } else {
                    toplevel.push(c.path.clone())
                },
                CandidateKind::Image => match &c.metadata {
                    Some(m) => {
                        infos.push(FileInfo::from_path(c.path.as_str(), m));
                    },
                    None => {},
                },
                CandidateKind::Other => {},
            }
            i = i + 1;
        }
        assert(candidates@.take(candidates@.len() as int) =~= candidates@);
        let ghost given = infos@;
        self.push_all(infos);
        assert(fresh_entries(given, readable_images(d, candidates@)));
        Gathered { toplevel, folder, bookmarks }
    }

    /// Puts a bookmark's files into the list, and its containers to the gathered
    /// ones. `lookup` holds for each source the metadata of its file, where that
    /// exists.
    pub fn gather_bookmark(
        &mut self,
        gathered: &mut Gathered,
        entries: &Vec<FileSource>,
        lookup: &Vec<Option<FileMetadata>>,
    )
        requires
            old(self).wf(),
            lookup@.len() == entries@.len(),
        ensures
            final(self).wf(),
            final(gathered).folder == old(gathered).folder,
            final(gathered).bookmarks == old(gathered).bookmarks,
            final(gathered).toplevel@ == with_named(
                old(gathered).toplevel@,
                old(gathered).folder@,
                entries@,
            ),
            files_taken(old(self)@, entries@, lookup@, final(self)@),
    {
        let ghost d = self@;
        let ghost top = gathered.toplevel@;
        let mut i: usize = 0;
        assert(entries@.take(0) =~= Seq::empty());
        while i < entries.len()
            invariant
                lookup@.len() == entries@.len(),
                i <= entries@.len(),
                self@ == d,
                self.wf(),
                gathered.folder == old(gathered).folder,
                gathered.bookmarks == old(gathered).bookmarks,
                gathered.toplevel@ == with_named(
                    top,
                    gathered.folder@,
                    entries@.take(i as int),
                ),
            decreases entries.len() - i,
        {
            assert(entries@.take(i + 1).drop_last() =~= entries@.take(i as int));
            assert(entries@.take(i + 1).last() == entries@[i as int]);
            let named = match &entries[i] {
                FileSource::ArchiveEntry { archive, .. } => Some(archive.clone()),
                FileSource::PendingContainer { container_path } => Some(container_path.clone()),
                _ => None,
            };
            match named {
                Some(path) => {
                    if !any_holds(&gathered.toplevel, path.as_str()) && !any_holds(
                        &gathered.folder,
                        path.as_str(),
                    ) {
                        gathered.toplevel.push(path);
                    }
                },
                None => {},
            }
            i = i + 1;
        }
        assert(entries@.take(entries@.len() as int) =~= entries@);
        self.push_files(entries, lookup);
    }

    fn push_files(&mut self, entries: &Vec<FileSource>, lookup: &Vec<Option<FileMetadata>>)
        requires
            old(self).wf(),
            lookup@.len() == entries@.len(),
        ensures
            final(self).wf(),
            files_taken(old(self)@, entries@, lookup@, final(self)@),
    {
        let mut infos: Vec<FileInfo> = Vec::new();
        let mut i: usize = 0;
        while i < entries.len()
            invariant
                lookup@.len() == entries@.len(),
                i <= entries@.len(),
                bookmarked_entries(infos@, entries@, lookup@, i as int),
            decreases entries.len() - i,
        {
            let ghost seen = infos@;
            match (&entries[i], &lookup[i]) {
                (FileSource::File(path), Some(m)) => {
                    infos.push(FileInfo::from_path(path.as_str(), m));
                    assert(is_readable_file(entries@, lookup@, i as int));
                },
                _ => {
                    assert(!is_readable_file(entries@, lookup@, i as int));
                },
            }
            assert(bookmarked_entries(infos@, entries@, lookup@, i + 1));
            i = i + 1;
        }
        let ghost given = infos@;
        self.push_all(infos);
        assert(bookmarked_entries(given, entries@, lookup@, entries@.len() as int));
    }

    /// Goes to a bookmark's position, once its containers are opened and expanded.
    pub fn restore_bookmark_position(&mut self, data: &BookmarkData)
        requires
            old(self).wf(),
        ensures
            final(self).wf(),
            if data.index < data.entries@.len() {
                let place = bookmarked_place(
                    old(self)@.list.files,
                    data.entries@[data.index as int],
                    data.index as int,
                );
                loading::loads(
                    (DocView {
                        list: file_list::moved_to(old(self)@.list, place).0,
                        ..old(self)@
                    }),
                    final(self)@,
                )
            } else {
                final(self)@ == old(self)@
            },
    {
        if data.index >= data.entries.len() {
            return;
        }
        let target = &data.entries[data.index];
        let files = self.file_list.files();
        let mut i: usize = 0;
        while i < files.len() && !FileList::source_matches(&files[i].source, target)
            invariant
                i <= files@.len(),
                file_list::source_from(files@, *target, 0) == file_list::source_from(
                    files@,
                    *target,
                    i as int,
                ),
            decreases files.len() - i,
        {
            i = i + 1;
        }
        let place: usize = if i < files.len() {
            i
        } else if files.len() == 0 {
            0
        } else if data.index < files.len() - 1 {
            data.index
        } else {
            files.len() - 1
        };
        let _ = self.file_list.navigate_to(place);
        self.load_current();
    }

    /// Opens a bookmark of plain files. `lookup` holds for each source the
    /// metadata of its file, where that exists.
    pub fn open_bookmark_files(&mut self, data: &BookmarkData, lookup: &Vec<Option<FileMetadata>>)
        requires
            old(self).wf(),
            lookup@.len() == data.entries@.len(),
        ensures
            final(self).wf(),
            exists|infos: Seq<FileInfo>|
                {
                    &&& #[trigger] bookmarked_entries(
                        infos,
                        data.entries@,
                        lookup@,
                        data.entries@.len() as int,
                    )
                    &&& {
                        let d = refreshed(old(self)@);
                        let list = ListView { files: infos, ..emptied(d.list) };
                        let place = lesser(data.index as int, infos.len() - 1);
                        loading::loads(
                            document::told(
                                (DocView {
                                    list: if infos.len() > 0 {
                                        file_list::moved_to(list, place).0
                                    } else {
                                        list
                                    },
                                    ..d
                                }),
                                DocumentEvent::FileListChanged,
                            ),
                            final(self)@,
                        )
                    }
                },
    {
        self.cleanup_archive_temp();
        self.invalidate_cache();
        self.file_list.clear();
        let ghost d = self@;
        self.push_files(&data.entries, lookup);
        let ghost infos = choose|infos: Seq<FileInfo>|
            {
                &&& #[trigger] bookmarked_entries(
                    infos,
                    data.entries@,
                    lookup@,
                    data.entries@.len() as int,
                )
                &&& self@ == (DocView {
                    list: ListView { files: d.list.files + infos, ..d.list },
                    ..d
                })
            };
        assert(d.list.files + infos =~= infos);
        if self.file_list.len() > 0 {
            let last: usize = self.file_list.len() - 1;
            let place: usize = if data.index < last {
                data.index
            } else {
                last
            };
            let _ = self.file_list.navigate_to(place);
        }
        self.tell(DocumentEvent::FileListChanged);
        self.load_current();
        assert(bookmarked_entries(infos, data.entries@, lookup@, data.entries@.len() as int));
    }
}

proof fn nothing_gathered(d: DocView, all: Seq<Candidate>)
    ensures
        paths_of(containers_in(d, all.take(0), false)) == Seq::<String>::empty(),
        paths_of(containers_in(d, all.take(0), true)) == Seq::<String>::empty(),
        paths_of(of_kind(d, all.take(0), CandidateKind::Bookmark)) == Seq::<String>::empty(),
        readable_images(d, all.take(0)) == Seq::<Candidate>::empty(),
{
    reveal(Seq::filter);
    assert(paths_of(containers_in(d, all.take(0), false)) =~= Seq::<String>::empty());
    assert(paths_of(containers_in(d, all.take(0), true)) =~= Seq::<String>::empty());
    assert(paths_of(of_kind(d, all.take(0), CandidateKind::Bookmark)) =~= Seq::<
        String,
    >::empty());
    assert(readable_images(d, all.take(0)) =~= Seq::<Candidate>::empty());
}

proof fn one_more_gathered(d: DocView, all: Seq<Candidate>, i: int)
    requires
        0 <= i < all.len(),
    ensures
        ({
            let kind = kind_of(d, all[i].path@);
            let before = all.take(i);
            let after = all.take(i + 1);
            &&& paths_of(containers_in(d, after, false)) == if kind == CandidateKind::Container
                && !all[i].nested {
                paths_of(containers_in(d, before, false)).push(all[i].path)
            } else {
                paths_of(containers_in(d, before, false))
            }
            &&& paths_of(containers_in(d, after, true)) == if kind == CandidateKind::Container
                && all[i].nested {
                paths_of(containers_in(d, before, true)).push(all[i].path)
            } else {
                paths_of(containers_in(d, before, true))
            }
            &&& paths_of(of_kind(d, after, CandidateKind::Bookmark)) == if kind
                == CandidateKind::Bookmark {
                paths_of(of_kind(d, before, CandidateKind::Bookmark)).push(all[i].path)
            } else {
                paths_of(of_kind(d, before, CandidateKind::Bookmark))
            }
            &&& readable_images(d, after) == if kind == CandidateKind::Image && all[i].metadata
                is Some {
                readable_images(d, before).push(all[i])
            } else {
                readable_images(d, before)
            }
        }),
{
    reveal(Seq::filter);
    let before = all.take(i);
    let after = all.take(i + 1);
    assert(after.drop_last() =~= before);
    assert(after.last() == all[i]);
    if containers_in(d, after, false) == containers_in(d, before, false).push(all[i]) {
        assert(paths_of(containers_in(d, after, false)) =~= paths_of(
            containers_in(d, before, false),
        ).push(all[i].path));
    }
    if containers_in(d, after, true) == containers_in(d, before, true).push(all[i]) {
        assert(paths_of(containers_in(d, after, true)) =~= paths_of(
            containers_in(d, before, true),
        ).push(all[i].path));
    }
    if of_kind(d, after, CandidateKind::Bookmark) == of_kind(
        d,
        before,
        CandidateKind::Bookmark,
    ).push(all[i]) {
        assert(paths_of(of_kind(d, after, CandidateKind::Bookmark)) =~= paths_of(
            of_kind(d, before, CandidateKind::Bookmark),
        ).push(all[i].path));
    }
}

} // verus!
