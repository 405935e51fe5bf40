//! The list of images: order, position, marks and groups.

use std::sync::Arc;

use vstd::prelude::*;

pub mod groups;
pub mod laws;
pub mod natural_sort;
pub mod navigation;
pub mod order_laws;
pub mod sort;

pub use navigation::NavigationDirection;
pub use sort::SortOrder;

use groups::compute_group_layout;
use natural_sort::{shuffle_indices, SimpleRng};
use navigation::wrapped;
use sort::ByOrder;

use crate::text;
use crate::paths;
use crate::ordering;
use crate::file_info;
use crate::extension_registry;
use crate::extension_registry::ExtensionRegistry;
use crate::file_info::{FileInfo, FileMetadata, FileSource};
use crate::ordering::{order_indices, reorder, stable_sort};
use crate::paths::{file_name_of, join, same_path, Location};
use crate::text::{decimal_text, join2};

verus! {

/// Why a list could not be changed.
#[derive(Debug)]
pub enum ListError {
    /// No metadata could be read for the path.
    NoMetadata(String),
    /// The path has no file name.
    NoFileName(String),
    /// There is no entry at the index.
    OutOfRange(usize),
}

impl ListError {
    pub open spec fn text(&self) -> Seq<char> {
        match self {
            ListError::NoMetadata(path) => "メタデータ取得失敗: "@ + path@,
            ListError::NoFileName(path) => "ファイル名取得失敗: "@ + path@,
            ListError::OutOfRange(index) => "インデックス範囲外: "@ + text::decimal(*index as nat),
        }
    }

    /// The message for the user.
    pub fn message(&self) -> (r: String)
        ensures
            r@ == self.text(),
    {
        match self {
            ListError::NoMetadata(path) => join2("メタデータ取得失敗: ", path.as_str()),
            ListError::NoFileName(path) => join2("ファイル名取得失敗: ", path.as_str()),
            ListError::OutOfRange(index) => {
                let n = decimal_text(*index as u64);
                join2("インデックス範囲外: ", n.as_str())
            },
        }
    }
}

/// An entry of a folder as the file system lists it.
#[derive(Debug)]
pub struct FolderEntry {
    pub path: String,
    pub is_file: bool,
    /// None where the metadata could not be read.
    pub metadata: Option<FileMetadata>,
}

/// The list of images with the position in it.
pub struct FileList {
    files: Vec<FileInfo>,
    current_index: Option<usize>,
    sort_order: SortOrder,
    registry: Arc<ExtensionRegistry>,
}

/// What a list holds.
pub struct ListView {
    pub files: Seq<FileInfo>,
    pub current: Option<int>,
    pub order: SortOrder,
}

impl ListView {
    /// The position lies in the list.
    pub open spec fn valid(self) -> bool {
        self.current matches Some(i) ==> 0 <= i < self.files.len()
    }

    /// The position, the first place where there is none.
    pub open spec fn place(self) -> int {
        match self.current {
            Some(i) => i,
            None => 0,
        }
    }

    /// The list with the position moved.
    pub open spec fn at(self, i: int) -> ListView {
        ListView { current: Some(i), ..self }
    }

    /// A move to a place: nothing happens where the list is there already.
    pub open spec fn moved(self, target: int) -> (ListView, bool) {
        if target == self.place() {
            (self, false)
        } else {
            (self.at(target), true)
        }
    }
}

/// Two sources denote the same entry of a container.
pub open spec fn same_source(a: FileSource, b: FileSource) -> bool {
    match (a, b) {
        (
            FileSource::ArchiveEntry { archive: a1, entry: e1, .. },
            FileSource::ArchiveEntry { archive: a2, entry: e2, .. },
        ) => paths::location(a1@) == paths::location(a2@) && e1@ == e2@,
        (
            FileSource::PdfPage { pdf_path: p1, page_index: i1 },
            FileSource::PdfPage { pdf_path: p2, page_index: i2 },
        ) => paths::location(p1@) == paths::location(p2@) && i1 == i2,
        (
            FileSource::PendingContainer { container_path: c1 },
            FileSource::PendingContainer { container_path: c2 },
        ) => paths::location(c1@) == paths::location(c2@),
        _ => false,
    }
}

/// The first entry from `k` on that has the path.
pub open spec fn path_from(files: Seq<FileInfo>, path: Location, k: int) -> Option<int>
    decreases files.len() - k,
{
    if k >= files.len() {
        None
    } else if paths::location(files[k].path@) == path {
        Some(k)
    } else {
        path_from(files, path, k + 1)
    }
}

/// The first entry from `k` on that has the source.
pub open spec fn source_from(files: Seq<FileInfo>, source: FileSource, k: int) -> Option<int>
    decreases files.len() - k,
{
    if k >= files.len() {
        None
    } else if same_source(files[k].source, source) {
        Some(k)
    } else {
        source_from(files, source, k + 1)
    }
}

/// Where an entry is found again: by its source where it lies in a container,
/// else by its path, else at the start.
pub open spec fn found_again(files: Seq<FileInfo>, path: Seq<char>, source: FileSource) -> Option<
    int,
> {
    let by_source = if source is File {
        None
    } else {
        source_from(files, source, 0)
    };
    match by_source {
        Some(i) => Some(i),
        None => match path_from(files, paths::location(path), 0) {
            Some(i) => Some(i),
            None => if files.len() == 0 {
                None
            } else {
                Some(0)
            },
        },
    }
}

/// Where the position lies after the entries of `old` became `files`: at the
/// same entry; nowhere where there was none.
pub open spec fn kept_position(old: ListView, files: Seq<FileInfo>) -> Option<int> {
    match old.current {
        Some(i) => found_again(files, old.files[i].path@, old.files[i].source),
        None => None,
    }
}

/// The first place that did not fail, in steps from `start`, after `k` of them.
pub open spec fn loadable_from(files: Seq<FileInfo>, start: int, step: int, k: int) -> Option<int>
    decreases files.len() - k,
{
    let place = navigation::around(start, step * k, files.len() as int);
    if k >= files.len() {
        None
    } else if !files[place].load_failed {
        Some(place)
    } else {
        loadable_from(files, start, step, k + 1)
    }
}

/// A relative move around the list, past entries that failed.
pub open spec fn moved_by(v: ListView, offset: int) -> (ListView, bool) {
    if v.files.len() == 0 {
        (v, false)
    } else {
        let start = navigation::around(v.place(), offset, v.files.len() as int);
        match loadable_from(
            v.files,
            start,
            if offset >= 0 {
                1
            } else {
                -1
            },
            0,
        ) {
            Some(target) => v.moved(target),
            None => (v, false),
        }
    }
}

/// A move to an index: nothing happens outside the list or where it is current.
pub open spec fn moved_to(v: ListView, index: int) -> (ListView, bool) {
    if 0 <= index < v.files.len() && v.current != Some(index) {
        (v.at(index), true)
    } else {
        (v, false)
    }
}

/// The first marked place, in steps from the position, from step `k` on. The
/// position itself is not looked at.
pub open spec fn marked_from(v: ListView, step: int, k: int) -> Option<int>
    decreases v.files.len() - k,
{
    let place = navigation::around(v.place(), step * k, v.files.len() as int);
    if k >= v.files.len() {
        None
    } else if v.files[place].marked {
        Some(place)
    } else {
        marked_from(v, step, k + 1)
    }
}

/// A move to the nearest marked entry in a direction.
pub open spec fn moved_to_mark(v: ListView, step: int) -> (ListView, bool) {
    match marked_from(v, step, 1) {
        Some(i) => (v.at(i), true),
        None => (v, false),
    }
}

/// A move to the first entry of the group that lies `step` groups further on.
pub open spec fn moved_by_group(v: ListView, step: int) -> (ListView, bool) {
    let all = groups::leaders(v.files, v.files.len() as int);
    if all.len() <= 1 {
        (v, false)
    } else {
        let group = all.index_of(groups::leader(v.files, v.place()));
        v.moved(all[navigation::around(group, step, all.len() as int)])
    }
}

/// The mark of each of the first `end` entries turned over.
pub open spec fn marks_inverted(files: Seq<FileInfo>, end: int) -> Seq<FileInfo> {
    Seq::new(
        files.len(),
        |i: int|
            if i < end {
                FileInfo { marked: !files[i].marked, ..files[i] }
            } else {
                files[i]
            },
    )
}

/// One entry taken out; a position behind it moves up, and one on it stays,
/// but for the end of the list.
pub open spec fn without(v: ListView, index: int) -> ListView {
    let files = v.files.remove(index);
    ListView {
        files,
        current: if files.len() == 0 {
            None
        } else {
            match v.current {
                Some(c) => if index < c {
                    Some(c - 1)
                } else if index == c && c >= files.len() {
                    Some(files.len() - 1)
                } else {
                    Some(c)
                },
                None => None,
            }
        },
        order: v.order,
    }
}

/// Entries put in the place of one.
pub open spec fn spliced(
    files: Seq<FileInfo>,
    index: int,
    entries: Seq<FileInfo>,
) -> Seq<FileInfo> {
    files.take(index) + entries + files.skip(index + 1)
}

/// The position after `n` entries took the place of the one at `index`.
pub open spec fn shifted(
    current: Option<int>,
    index: int,
    n: int,
    len: int,
    direction: NavigationDirection,
) -> Option<int> {
    match current {
        None => None,
        Some(c) => if len == 0 {
            None
        } else if c < index {
            Some(c)
        } else if c > index {
            Some(c + n - 1)
        } else if n == 0 {
            Some(
                if c < len {
                    c
                } else {
                    len - 1
                },
            )
        } else {
            Some(
                match direction {
                    NavigationDirection::Forward => index,
                    NavigationDirection::Backward => index + n - 1,
                },
            )
        },
    }
}

/// A new path and metadata for an entry whose marks stay.
pub open spec fn renewed(before: FileInfo, after: FileInfo, path: Seq<char>, m: FileMetadata)
    -> bool {
    after.describes(path, m.size, m.modified) && after.marked == before.marked
        && after.load_failed == before.load_failed
}

/// The marked entry at `i` cannot be given its new path.
pub open spec fn blocked(files: Seq<FileInfo>, lookup: Seq<Option<FileMetadata>>, i: int) -> bool {
    files[i].marked && (paths::spec_file_name(files[i].path@) is None || lookup[i] is None)
}

/// The path of an entry after a move to another folder.
pub open spec fn path_in(dir: Seq<char>, info: FileInfo) -> Seq<char> {
    paths::spec_join(dir, file_info::text_or(paths::spec_file_name(info.path@), ""@))
}

/// The marked entries before `end` have their paths in the folder; all the rest
/// is as it was.
pub open spec fn marked_moved(
    before: Seq<FileInfo>,
    after: Seq<FileInfo>,
    dir: Seq<char>,
    lookup: Seq<Option<FileMetadata>>,
    end: int,
) -> bool {
    &&& after.len() == before.len()
    &&& forall|i: int|
        0 <= i < before.len() ==> if i < end && before[i].marked {
            renewed(before[i], #[trigger] after[i], path_in(dir, before[i]), lookup[i]->0)
        } else {
            after[i] == before[i]
        }
}

/// The folder's entries that are image files with readable metadata, in order.
pub open spec fn images_among(images: Seq<String>, entries: Seq<FolderEntry>) -> Seq<FolderEntry> {
    entries.filter(
        |e: FolderEntry|
            e.is_file && e.metadata is Some && (paths::spec_file_name(e.path@) matches Some(name)
                && extension_registry::name_listed(images, name)),
    )
}

/// The list's entries are the folder's, fresh.
pub open spec fn lists(files: Seq<FileInfo>, entries: Seq<FolderEntry>) -> bool {
    &&& files.len() == entries.len()
    &&& forall|i: int|
        0 <= i < files.len() ==> {
            &&& (#[trigger] files[i]).describes(
                entries[i].path@,
                entries[i].metadata->0.size,
                entries[i].metadata->0.modified,
            )
            &&& !files[i].marked
            &&& !files[i].load_failed
        }
}

/// The list sorted by an order, standing on the same entry.
pub open spec fn resorted(before: ListView, order: SortOrder, after: ListView) -> bool {
    &&& ordering::stably_sorted((ByOrder { order }), before.files, after.files)
    &&& after.current == kept_position(before, after.files)
    &&& after.order == order
}

/// The list holds a folder's images in its order, without a position.
pub open spec fn filled(
    before: ListView,
    images: Seq<String>,
    entries: Seq<FolderEntry>,
    after: ListView,
) -> bool {
    &&& after.current is None
    &&& after.order == before.order
    &&& exists|found: Seq<FileInfo>| #[trigger]
        lists(found, images_among(images, entries)) && ordering::stably_sorted(
            (ByOrder { order: before.order }),
            found,
            after.files,
        )
}

/// The list holds one file and stands on it, or is empty where the file has no
/// metadata.
pub open spec fn filled_by_one(
    before: ListView,
    path: Seq<char>,
    metadata: Option<FileMetadata>,
    after: ListView,
    r: Result<(), ListError>,
) -> bool {
    &&& after.order == before.order
    &&& match metadata {
        Some(m) => {
            &&& r is Ok
            &&& after.current == Some(0int)
            &&& after.files.len() == 1
            &&& after.files[0].describes(path, m.size, m.modified)
            &&& !after.files[0].marked
            &&& !after.files[0].load_failed
        },
        None => {
            &&& r matches Err(ListError::NoMetadata(p)) && p@ == path
            &&& after.current is None
            &&& after.files.len() == 0
        },
    }
}

/// Sorted entries took the place of the one at the index.
pub open spec fn expanded_at(
    before: ListView,
    index: int,
    entries: Seq<FileInfo>,
    direction: NavigationDirection,
    after: ListView,
) -> bool {
    &&& exists|sorted: Seq<FileInfo>| #[trigger]
        ordering::stably_sorted((ByOrder { order: before.order }), entries, sorted)
            && after.files == spliced(before.files, index, sorted)
    &&& after.current == shifted(
        before.current,
        index,
        entries.len() as int,
        after.files.len() as int,
        direction,
    )
    &&& after.order == before.order
}

/// The number of marked entries.
pub open spec fn marked_number(v: ListView) -> nat {
    v.files.filter(|f: FileInfo| f.marked).len()
}

/// The list without its marked entries.
pub open spec fn unmarked_only(v: ListView) -> ListView {
    let files = v.files.filter(|f: FileInfo| !f.marked);
    ListView {
        files,
        current: match v.current {
            Some(_) => kept_position(v, files),
            None => if files.len() == 0 {
                None
            } else {
                Some(0)
            },
        },
        order: v.order,
    }
}

/// A move as if the list were sorted by an order.
pub open spec fn moved_by_order(
    before: ListView,
    step: int,
    sort_order: SortOrder,
    after: ListView,
    r: bool,
) -> bool {
    match before.current {
        None => !r && after == before,
        Some(c) => exists|order: Seq<usize>, p: int|
            {
                &&& ordering::arranges(order, 0, before.files.len() as int)
                &&& ordering::in_order((ByOrder { order: sort_order }), before.files, order)
                &&& 0 <= p < order.len()
                &&& order[p] == c
                &&& (after, r) == before.moved(
                    #[trigger] order[navigation::around(p, step, order.len() as int)] as int,
                )
            },
    }
}

/// The marked entries got their paths in another folder, up to the first that
/// could not.
pub open spec fn marks_relocated(
    before: ListView,
    dir: Seq<char>,
    lookup: Seq<Option<FileMetadata>>,
    after: ListView,
    r: Result<(), ListError>,
) -> bool {
    &&& after.current == before.current
    &&& after.order == before.order
    &&& match r {
            Ok(_) => {
                &&& forall|i: int|
                    0 <= i < before.files.len() ==> !#[trigger] blocked(
                        before.files,
                        lookup,
                        i,
                    )
                &&& marked_moved(
                    before.files,
                    after.files,
                    dir,
                    lookup,
                    before.files.len() as int,
                )
            },
            Err(e) => exists|k: int|
                {
                    &&& 0 <= k < before.files.len()
                    &&& #[trigger] blocked(before.files, lookup, k)
                    &&& forall|i: int|
                        0 <= i < k ==> !#[trigger] blocked(before.files, lookup, i)
                    &&& marked_moved(
                        before.files,
                        after.files,
                        dir,
                        lookup,
                        k,
                    )
                    &&& if paths::spec_file_name(before.files[k].path@) is None {
                        e matches ListError::NoFileName(p) && p@ == before.files[k].path@
                    } else {
                        e matches ListError::NoMetadata(p) && p@ == path_in(
                            dir,
                            before.files[k],
                        )
                    }
                },
        }
}

/// The entry at the index got a new path, where it is there and has metadata.
pub open spec fn entry_relocated(
    before: ListView,
    index: int,
    path: Seq<char>,
    metadata: Option<FileMetadata>,
    after: ListView,
    r: Result<(), ListError>,
) -> bool {
    match r {
        Ok(_) => {
            &&& index < before.files.len()
            &&& metadata matches Some(m) && renewed(
                before.files[index],
                after.files[index],
                path,
                m,
            )
            &&& after == (ListView {
                files: before.files.update(
                    index,
                    after.files[index],
                ),
                ..before
            })
        },
        Err(ListError::OutOfRange(i)) => i == index && index >= before.files.len()
            && after == before,
        Err(ListError::NoMetadata(p)) => p@ == path && index < before.files.len()
            && metadata is None && after == before,
        Err(ListError::NoFileName(_)) => false,
    }
}

impl View for FileList {
    type V = ListView;

    closed spec fn view(&self) -> ListView {
        ListView {
            files: self.files@,
            current: match self.current_index {
                Some(i) => Some(i as int),
                None => None,
            },
            order: self.sort_order,
        }
    }
}

impl FileList {
    /// The position lies in the list.
    pub open spec fn wf(&self) -> bool {
        self@.valid()
    }

    pub closed spec fn extensions(&self) -> ExtensionRegistry {
        *self.registry
    }

    /// An empty list, to be sorted naturally.
    pub fn new(registry: Arc<ExtensionRegistry>) -> (r: Self)
        ensures
            r.wf(),
            r@ == (ListView { files: Seq::empty(), current: None, order: SortOrder::Natural }),
            r.extensions() == *registry,
    {
        FileList {
            files: Vec::new(),
            current_index: None,
            sort_order: SortOrder::Natural,
            registry,
        }
    }

    /// The extensions by which images are recognised.
    pub fn registry(&self) -> (r: &ExtensionRegistry)
        ensures
            *r == self.extensions(),
    {
        &*self.registry
    }

    /// Fills the list with the images of a folder, sorted; no position is set.
    pub fn populate_from_folder(&mut self, entries: &Vec<FolderEntry>)
        ensures
            final(self).wf(),
            final(self).extensions() == old(self).extensions(),
            filled(old(self)@, old(self).extensions().images@, entries@, final(self)@),
    {
        let ghost images = self.extensions().images@;
        let ghost wanted = |e: FolderEntry|
            e.is_file && e.metadata is Some && (paths::spec_file_name(e.path@) matches Some(name)
                && extension_registry::name_listed(images, name));
        let mut found: Vec<FileInfo> = Vec::new();
        let mut i: usize = 0;
        assert(images_among(images, entries@.take(0)) =~= Seq::empty()) by {
            reveal(Seq::filter);
        }
        while i < entries.len()
            invariant
                i <= entries@.len(),
                images == self.extensions().images@,
                *self == *old(self),
                wanted == (|e: FolderEntry|
                    e.is_file && e.metadata is Some && (paths::spec_file_name(e.path@) matches Some(name)
                        && extension_registry::name_listed(images, name))),
                lists(found@, images_among(images, entries@.take(i as int))),
            decreases entries.len() - i,
        {
            let e = &entries[i];
            let ghost so_far = entries@.take(i as int);
            proof {
                reveal(Seq::filter);
                assert(entries@.take(i + 1).drop_last() =~= so_far);
                assert(entries@.take(i + 1).last() == *e);
            }
            if e.is_file {
                if let Some(name) = file_name_of(e.path.as_str()) {
                    if self.registry.is_image_extension(name.as_str()) {
                        if let Some(m) = &e.metadata {
                            found.push(FileInfo::from_path(e.path.as_str(), m));
                        }
                    }
                }
            }
            i = i + 1;
        }
        assert(entries@.take(entries@.len() as int) =~= entries@);
        self.files = stable_sort(found, &ByOrder { order: self.sort_order });
        self.current_index = None;
    }

    /// Makes the list of one file and stands on it. Where the file has no
    /// metadata the list is left empty.
    pub fn populate_single(&mut self, path: &str, metadata: Option<FileMetadata>) -> (r: Result<
        (),
        ListError,
    >)
        ensures
            final(self).wf(),
            final(self).extensions() == old(self).extensions(),
            filled_by_one(old(self)@, path@, metadata, final(self)@, r),
    {
        self.files = Vec::new();
        self.current_index = None;
        match metadata {
            Some(m) => {
                self.files.push(FileInfo::from_path(path, &m));
                self.current_index = Some(0);
                Ok(())
            },
            None => Err(ListError::NoMetadata(path.to_owned())),
        }
    }

    /// Whether two sources denote the same entry of a container.
    pub fn source_matches(a: &FileSource, b: &FileSource) -> (r: bool)
        ensures
            r == same_source(*a, *b),
    {
        match (a, b) {
            (
                FileSource::ArchiveEntry { archive: a1, entry: e1, .. },
                FileSource::ArchiveEntry { archive: a2, entry: e2, .. },
            ) => same_path(a1.as_str(), a2.as_str()) && *e1 == *e2,
            (
                FileSource::PdfPage { pdf_path: p1, page_index: i1 },
                FileSource::PdfPage { pdf_path: p2, page_index: i2 },
            ) => same_path(p1.as_str(), p2.as_str()) && *i1 == *i2,
            (
                FileSource::PendingContainer { container_path: c1 },
                FileSource::PendingContainer { container_path: c2 },
            ) => same_path(c1.as_str(), c2.as_str()),
            _ => false,
        }
    }

    fn position_of_path(&self, path: &str) -> (r: Option<usize>)
        ensures
            (match r {
                Some(i) => Some(i as int),
                None => None,
            }) == path_from(self@.files, paths::location(path@), 0),
            r matches Some(i) ==> i < self@.files.len(),
    {
        let mut i: usize = 0;
        while i < self.files.len()
            invariant
                i <= self.files@.len(),
                path_from(self@.files, paths::location(path@), 0) == path_from(
                    self@.files,
                    paths::location(path@),
                    i as int,
                ),
            decreases self.files.len() - i,
        {
            if same_path(self.files[i].path.as_str(), path) {
                return Some(i);
            }
            i = i + 1;
        }
        None
    }

    fn position_of_source(&self, source: &FileSource) -> (r: Option<usize>)
        ensures
            (match r {
                Some(i) => Some(i as int),
                None => None,
            }) == source_from(self@.files, *source, 0),
            r matches Some(i) ==> i < self@.files.len(),
    {
        let mut i: usize = 0;
        while i < self.files.len()
            invariant
                i <= self.files@.len(),
                source_from(self@.files, *source, 0) == source_from(
                    self@.files,
                    *source,
                    i as int,
                ),
            decreases self.files.len() - i,
        {
            if Self::source_matches(&self.files[i].source, source) {
                return Some(i);
            }
            i = i + 1;
        }
        None
    }

    /// Stands on the entry with the source, where that lies in a container, else
    /// on the one with the path, else at the start.
    pub fn restore_current_position(&mut self, path: &str, source: &FileSource)
        ensures
            final(self).wf(),
            final(self)@ == (ListView {
                current: found_again(old(self)@.files, path@, *source),
                ..old(self)@
            }),
            final(self).extensions() == old(self).extensions(),
    {
        if source.is_contained() {
            if let Some(i) = self.position_of_source(source) {
                self.current_index = Some(i);
                return;
            }
        }
        if !self.set_current_by_path(path) {
            self.current_index = if self.files.len() == 0 {
                None
            } else {
                Some(0)
            };
        }
    }

    /// Stands on the first entry with the path, where there is one.
    pub fn set_current_by_path(&mut self, path: &str) -> (r: bool)
        ensures
            old(self).wf() ==> final(self).wf(),
            r == (path_from(old(self)@.files, paths::location(path@), 0) is Some),
            final(self)@ == (match path_from(old(self)@.files, paths::location(path@), 0) {
                Some(i) => old(self)@.at(i),
                None => old(self)@,
            }),
            r ==> final(self).wf(),
            final(self).extensions() == old(self).extensions(),
    {
        match self.position_of_path(path) {
            Some(i) => {
                self.current_index = Some(i);
                true
            },
            None => false,
        }
    }

    /// Moves around the list by an offset, past entries that failed.
    pub fn navigate_relative(&mut self, offset: isize) -> (r: bool)
        requires
            old(self).wf(),
        ensures
            final(self).wf(),
            (final(self)@, r) == moved_by(old(self)@, offset as int),
            final(self).extensions() == old(self).extensions(),
    {
        let len: usize = self.files.len();
        if len == 0 {
            return false;
        }
        let current: usize = match self.current_index {
            Some(i) => i,
            None => 0,
        };
        let start: usize = wrapped(current, offset, len);
        let step: isize = if offset >= 0 {
            1
        } else {
            -1
        };
        let mut target: usize = start;
        let mut attempts: usize = 0;
        proof {
            vstd::arithmetic::div_mod::lemma_small_mod(start as nat, len as nat);
        }
        while attempts < len && self.files[target].load_failed
            invariant
                attempts <= len,
                len == self.files@.len(),
                len > 0,
                target < len,
                start < len,
                step == 1 || step == -1,
                target == navigation::around(start as int, step * attempts, len as int),
                loadable_from(self@.files, start as int, step as int, 0) == loadable_from(
                    self@.files,
                    start as int,
                    step as int,
                    attempts as int,
                ),
            decreases len - attempts,
        {
            proof {
                next_around(start as int, step as int, attempts as int, len as int);
            }
            target = wrapped(target, step, len);
            attempts = attempts + 1;
        }
        if attempts >= len {
            return false;
        }
        if target == current {
            return false;
        }
        self.current_index = Some(target);
        true
    }

    /// Moves to an index.
    pub fn navigate_to(&mut self, index: usize) -> (r: bool)
        requires
            old(self).wf(),
        ensures
            final(self).wf(),
            (final(self)@, r) == moved_to(old(self)@, index as int),
            final(self).extensions() == old(self).extensions(),
    {
        let here = match self.current_index {
            Some(i) => i == index,
            None => false,
        };
        if index < self.files.len() && !here {
            self.current_index = Some(index);
            true
        } else {
            false
        }
    }

    /// Moves to the first entry.
    pub fn navigate_first(&mut self) -> (r: bool)
        requires
            old(self).wf(),
        ensures
            final(self).wf(),
            (final(self)@, r) == moved_to(old(self)@, 0),
            final(self).extensions() == old(self).extensions(),
    {
        self.navigate_to(0)
    }

    /// Moves to the last entry.
    pub fn navigate_last(&mut self) -> (r: bool)
        requires
            old(self).wf(),
        ensures
            final(self).wf(),
            (final(self)@, r) == moved_to(old(self)@, old(self)@.files.len() - 1),
            final(self).extensions() == old(self).extensions(),
    {
        if self.files.len() == 0 {
            return false;
        }
        self.navigate_to(self.files.len() - 1)
    }

    fn take_files(&mut self) -> (r: Vec<FileInfo>)
        ensures
            r@ == old(self)@.files,
            final(self)@ == (ListView { files: Seq::empty(), ..old(self)@ }),
            final(self).extensions() == old(self).extensions(),
    {
        let mut files: Vec<FileInfo> = Vec::new();
        std::mem::swap(&mut self.files, &mut files);
        files
    }

    fn saved_position(&self) -> (r: Option<(String, FileSource)>)
        requires
            self.wf(),
        ensures
            match r {
                Some(p) => self@.current matches Some(i) && p.0@ == self@.files[i].path@ && p.1
                    == self@.files[i].source,
                None => self@.current is None,
            },
    {
        match self.current_index {
            Some(i) => Some((self.files[i].path.clone(), self.files[i].source.clone())),
            None => None,
        }
    }

    /// Puts other entries in the list and stands on the saved one again.
    fn put_back(&mut self, files: Vec<FileInfo>, saved: Option<(String, FileSource)>)
        requires
            saved is None ==> old(self)@.current is None,
        ensures
            final(self).wf(),
            final(self)@ == (ListView {
                files: files@,
                current: match saved {
                    Some(p) => found_again(files@, p.0@, p.1),
                    None => None,
                },
                order: old(self)@.order,
            }),
            final(self).extensions() == old(self).extensions(),
    {
        self.files = files;
        if let Some((path, source)) = saved {
            self.restore_current_position(path.as_str(), &source);
        }
    }

    /// Sorts the list, staying on the current entry.
    pub fn sort(&mut self, order: SortOrder)
        requires
            old(self).wf(),
        ensures
            final(self).wf(),
            resorted(old(self)@, order, final(self)@),
            final(self).extensions() == old(self).extensions(),
    {
        let saved = self.saved_position();
        let files = self.take_files();
        let files = stable_sort(files, &ByOrder { order });
        self.put_back(files, saved);
        self.sort_order = order;
    }

    /// Sorts the list by its own order again.
    pub fn sort_current(&mut self)
        requires
            old(self).wf(),
        ensures
            final(self).wf(),
            resorted(old(self)@, old(self)@.order, final(self)@),
            final(self).extensions() == old(self).extensions(),
    {
        self.sort(self.sort_order)
    }

    /// Notes that an entry could not be decoded.
    pub fn mark_failed(&mut self, index: usize)
        ensures
            old(self).wf() ==> final(self).wf(),
            final(self)@ == (if index < old(self)@.files.len() {
                ListView {
                    files: old(self)@.files.update(
                        index as int,
                        (FileInfo { load_failed: true, ..old(self)@.files[index as int] }),
                    ),
                    ..old(self)@
                }
            } else {
                old(self)@
            }),
            final(self).extensions() == old(self).extensions(),
    {
        if index < self.files.len() {
            self.files[index].load_failed = true;
            assert(self@.files =~= old(self)@.files.update(
                index as int,
                (FileInfo { load_failed: true, ..old(self)@.files[index as int] }),
            ));
        }
    }

    /// Forgets which entries could not be decoded.
    pub fn clear_failed(&mut self)
        ensures
            old(self).wf() ==> final(self).wf(),
            final(self)@ == (ListView {
                files: Seq::new(
                    old(self)@.files.len(),
                    |i: int| FileInfo { load_failed: false, ..old(self)@.files[i] },
                ),
                ..old(self)@
            }),
            final(self).extensions() == old(self).extensions(),
    {
        let mut i: usize = 0;
        let ghost all = self@.files;
        while i < self.files.len()
            invariant
                i <= self.files@.len(),
                self.files@.len() == all.len(),
                all == old(self)@.files,
                self.current_index == old(self).current_index,
                self.sort_order == old(self).sort_order,
                self.registry == old(self).registry,
                forall|k: int|
                    0 <= k < all.len() ==> #[trigger] self.files@[k] == (if k < i {
                        FileInfo { load_failed: false, ..all[k] }
                    } else {
                        all[k]
                    }),
            decreases self.files.len() - i,
        {
            self.files[i].load_failed = false;
            i = i + 1;
        }
        assert(self@.files =~= Seq::new(
            all.len(),
            |i: int| FileInfo { load_failed: false, ..all[i] },
        ));
    }

    /// Adds an entry at the end.
    pub fn push(&mut self, info: FileInfo)
        ensures
            old(self).wf() ==> final(self).wf(),
            final(self)@ == (ListView { files: old(self)@.files.push(info), ..old(self)@ }),
            final(self).extensions() == old(self).extensions(),
    {
        self.files.push(info);
    }

    /// Empties the list.
    pub fn clear(&mut self)
        ensures
            final(self).wf(),
            final(self)@ == (ListView { files: Seq::empty(), current: None, ..old(self)@ }),
            final(self).extensions() == old(self).extensions(),
    {
        self.files.clear();
        self.current_index = None;
    }

    /// Whether the entry at an index is a container that is not expanded yet.
    pub fn is_pending_at(&self, index: usize) -> (r: bool)
        ensures
            r == (index < self@.files.len() && self@.files[index as int].source
                is PendingContainer),
    {
        index < self.files.len() && self.files[index].source.is_pending_container()
    }

    /// Whether a container is left that is not expanded yet.
    pub fn has_pending(&self) -> (r: bool)
        ensures
            r == (exists|i: int|
                0 <= i < self@.files.len() && (#[trigger] self@.files[i]).source
                    is PendingContainer),
    {
        let mut i: usize = 0;
        while i < self.files.len()
            invariant
                i <= self.files@.len(),
                forall|k: int|
                    0 <= k < i ==> !((#[trigger] self@.files[k]).source is PendingContainer),
            decreases self.files.len() - i,
        {
            if self.files[i].source.is_pending_container() {
                assert(self@.files[i as int].source is PendingContainer);
                return true;
            }
            i = i + 1;
        }
        false
    }

    /// The path of the container at an index that is not expanded yet.
    pub fn pending_container_path_at(&self, index: usize) -> (r: Option<String>)
        ensures
            match r {
                Some(p) => index < self@.files.len() && (
                self@.files[index as int].source matches FileSource::PendingContainer {
                    container_path,
                } && container_path == p),
                None => index >= self@.files.len() || !(self@.files[index as int].source
                    is PendingContainer),
            },
    {
        if index < self.files.len() {
            match &self.files[index].source {
                FileSource::PendingContainer { container_path } => Some(container_path.clone()),
                _ => None,
            }
        } else {
            None
        }
    }

    /// Puts a container's entries, sorted among themselves, in the place of its
    /// placeholder. The other entries keep their order.
    pub fn expand_container_at(
        &mut self,
        index: usize,
        entries: Vec<FileInfo>,
        direction: NavigationDirection,
    )
        requires
            old(self).wf(),
        ensures
            final(self).wf(),
            index >= old(self)@.files.len() ==> final(self)@ == old(self)@,
            index < old(self)@.files.len() ==> expanded_at(
                old(self)@,
                index as int,
                entries@,
                direction,
                final(self)@,
            ),
            final(self).extensions() == old(self).extensions(),
    {
        if index >= self.files.len() {
            return;
        }
        let ghost all = self@.files;
        let n: usize = entries.len();
        let sorted = stable_sort(entries, &ByOrder { order: self.sort_order });
        let ghost sorted_view = sorted@;
        let current = self.current_index;
        self.splice(index, sorted);
        let len: usize = self.files.len();
        self.current_index = match current {
            None => None,
            Some(c) => if len == 0 {
                None
            } else if c < index {
                Some(c)
            } else if c > index {
                Some(c - 1 + n)
            } else if n == 0 {
                Some(
                    if c < len {
                        c
                    } else {
                        len - 1
                    },
                )
            } else {
                Some(
                    match direction {
                        NavigationDirection::Forward => index,
                        NavigationDirection::Backward => index + (n - 1),
                    },
                )
            },
        };
        assert(ordering::stably_sorted((ByOrder { order: old(self)@.order }), entries@, sorted_view));
    }

    /// Puts entries in the place of one.
    fn splice(&mut self, index: usize, entries: Vec<FileInfo>)
        requires
            index < old(self)@.files.len(),
        ensures
            final(self)@ == (ListView {
                files: spliced(old(self)@.files, index as int, entries@),
                ..old(self)@
            }),
            final(self).extensions() == old(self).extensions(),
    {
        let ghost given = entries@;
        let mut entries = entries;
        assert(index < self.files.len());
        let mut tail = self.files.split_off(index + 1);
        let _ = self.files.pop();
        self.files.append(&mut entries);
        self.files.append(&mut tail);
        assert(self@.files =~= spliced(old(self)@.files, index as int, given));
    }

    /// Puts a container's entries in the place of its placeholder and sorts the
    /// whole list. The list then stands on the container's first or last given
    /// entry, where it stood on the placeholder, else on the entry it stood on.
    pub fn expand_container_sorted(
        &mut self,
        index: usize,
        entries: Vec<FileInfo>,
        direction: NavigationDirection,
    )
        requires
            old(self).wf(),
        ensures
            final(self).wf(),
            index >= old(self)@.files.len() ==> final(self)@ == old(self)@,
            index < old(self)@.files.len() ==> {
                let files = final(self)@.files;
                &&& ordering::stably_sorted(
                    (ByOrder { order: old(self)@.order }),
                    spliced(old(self)@.files, index as int, entries@),
                    files,
                )
                &&& final(self)@.order == old(self)@.order
                &&& final(self)@.current == (match old(self)@.current {
                    None => None,
                    Some(c) => if c != index {
                        found_again(files, old(self)@.files[c].path@, old(self)@.files[c].source)
                    } else if entries@.len() > 0 {
                        let target = match direction {
                            NavigationDirection::Forward => entries@[0],
                            NavigationDirection::Backward => entries@.last(),
                        };
                        found_again(files, target.path@, target.source)
                    } else {
                        shifted(Some(c), index as int, 0, files.len() as int, direction)
                    },
                })
            },
            final(self).extensions() == old(self).extensions(),
    {
        if index >= self.files.len() {
            return;
        }
        let current = self.current_index;
        let on_placeholder = match current {
            Some(c) => c == index,
            None => false,
        };
        let saved = if !on_placeholder {
            self.saved_position()
        } else if entries.len() > 0 {
            let target = match direction {
                NavigationDirection::Forward => &entries[0],
                NavigationDirection::Backward => &entries[entries.len() - 1],
            };
            Some((target.path.clone(), target.source.clone()))
        } else {
            None
        };
        self.splice(index, entries);
        self.current_index = None;
        let files = self.take_files();
        let ghost joined = files@;
        let files = stable_sort(files, &ByOrder { order: self.sort_order });
        proof {
            rearranged_len(joined, files@);
        }
        let none_saved = saved.is_none();
        self.put_back(files, saved);
        if none_saved && self.files.len() > 0 {
            if let Some(c) = current {
                self.current_index = Some(
                    if c < self.files.len() {
                        c
                    } else {
                        self.files.len() - 1
                    },
                );
            }
        }
    }

    /// Shuffles the whole list, staying on the current entry. The order comes
    /// from a generator that the system seeds.
    pub fn shuffle_all(&mut self)
        requires
            old(self).wf(),
        ensures
            final(self).wf(),
            exists|state: u64| state != 0 && #[trigger] shuffled_list(old(self)@, state) == final(self)@,
            final(self).extensions() == old(self).extensions(),
    {
        let mut rng = SimpleRng::new();
        self.shuffle_all_with(&mut rng)
    }

    /// Shuffles the whole list by the given generator.
    pub fn shuffle_all_with(&mut self, rng: &mut SimpleRng)
        requires
            old(self).wf(),
        ensures
            final(self).wf(),
            final(self)@ == shuffled_list(old(self)@, old(rng).state),
            final(self).extensions() == old(self).extensions(),
    {
        if self.files.len() <= 1 {
            return;
        }
        let saved = self.saved_position();
        let files = self.take_files();
        let order = shuffle_indices(files.len(), rng);
        let files = reorder(files, &order);
        self.put_back(files, saved);
    }

    /// Shuffles the groups of the list, staying on the current entry. Each
    /// group's entries come together in their order.
    pub fn shuffle_groups(&mut self)
        requires
            old(self).wf(),
        ensures
            final(self).wf(),
            exists|state: u64|
                state != 0 && #[trigger] group_shuffled_list(old(self)@, state) == final(self)@,
            final(self).extensions() == old(self).extensions(),
    {
        let mut rng = SimpleRng::new();
        self.shuffle_groups_with(&mut rng)
    }

    /// Shuffles the groups of the list by the given generator.
    pub fn shuffle_groups_with(&mut self, rng: &mut SimpleRng)
        requires
            old(self).wf(),
        ensures
            final(self).wf(),
            final(self)@ == group_shuffled_list(old(self)@, old(rng).state),
            final(self).extensions() == old(self).extensions(),
    {
        if self.files.len() == 0 {
            return;
        }
        let saved = self.saved_position();
        let files = self.take_files();
        let ghost all = files@;
        let groups = split_groups(files);
        let order = shuffle_indices(groups.len(), rng);
        let groups = reorder(groups, &order);
        proof {
            assert(contents(groups@) =~= ordering::reordered(grouped(all), order@));
        }
        let files = flatten_groups(groups);
        self.put_back(files, saved);
    }

    /// Marks the entry at an index.
    pub fn mark_at(&mut self, index: usize)
        ensures
            old(self).wf() ==> final(self).wf(),
            final(self)@ == with_mark(old(self)@, index as int, true),
            final(self).extensions() == old(self).extensions(),
    {
        if index < self.files.len() {
            self.files[index].marked = true;
            assert(self@.files =~= with_mark(old(self)@, index as int, true).files);
        }
    }

    /// Unmarks the entry at an index.
    pub fn unmark_at(&mut self, index: usize)
        ensures
            old(self).wf() ==> final(self).wf(),
            final(self)@ == with_mark(old(self)@, index as int, false),
            final(self).extensions() == old(self).extensions(),
    {
        if index < self.files.len() {
            self.files[index].marked = false;
            assert(self@.files =~= with_mark(old(self)@, index as int, false).files);
        }
    }

    fn invert_marks_before(&mut self, end: usize)
        requires
            end <= old(self)@.files.len(),
        ensures
            final(self)@ == (ListView {
                files: marks_inverted(old(self)@.files, end as int),
                ..old(self)@
            }),
            final(self).extensions() == old(self).extensions(),
    {
        let mut i: usize = 0;
        let ghost all = self@.files;
        while i < end
            invariant
                i <= end <= self.files@.len(),
                self.files@.len() == all.len(),
                all == old(self)@.files,
                self.current_index == old(self).current_index,
                self.sort_order == old(self).sort_order,
                self.registry == old(self).registry,
                forall|k: int|
                    0 <= k < all.len() ==> #[trigger] self.files@[k] == (if k < i {
                        FileInfo { marked: !all[k].marked, ..all[k] }
                    } else {
                        all[k]
                    }),
            decreases end - i,
        {
            let m = self.files[i].marked;
            self.files[i].marked = !m;
            i = i + 1;
        }
        assert(self@.files =~= marks_inverted(all, end as int));
    }

    /// Turns over the mark of every entry.
    pub fn invert_all_marks(&mut self)
        ensures
            old(self).wf() ==> final(self).wf(),
            final(self)@ == (ListView {
                files: marks_inverted(old(self)@.files, old(self)@.files.len() as int),
                ..old(self)@
            }),
            final(self).extensions() == old(self).extensions(),
    {
        self.invert_marks_before(self.files.len())
    }

    /// Turns over the marks from the start to the current entry.
    pub fn invert_marks_to_here(&mut self)
        requires
            old(self).wf(),
        ensures
            final(self).wf(),
            final(self)@ == (ListView {
                files: marks_inverted(
                    old(self)@.files,
                    match old(self)@.current {
                        Some(i) => i + 1,
                        None => 0,
                    },
                ),
                ..old(self)@
            }),
            final(self).extensions() == old(self).extensions(),
    {
        let end: usize = match self.current_index {
            Some(i) => {
                assert(i < self.files.len());
                i + 1
            },
            None => 0,
        };
        self.invert_marks_before(end)
    }

    /// The places of the marked entries, ascending.
    pub fn marked_indices(&self) -> (r: Vec<usize>)
        ensures
            forall|a: int, b: int| 0 <= a < b < r@.len() ==> #[trigger] r@[a] < #[trigger] r@[b],
            forall|i: usize| #[trigger]
                r@.contains(i) <==> (i < self@.files.len() && self@.files[i as int].marked),
    {
        let mut r: Vec<usize> = Vec::new();
        let mut i: usize = 0;
        while i < self.files.len()
            invariant
                i <= self.files@.len(),
                forall|a: int, b: int|
                    0 <= a < b < r@.len() ==> #[trigger] r@[a] < #[trigger] r@[b],
                forall|a: int| 0 <= a < r@.len() ==> #[trigger] r@[a] < i,
                forall|k: usize| #[trigger]
                    r@.contains(k) <==> (k < i && self@.files[k as int].marked),
            decreases self.files.len() - i,
        {
            let ghost before = r@;
            if self.files[i].marked {
                r.push(i);
            }
            proof {
                assert forall|k: usize| #[trigger] r@.contains(k) <==> (k < i + 1
                    && self@.files[k as int].marked) by {
                    if before.contains(k) {
                        let a = choose|a: int| 0 <= a < before.len() && before[a] == k;
                        assert(r@[a] == k);
                    }
                    if self@.files[i as int].marked && k == i {
                        assert(r@[r@.len() - 1] == k);
                    }
                    if r@.contains(k) {
                        let a = choose|a: int| 0 <= a < r@.len() && r@[a] == k;
                        if a < before.len() {
                            assert(before[a] == k);
                            assert(before.contains(k));
                        }
                    }
                }
            }
            i = i + 1;
        }
        r
    }

    /// The number of marked entries.
    pub fn marked_count(&self) -> (r: usize)
        ensures
            r == marked_number(self@),
    {
        let ghost marked = |f: FileInfo| f.marked;
        let mut n: usize = 0;
        let mut i: usize = 0;
        assert(self.files@.take(0).filter(marked).len() == 0) by {
            reveal(Seq::filter);
        }
        while i < self.files.len()
            invariant
                n <= i <= self.files@.len(),
                marked == (|f: FileInfo| f.marked),
                n == self.files@.take(i as int).filter(marked).len(),
            decreases self.files.len() - i,
        {
            proof {
                reveal(Seq::filter);
                assert(self.files@.take(i + 1).drop_last() =~= self.files@.take(i as int));
            }
            if self.files[i].marked {
                n = n + 1;
            }
            i = i + 1;
        }
        assert(self.files@.take(self.files@.len() as int) =~= self.files@);
        n
    }

    /// Takes an entry out of the list.
    pub fn remove_at(&mut self, index: usize) -> (r: Option<FileInfo>)
        requires
            old(self).wf(),
        ensures
            final(self).wf(),
            match r {
                Some(info) => index < old(self)@.files.len() && info
                    == old(self)@.files[index as int] && final(self)@ == without(
                    old(self)@,
                    index as int,
                ),
                None => index >= old(self)@.files.len() && final(self)@ == old(self)@,
            },
            final(self).extensions() == old(self).extensions(),
    {
        if index >= self.files.len() {
            return None;
        }
        let removed = self.files.remove(index);
        if self.files.len() == 0 {
            self.current_index = None;
        } else if let Some(current) = self.current_index {
            if index < current {
                self.current_index = Some(current - 1);
            } else if index == current && current >= self.files.len() {
                self.current_index = Some(self.files.len() - 1);
            }
        }
        Some(removed)
    }

    /// Takes the marked entries out of the list and returns them.
    pub fn remove_marked(&mut self) -> (r: Vec<FileInfo>)
        requires
            old(self).wf(),
        ensures
            final(self).wf(),
            r@ == old(self)@.files.filter(|f: FileInfo| f.marked),
            final(self)@ == unmarked_only(old(self)@),
            final(self).extensions() == old(self).extensions(),
    {
        let saved = self.saved_position();
        let none_saved = saved.is_none();
        let files = self.take_files();
        let ghost all = files@;
        let ghost marked = |f: FileInfo| f.marked;
        let ghost unmarked = |f: FileInfo| !f.marked;
        let mut removed: Vec<FileInfo> = Vec::new();
        let mut kept: Vec<FileInfo> = Vec::new();
        assert(all.take(0).filter(marked) =~= Seq::empty() && all.take(0).filter(unmarked)
            =~= Seq::empty()) by {
            reveal(Seq::filter);
        }
        for info in it: files
            invariant
                it.seq() == all,
                marked == (|f: FileInfo| f.marked),
                unmarked == (|f: FileInfo| !f.marked),
                removed@ == all.take(it.index()).filter(marked),
                kept@ == all.take(it.index()).filter(unmarked),
        {
            proof {
                reveal(Seq::filter);
                assert(all.take(it.index() + 1).drop_last() =~= all.take(it.index()));
                assert(all.take(it.index() + 1).last() == info);
            }
            if info.marked {
                removed.push(info);
            } else {
                kept.push(info);
            }
        }
        assert(all.take(all.len() as int) =~= all);
        self.put_back(kept, saved);
        if none_saved {
            self.current_index = if self.files.len() == 0 {
                None
            } else {
                Some(0)
            };
        }
        removed
    }

    fn navigate_mark(&mut self, step: isize) -> (r: bool)
        requires
            old(self).wf(),
            step == 1 || step == -1,
        ensures
            final(self).wf(),
            (final(self)@, r) == moved_to_mark(old(self)@, step as int),
            final(self).extensions() == old(self).extensions(),
    {
        let current: usize = match self.current_index {
            Some(i) => i,
            None => 0,
        };
        let len: usize = self.files.len();
        if len == 0 {
            return false;
        }
        let mut place: usize = current;
        let mut k: usize = 1;
        proof {
            vstd::arithmetic::div_mod::lemma_small_mod(current as nat, len as nat);
            assert(step * (k - 1) == 0) by (nonlinear_arith)
                requires
                    k == 1,
            ;
        }
        while k < len
            invariant
                1 <= k <= len,
                len == self.files@.len(),
                *self == *old(self),
                self.wf(),
                place < len,
                step == 1 || step == -1,
                current == self@.place(),
                place == navigation::around(current as int, step * (k - 1), len as int),
                marked_from(self@, step as int, 1) == marked_from(self@, step as int, k as int),
            decreases len - k,
        {
            proof {
                next_around(current as int, step as int, k - 1, len as int);
            }
            place = wrapped(place, step, len);
            if self.files[place].marked {
                self.current_index = Some(place);
                return true;
            }
            k = k + 1;
        }
        false
    }

    /// Moves to the nearest marked entry before the current one, around the list.
    pub fn navigate_prev_mark(&mut self) -> (r: bool)
        requires
            old(self).wf(),
        ensures
            final(self).wf(),
            (final(self)@, r) == moved_to_mark(old(self)@, -1),
            final(self).extensions() == old(self).extensions(),
    {
        self.navigate_mark(-1)
    }

    /// Moves to the nearest marked entry behind the current one, around the list.
    pub fn navigate_next_mark(&mut self) -> (r: bool)
        requires
            old(self).wf(),
        ensures
            final(self).wf(),
            (final(self)@, r) == moved_to_mark(old(self)@, 1),
            final(self).extensions() == old(self).extensions(),
    {
        self.navigate_mark(1)
    }

    /// Gives the marked entries their paths in another folder. `lookup` holds for
    /// each entry the metadata found under the new path. The first entry without
    /// a file name or metadata stops the update; those before it are renewed.
    pub fn update_marked_paths(
        &mut self,
        dest_dir: &str,
        lookup: &Vec<Option<FileMetadata>>,
    ) -> (r: Result<(), ListError>)
        requires
            lookup@.len() == old(self)@.files.len(),
        ensures
            old(self).wf() ==> final(self).wf(),
            final(self).extensions() == old(self).extensions(),
            marks_relocated(old(self)@, dest_dir@, lookup@, final(self)@, r),
    {
        let ghost all = self@.files;
        let mut i: usize = 0;
        while i < self.files.len()
            invariant
                i <= self.files@.len(),
                all == old(self)@.files,
                lookup@.len() == all.len(),
                self.current_index == old(self).current_index,
                self.sort_order == old(self).sort_order,
                self.registry == old(self).registry,
                marked_moved(all, self.files@, dest_dir@, lookup@, i as int),
                forall|k: int| 0 <= k < i ==> !#[trigger] blocked(all, lookup@, k),
            decreases self.files.len() - i,
        {
            assert(self.files@[i as int] == all[i as int]);
            if self.files[i].marked {
                match file_name_of(self.files[i].path.as_str()) {
                    None => {
                        assert(blocked(all, lookup@, i as int));
                        return Err(ListError::NoFileName(self.files[i].path.clone()));
                    },
                    Some(name) => {
                        let path = join(dest_dir, name.as_str());
                        match &lookup[i] {
                            None => {
                                assert(blocked(all, lookup@, i as int));
                                return Err(ListError::NoMetadata(path));
                            },
                            Some(m) => {
                                self.renew(i, path.as_str(), m);
                            },
                        }
                    },
                }
            }
            assert(!blocked(all, lookup@, i as int));
            i = i + 1;
        }
        Ok(())
    }

    /// Gives an entry a new path and metadata; its marks stay.
    fn renew(&mut self, index: usize, path: &str, metadata: &FileMetadata)
        requires
            index < old(self)@.files.len(),
        ensures
            final(self)@.files.len() == old(self)@.files.len(),
            renewed(
                old(self)@.files[index as int],
                final(self)@.files[index as int],
                path@,
                *metadata,
            ),
            forall|i: int|
                0 <= i < old(self)@.files.len() && i != index ==> #[trigger] final(self)@.files[i]
                    == old(self)@.files[i],
            final(self)@.current == old(self)@.current,
            final(self)@.order == old(self)@.order,
            final(self).current_index == old(self).current_index,
            final(self).sort_order == old(self).sort_order,
            final(self).registry == old(self).registry,
    {
        let mut info = FileInfo::from_path(path, metadata);
        info.marked = self.files[index].marked;
        info.load_failed = self.files[index].load_failed;
        self.files.set(index, info);
    }

    /// Moves to the first entry of the group before, around the list.
    pub fn navigate_prev_folder(&mut self) -> (r: bool)
        requires
            old(self).wf(),
        ensures
            final(self).wf(),
            (final(self)@, r) == moved_by_group(old(self)@, -1),
            final(self).extensions() == old(self).extensions(),
    {
        self.navigate_group(-1)
    }

    /// Moves to the first entry of the group behind, around the list.
    pub fn navigate_next_folder(&mut self) -> (r: bool)
        requires
            old(self).wf(),
        ensures
            final(self).wf(),
            (final(self)@, r) == moved_by_group(old(self)@, 1),
            final(self).extensions() == old(self).extensions(),
    {
        self.navigate_group(1)
    }

    fn navigate_group(&mut self, step: isize) -> (r: bool)
        requires
            old(self).wf(),
            step == 1 || step == -1,
        ensures
            final(self).wf(),
            (final(self)@, r) == moved_by_group(old(self)@, step as int),
            final(self).extensions() == old(self).extensions(),
    {
        let ghost all = groups::leaders(self@.files, self@.files.len() as int);
        if self.files.len() == 0 {
            return false;
        }
        let current: usize = match self.current_index {
            Some(i) => i,
            None => 0,
        };
        let (firsts, groups) = compute_group_layout(&self.files);
        let total: usize = firsts.len();
        if total <= 1 {
            return false;
        }
        let group: usize = groups[current];
        proof {
            groups::leaders_ascend(self@.files, self@.files.len() as int);
            let l = groups::leader(self@.files, current as int);
            assert(all[group as int] == l);
            let g = all.index_of(l);
            assert(all.contains(l));
            assert(0 <= g < all.len() && all[g] == l);
            if g < group {
                assert(all[g] < all[group as int]);
            } else if group < g {
                assert(all[group as int] < all[g]);
            }
        }
        let place: usize = wrapped(group, step, total);
        let target: usize = firsts[place];
        if target == current {
            return false;
        }
        self.current_index = Some(target);
        true
    }

    /// Moves in the direction as if the list were sorted by the order; the list
    /// keeps its own order.
    pub fn sorted_navigate(&mut self, direction: isize, sort_order: SortOrder) -> (r: bool)
        requires
            old(self).wf(),
        ensures
            final(self).wf(),
            final(self).extensions() == old(self).extensions(),
            moved_by_order(old(self)@, direction as int, sort_order, final(self)@, r),
    {
        let current: usize = match self.current_index {
            Some(i) => i,
            None => return false,
        };
        let order = order_indices(&self.files, &ByOrder { order: sort_order });
        proof {
            ordering::arranged_contains(order@, self.files@.len() as int, current);
        }
        let mut p: usize = 0;
        while order[p] != current
            invariant
                p < order@.len(),
                order@.contains(current),
                forall|k: int| 0 <= k < p ==> #[trigger] order@[k] != current,
            decreases order.len() - p,
        {
            if p + 1 >= order.len() {
                proof {
                    let k = choose|k: int| 0 <= k < order@.len() && order@[k] == current;
                    assert(k == p);
                }
            }
            p = p + 1;
        }
        let q: usize = wrapped(p, direction, order.len());
        let target: usize = order[q];
        assert(order@[navigation::around(p as int, direction as int, order@.len() as int)] == target);
        if target == current {
            return false;
        }
        self.current_index = Some(target);
        true
    }

    /// The entries.
    pub fn files(&self) -> (r: &[FileInfo])
        ensures
            r@ == self@.files,
    {
        self.files.as_slice()
    }

    /// The current entry.
    pub fn current(&self) -> (r: Option<&FileInfo>)
        requires
            self.wf(),
        ensures
            match r {
                Some(info) => self@.current matches Some(i) && *info == self@.files[i],
                None => self@.current is None,
            },
    {
        match self.current_index {
            Some(i) => Some(&self.files[i]),
            None => None,
        }
    }

    /// The number of entries.
    pub fn len(&self) -> (r: usize)
        ensures
            r == self@.files.len(),
    {
        self.files.len()
    }

    /// The position.
    pub fn current_index(&self) -> (r: Option<usize>)
        ensures
            self@.current == (match r {
                Some(i) => Some(i as int),
                None => None,
            }),
    {
        self.current_index
    }

    /// The order in which the list was last sorted.
    pub fn sort_order(&self) -> (r: SortOrder)
        ensures
            r == self@.order,
    {
        self.sort_order
    }

    /// Sets the order in which the list will be sorted; nothing is moved.
    pub fn set_sort_order(&mut self, order: SortOrder)
        ensures
            old(self).wf() ==> final(self).wf(),
            final(self)@ == (ListView { order, ..old(self)@ }),
            final(self).extensions() == old(self).extensions(),
    {
        self.sort_order = order;
    }

    /// Gives the entry at an index a new path; its marks and place stay.
    pub fn update_file_at(
        &mut self,
        index: usize,
        new_path: &str,
        metadata: Option<FileMetadata>,
    ) -> (r: Result<(), ListError>)
        ensures
            old(self).wf() ==> final(self).wf(),
            final(self).extensions() == old(self).extensions(),
            entry_relocated(old(self)@, index as int, new_path@, metadata, final(self)@, r),
    {
        if index >= self.files.len() {
            return Err(ListError::OutOfRange(index));
        }
        match metadata {
            Some(m) => {
                self.renew(index, new_path, &m);
                assert(self@.files =~= old(self)@.files.update(
                    index as int,
                    self@.files[index as int],
                ));
                Ok(())
            },
            None => Err(ListError::NoMetadata(new_path.to_owned())),
        }
    }
}

/// The list with the mark of one entry set.
pub open spec fn with_mark(v: ListView, index: int, marked: bool) -> ListView {
    if 0 <= index < v.files.len() {
        ListView {
            files: v.files.update(index, (FileInfo { marked, ..v.files[index] })),
            ..v
        }
    } else {
        v
    }
}

/// The list shuffled by a generator in the given state.
pub open spec fn shuffled_list(v: ListView, state: u64) -> ListView {
    if v.files.len() <= 1 {
        v
    } else {
        let files = ordering::reordered(v.files, natural_sort::shuffled_order(v.files.len() as int, state));
        ListView { files, current: kept_position(v, files), order: v.order }
    }
}

/// The entries of the group that the entry at `l` leads, in their order.
pub open spec fn members(files: Seq<FileInfo>, l: int) -> Seq<FileInfo> {
    files.filter(|f: FileInfo| groups::group_of(f) == groups::group_of(files[l]))
}

/// The groups of a list in order of appearance.
pub open spec fn grouped(files: Seq<FileInfo>) -> Seq<Seq<FileInfo>> {
    let all = groups::leaders(files, files.len() as int);
    Seq::new(all.len(), |g: int| members(files, all[g]))
}

/// The list with its groups shuffled by a generator in the given state.
pub open spec fn group_shuffled_list(v: ListView, state: u64) -> ListView {
    if v.files.len() == 0 {
        v
    } else {
        let groups = grouped(v.files);
        let files = ordering::reordered(groups, natural_sort::shuffled_order(groups.len() as int, state)).flatten();
        ListView { files, current: kept_position(v, files), order: v.order }
    }
}

/// The contents of a vector of vectors.
pub open spec fn contents(groups: Seq<Vec<FileInfo>>) -> Seq<Seq<FileInfo>> {
    Seq::new(groups.len(), |g: int| groups[g]@)
}

proof fn next_around(start: int, step: int, k: int, len: int)
    requires
        0 < len,
    ensures
        navigation::around(navigation::around(start, step * k, len), step, len) == navigation::around(start, step * (k + 1), len),
{
    let t = start + step * k;
    vstd::arithmetic::div_mod::lemma_fundamental_div_mod(t, len);
    vstd::arithmetic::div_mod::lemma_mod_multiples_vanish(-(t / len), t + step, len);
    assert(len * (-(t / len)) + (t + step) == t % len + step) by (nonlinear_arith)
        requires
            t == len * (t / len) + t % len,
    ;
    assert(step * (k + 1) == step * k + step) by (nonlinear_arith);
}

proof fn rearranged_len(s: Seq<FileInfo>, r: Seq<FileInfo>)
    requires
        exists|p: ByOrder| #[trigger] ordering::stably_sorted(p, s, r),
    ensures
        r.len() == s.len(),
{
}

/// Splits the entries into their groups, in order of appearance.
fn split_groups(files: Vec<FileInfo>) -> (groups: Vec<Vec<FileInfo>>)
    ensures
        contents(groups@) == grouped(files@),
{
    let ghost all = files@;
    let ghost n = all.len() as int;
    let (firsts, places) = compute_group_layout(&files);
    let mut groups: Vec<Vec<FileInfo>> = Vec::new();
    let mut g: usize = 0;
    while g < firsts.len()
        invariant
            g <= firsts@.len(),
            groups@.len() == g,
            forall|k: int| 0 <= k < g ==> #[trigger] groups@[k]@ == Seq::<FileInfo>::empty(),
        decreases firsts.len() - g,
    {
        groups.push(Vec::new());
        g = g + 1;
    }
    proof {
        groups::leaders_ascend(all, n);
        assert forall|k: int| 0 <= k < groups@.len() implies #[trigger] groups@[k]@ == all.take(
            0,
        ).filter(|f: FileInfo| groups::group_of(f) == groups::group_of(all[groups::leaders(all, n)[k]])) by {
            reveal(Seq::filter);
        }
    }
    let mut i: usize = 0;
    for info in it: files
        invariant
            it.seq() == all,
            n == all.len(),
            i == it.index(),
            places@.len() == n,
            groups@.len() == groups::leaders(all, n).len(),
            firsts@.len() == groups::leaders(all, n).len(),
            forall|k: int| 0 <= k < firsts@.len() ==> #[trigger] firsts@[k] == groups::leaders(all, n)[k],
            forall|k: int|
                0 <= k < n ==> #[trigger] places@[k] < firsts@.len() && firsts@[places@[k] as int]
                    == groups::leader(all, k),
            forall|k: int|
                0 <= k < groups@.len() ==> #[trigger] groups@[k]@ == all.take(i as int).filter(
                    |f: FileInfo| groups::group_of(f) == groups::group_of(all[groups::leaders(all, n)[k]]),
                ),
    {
        assert(i < places.len());
        let place: usize = places[i];
        let ghost before = groups@;
        proof {
            reveal(Seq::filter);
            assert(all.take(i + 1).drop_last() =~= all.take(i as int));
            assert(all.take(i + 1).last() == info);
            groups::leaders_ascend(all, n);
            groups::leader_is_first(all, i as int);
        }
        groups[place].push(info);
        proof {
            assert forall|k: int| 0 <= k < groups@.len() implies #[trigger] groups@[k]@
                == all.take(i + 1).filter(
                |f: FileInfo| groups::group_of(f) == groups::group_of(all[groups::leaders(all, n)[k]]),
            ) by {
                let l = groups::leaders(all, n)[k];
                assert(before[k]@ == all.take(i as int).filter(
                    |f: FileInfo| groups::group_of(f) == groups::group_of(all[groups::leaders(all, n)[k]]),
                ));
                groups::same_group_same_leader(all, l, i as int);
                assert(firsts@[place as int] == groups::leaders(all, n)[place as int]);
                if k < place {
                    assert(groups::leaders(all, n)[k] < groups::leaders(all, n)[place as int]);
                } else if place < k {
                    assert(groups::leaders(all, n)[place as int] < groups::leaders(all, n)[k]);
                }
            }
        }
        i = i + 1;
    }
    proof {
        assert(all.take(n) =~= all);
        assert(contents(groups@) =~= grouped(all));
    }
    groups
}

/// The entries of the groups, one group after the other.
fn flatten_groups(groups: Vec<Vec<FileInfo>>) -> (r: Vec<FileInfo>)
    ensures
        r@ == contents(groups@).flatten(),
{
    let ghost all = groups@;
    let mut r: Vec<FileInfo> = Vec::new();
    assert(contents(all.take(0)).flatten() =~= Seq::empty());
    for group in it: groups
        invariant
            it.seq() == all,
            r@ == contents(all.take(it.index())).flatten(),
    {
        proof {
            let done = contents(all.take(it.index()));
            done.lemma_flatten_push(group@);
            assert(contents(all.take(it.index() + 1)) =~= done.push(group@));
        }
        let mut group = group;
        r.append(&mut group);
    }
    assert(all.take(all.len() as int) =~= all);
    r
}

} // verus!
