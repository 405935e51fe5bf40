//! One entry of a file list and where its image comes from.

use vstd::prelude::*;

use crate::text;
use crate::paths;
use crate::paths::{file_name_of, file_stem_of, parent_of};
use crate::text::{decimal_text, join2, join3};

verus! {

/// Where an entry's image comes from.
#[derive(Debug)]
pub enum FileSource {
    /// A file of the file system.
    File(String),
    /// An entry of an archive, read on demand or extracted beforehand.
    ArchiveEntry { archive: String, entry: String, on_demand: bool },
    /// A page of a PDF document, counted from zero.
    PdfPage { pdf_path: String, page_index: u32 },
    /// A container that is not expanded yet.
    PendingContainer { container_path: String },
}

/// What a source holds, as text.
pub enum SourceView {
    File(Seq<char>),
    ArchiveEntry { archive: Seq<char>, entry: Seq<char>, on_demand: bool },
    PdfPage { pdf_path: Seq<char>, page_index: u32 },
    PendingContainer(Seq<char>),
}

impl View for FileSource {
    type V = SourceView;

    open spec fn view(&self) -> SourceView {
        match self {
            FileSource::File(path) => SourceView::File(path@),
            FileSource::ArchiveEntry { archive, entry, on_demand } => SourceView::ArchiveEntry {
                archive: archive@,
                entry: entry@,
                on_demand: *on_demand,
            },
            FileSource::PdfPage { pdf_path, page_index } => SourceView::PdfPage {
                pdf_path: pdf_path@,
                page_index: *page_index,
            },
            FileSource::PendingContainer { container_path } => SourceView::PendingContainer(
                container_path@,
            ),
        }
    }
}

impl Clone for FileSource {
    fn clone(&self) -> (r: Self)
        ensures
            r == *self,
    {
        match self {
            FileSource::File(path) => FileSource::File(path.clone()),
            FileSource::ArchiveEntry { archive, entry, on_demand } => FileSource::ArchiveEntry {
                archive: archive.clone(),
                entry: entry.clone(),
                on_demand: *on_demand,
            },
            FileSource::PdfPage { pdf_path, page_index } => FileSource::PdfPage {
                pdf_path: pdf_path.clone(),
                page_index: *page_index,
            },
            FileSource::PendingContainer { container_path } => FileSource::PendingContainer {
                container_path: container_path.clone(),
            },
        }
    }
}

/// A text, or a substitute where there is none.
pub open spec fn text_or(o: Option<Seq<char>>, other: Seq<char>) -> Seq<char> {
    match o {
        Some(s) => s,
        None => other,
    }
}

fn or_text(o: Option<String>, other: &str) -> (r: String)
    ensures
        r@ == text_or(paths::opt_text(o), other@),
{
    match o {
        Some(s) => s,
        None => other.to_owned(),
    }
}

impl FileSource {
    /// The path by which the source is shown and sorted.
    pub open spec fn shown(&self) -> Seq<char> {
        match self {
            FileSource::File(path) => path@,
            FileSource::ArchiveEntry { archive, entry, .. } => archive@ + "/"@ + entry@,
            FileSource::PdfPage { pdf_path, page_index } => pdf_path@ + "/Page "@ + text::decimal(
                (*page_index + 1) as nat,
            ),
            FileSource::PendingContainer { container_path } => container_path@ + " (未展開)"@,
        }
    }

    /// The file that holds the image: the container, or the file itself.
    pub open spec fn holder(&self) -> Seq<char> {
        match self {
            FileSource::File(path) => path@,
            FileSource::ArchiveEntry { archive, .. } => archive@,
            FileSource::PdfPage { pdf_path, .. } => pdf_path@,
            FileSource::PendingContainer { container_path } => container_path@,
        }
    }

    /// The file name that a save dialog offers.
    pub open spec fn save_name(&self) -> Seq<char> {
        match self {
            FileSource::File(path) => text_or(paths::spec_file_name(path@), "image"@),
            FileSource::ArchiveEntry { archive, entry, .. } => text_or(
                paths::spec_file_stem(archive@),
                "archive"@,
            ) + "_"@ + text_or(paths::spec_file_name(entry@), "image"@),
            FileSource::PdfPage { pdf_path, page_index } => text_or(
                paths::spec_file_stem(pdf_path@),
                "pdf"@,
            ) + "_page"@ + text::decimal((*page_index + 1) as nat) + ".png"@,
            FileSource::PendingContainer { container_path } => text_or(
                paths::spec_file_name(container_path@),
                "container"@,
            ),
        }
    }

    /// The path by which the source is shown.
    pub fn display_path(&self) -> (r: String)
        ensures
            r@ == self.shown(),
    {
        match self {
            FileSource::File(path) => path.clone(),
            FileSource::ArchiveEntry { archive, entry, .. } => join3(
                archive.as_str(),
                "/",
                entry.as_str(),
            ),
            FileSource::PdfPage { pdf_path, page_index } => {
                let page = decimal_text(*page_index as u64 + 1);
                join3(pdf_path.as_str(), "/Page ", page.as_str())
            },
            FileSource::PendingContainer { container_path } => join2(
                container_path.as_str(),
                " (未展開)",
            ),
        }
    }

    /// Whether the image lies in a container. Deleting and moving are not
    /// offered then.
    pub fn is_contained(&self) -> (r: bool)
        ensures
            r == !(self is File),
    {
        match self {
            FileSource::File(_) => false,
            _ => true,
        }
    }

    /// Whether the source is a container that is not expanded yet.
    pub fn is_pending_container(&self) -> (r: bool)
        ensures
            r == (self is PendingContainer),
    {
        match self {
            FileSource::PendingContainer { .. } => true,
            _ => false,
        }
    }

    /// The folder in which dialogs for the source start.
    pub fn parent_dir(&self) -> (r: Option<String>)
        ensures
            paths::opt_text(r) == paths::spec_parent(self.holder()),
    {
        match self {
            FileSource::File(path) => parent_of(path.as_str()),
            FileSource::ArchiveEntry { archive, .. } => parent_of(archive.as_str()),
            FileSource::PdfPage { pdf_path, .. } => parent_of(pdf_path.as_str()),
            FileSource::PendingContainer { container_path } => parent_of(container_path.as_str()),
        }
    }

    /// The file name that a save dialog offers.
    pub fn default_save_name(&self) -> (r: String)
        ensures
            r@ == self.save_name(),
    {
        match self {
            FileSource::File(path) => or_text(file_name_of(path.as_str()), "image"),
            FileSource::ArchiveEntry { archive, entry, .. } => {
                let stem = or_text(file_stem_of(archive.as_str()), "archive");
                let name = or_text(file_name_of(entry.as_str()), "image");
                join3(stem.as_str(), "_", name.as_str())
            },
            FileSource::PdfPage { pdf_path, page_index } => {
                let stem = or_text(file_stem_of(pdf_path.as_str()), "pdf");
                let page = decimal_text(*page_index as u64 + 1);
                let head = join3(stem.as_str(), "_page", page.as_str());
                join2(head.as_str(), ".png")
            },
            FileSource::PendingContainer { container_path } => or_text(
                file_name_of(container_path.as_str()),
                "container",
            ),
        }
    }

    /// The offered file name without its extension.
    pub fn default_save_stem(&self) -> (r: String)
        ensures
            r@ == text_or(paths::spec_file_stem(self.save_name()), "image"@),
    {
        let name = self.default_save_name();
        or_text(file_stem_of(name.as_str()), "image")
    }

    /// The container of a contained source.
    pub fn archive_path(&self) -> (r: Option<String>)
        ensures
            paths::opt_text(r) == (if self is File {
                None
            } else {
                Some(self.holder())
            }),
    {
        match self {
            FileSource::File(_) => None,
            FileSource::ArchiveEntry { archive, .. } => Some(archive.clone()),
            FileSource::PdfPage { pdf_path, .. } => Some(pdf_path.clone()),
            FileSource::PendingContainer { container_path } => Some(container_path.clone()),
        }
    }

    /// Whether the source is an entry of an archive.
    pub fn is_archive_entry(&self) -> (r: bool)
        ensures
            r == (self is ArchiveEntry),
    {
        match self {
            FileSource::ArchiveEntry { .. } => true,
            _ => false,
        }
    }
}

/// What the file system says of a file: its size in bytes and the time of its
/// last change, in nanoseconds from the start of 1970.
#[derive(Debug)]
pub struct FileMetadata {
    pub size: u64,
    pub modified: i128,
}

/// One entry of a file list.
#[derive(Debug)]
pub struct FileInfo {
    /// The file to decode; for an extracted archive entry the extracted file.
    pub path: String,
    /// Where the image comes from, for display, saving and bookmarks.
    pub source: FileSource,
    pub file_name: String,
    pub file_size: u64,
    /// Time of the last change, in nanoseconds from the start of 1970.
    pub modified: i128,
    pub marked: bool,
    /// Decoding failed; navigation passes over the entry.
    pub load_failed: bool,
}

impl FileInfo {
    /// The number by which entries are sorted by size.
    pub open spec fn size_key(&self) -> int {
        self.file_size as int
    }

    /// The number by which entries are sorted by date.
    pub open spec fn date_key(&self) -> int {
        self.modified as int
    }

    /// The entry is a plain file with the given path and metadata.
    pub open spec fn describes(&self, path: Seq<char>, size: u64, modified: i128) -> bool {
        &&& self.path@ == path
        &&& self.source matches FileSource::File(p) && p@ == path
        &&& self.file_name@ == text_or(paths::spec_file_name(path), ""@)
        &&& self.file_size == size
        &&& self.modified == modified
    }

    /// The entry of a plain file, neither marked nor failed.
    pub fn from_path(path: &str, metadata: &FileMetadata) -> (r: Self)
        ensures
            r.describes(path@, metadata.size, metadata.modified),
            !r.marked,
            !r.load_failed,
    {
        FileInfo {
            path: path.to_owned(),
            source: FileSource::File(path.to_owned()),
            file_name: or_text(file_name_of(path), ""),
            file_size: metadata.size,
            modified: metadata.modified,
            marked: false,
            load_failed: false,
        }
    }
}

impl Clone for FileInfo {
    fn clone(&self) -> (r: Self)
        ensures
            r == *self,
    {
        FileInfo {
            path: self.path.clone(),
            source: self.source.clone(),
            file_name: self.file_name.clone(),
            file_size: self.file_size,
            modified: self.modified,
            marked: self.marked,
            load_failed: self.load_failed,
        }
    }
}

/// A path is shown as it is, an entry of an archive behind the archive's path and a slash,
/// and a page of a document behind the document's path with its number from one on.
pub proof fn shown_path_tells_source(source: FileSource)
    ensures
        source matches FileSource::File(path) ==> source.shown() == path@,
        source matches FileSource::ArchiveEntry { archive, entry, .. } ==> source.shown().len()
            == archive@.len() + 1 + entry@.len() && source.shown().take(archive@.len() as int)
            == archive@ && source.shown()[archive@.len() as int] == '/' && source.shown().skip(
            (archive@.len() + 1) as int,
        ) == entry@,
        source matches FileSource::PdfPage { pdf_path, page_index } ==> source.shown().take(
            pdf_path@.len() as int,
        ) == pdf_path@ && source.shown().skip(pdf_path@.len() as int) == "/Page "@ + text::decimal(
            (page_index + 1) as nat,
        ),
{
    reveal_strlit("/");
    match source {
        FileSource::ArchiveEntry { archive, entry, .. } => {
            assert(source.shown().take(archive@.len() as int) =~= archive@);
            assert(source.shown().skip((archive@.len() + 1) as int) =~= entry@);
        },
        FileSource::PdfPage { pdf_path, page_index } => {
            assert(source.shown().take(pdf_path@.len() as int) =~= pdf_path@);
            assert(source.shown().skip(pdf_path@.len() as int) =~= "/Page "@ + text::decimal(
                (page_index + 1) as nat,
            ));
        },
        _ => {},
    }
}

/// What holds an image is the file on the disk: the image's own file, or the container.
pub proof fn holder_is_on_disk(source: FileSource)
    ensures
        source matches FileSource::File(path) ==> source.holder() == path@,
        source matches FileSource::ArchiveEntry { archive, .. } ==> source.holder() == archive@,
        source matches FileSource::PdfPage { pdf_path, .. } ==> source.holder() == pdf_path@,
        source matches FileSource::PendingContainer { container_path } ==> source.holder()
            == container_path@,
{
}

} // verus!
