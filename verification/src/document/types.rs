//! What a document is told, what it answers and what it asks to be done.

use vstd::prelude::*;

use crate::archive::ArchiveImageEntry;
use crate::file_info::FileMetadata;
use crate::text;
use crate::text::{decimal_text, join2, join3};

verus! {

/// What went wrong, for the user.
#[derive(Debug)]
pub enum DocumentError {
    /// A container could not be read.
    Container { path: String, error: String },
    /// So many of the containers could not be read.
    Unopened { count: usize },
    /// An image could not be decoded.
    Undecodable { path: String, error: String },
    /// Any other trouble.
    Other(String),
}

impl DocumentError {
    pub open spec fn text(&self) -> Seq<char> {
        match self {
            DocumentError::Container { path, error } => path@ + ": "@ + error@,
            DocumentError::Unopened { count } => text::decimal(*count as nat)
                + "件のコンテナを開けませんでした"@,
            DocumentError::Undecodable { path, error } => path@ + ": "@ + error@,
            DocumentError::Other(error) => error@,
        }
    }

    /// The error in words.
    pub fn message(&self) -> (r: String)
        ensures
            r@ == self.text(),
    {
        match self {
            DocumentError::Container { path, error } => join3(path.as_str(), ": ", error.as_str()),
            DocumentError::Unopened { count } => {
                let n = decimal_text(*count as u64);
                join2(n.as_str(), "件のコンテナを開けませんでした")
            },
            DocumentError::Undecodable { path, error } => join3(
                path.as_str(),
                ": ",
                error.as_str(),
            ),
            DocumentError::Other(error) => error.clone(),
        }
    }
}

/// What the window is told.
#[derive(Debug)]
pub enum DocumentEvent {
    /// The image changed and can be drawn.
    ImageReady,
    /// The list changed.
    FileListChanged,
    /// The position changed.
    NavigationChanged { index: usize },
    Error(DocumentError),
}

/// What is to be done outside the document, in order.
#[derive(Debug)]
pub enum Effect {
    /// Tell the window.
    Event(DocumentEvent),
    /// Get the image of the entry, from the cache or by decoding, and answer with
    /// `image_cached` or `image_decoded` before the next effect.
    Load { index: usize },
    /// Decode ahead around the entry.
    Prefetch { center: usize },
    /// Forget the images that were decoded ahead.
    DropCache,
    /// Stop the expansion that is under way; the container at hand is finished.
    CancelExpansion,
    /// Expand the containers one after the other and report each.
    Expand { paths: Vec<String>, generation: u64 },
    /// Keep the container's bytes at hand.
    KeepBuffer(String),
    /// Forget all containers' bytes.
    DropBuffers,
    /// Remove a folder with extracted files.
    RemoveFolder(String),
}

/// A file that was extracted from an archive.
#[derive(Debug)]
pub struct ExtractedEntry {
    pub path: String,
    /// The path in the archive.
    pub entry_name: String,
    /// None where the metadata could not be read.
    pub metadata: Option<FileMetadata>,
}

/// What reading a container gave.
#[derive(Debug)]
pub enum ContainerResult {
    Pdf { path: String, page_count: u32, file_size: u64 },
    Zip { path: String, images: Vec<ArchiveImageEntry> },
    TempExtracted { path: String, temp_dir: String, entries: Vec<ExtractedEntry> },
    Error { path: String, error: String },
}

/// How far a container is.
#[derive(Debug, Clone, Copy, PartialEq, Eq, Structural)]
pub enum ContainerState {
    /// Its placeholder stands in the list.
    Pending,
    /// It is being expanded.
    InFlight,
    /// It is expanded, or failed.
    Expanded,
}

/// What an expansion reports.
#[derive(Debug)]
pub enum ContainerExpandEvent {
    /// A container was read.
    Expanded { container_path: String, result: ContainerResult, generation: u64 },
    /// All containers were read.
    AllDone { generation: u64 },
}

} // verus!
