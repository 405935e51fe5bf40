//! RAR archives, which are read as a stream from front to back.

use std::sync::Arc;

use vstd::prelude::*;

use super::{image_file_name, ArchiveFormat, ArchiveHandler};
use crate::archive;
use crate::extension_registry;
use crate::extension_registry::ExtensionRegistry;

verus! {

/// Takes RAR archives.
pub struct RarHandler {
    pub registry: Arc<ExtensionRegistry>,
}

/// What the stream gives as its next header.
pub enum RarHeader {
    Entry { entry_path: String, is_dir: bool },
    End,
    Failed,
}

/// What to do with the stream.
#[derive(Debug)]
pub enum RarStep {
    /// Read the entry and store it under the file name.
    Store { file_name: String },
    /// Pass over the entry.
    Skip,
    /// Stop reading.
    Stop,
}

/// An extraction: the stored paths with their entries' paths, and whether the
/// stream is to be read on.
pub struct RarExtraction {
    pub results: Vec<(String, String)>,
    pub running: bool,
}

impl RarHandler {
    pub fn new(registry: Arc<ExtensionRegistry>) -> (r: Self)
        ensures
            r.registry == registry,
    {
        RarHandler { registry }
    }

    /// Starts an extraction.
    pub fn begin(&self) -> (r: RarExtraction)
        ensures
            r.results@.len() == 0,
            r.running,
    {
        RarExtraction { results: Vec::new(), running: true }
    }

    /// Decides on the next header: images are stored, other entries passed over;
    /// at the end and at an error the reading stops.
    pub fn on_header(&self, header: &RarHeader) -> (r: RarStep)
        ensures
            match header {
                RarHeader::Entry { entry_path, is_dir } => if archive::image_entry(
                    self.registry.images@,
                    entry_path@,
                    *is_dir,
                ) {
                    r matches RarStep::Store { file_name } && file_name@ == archive::flat_name(
                        entry_path@,
                    )
                } else {
                    r is Skip
                },
                _ => r is Stop,
            },
    {
        match header {
            RarHeader::Entry { entry_path, is_dir } => match image_file_name(
                &*self.registry,
                entry_path.as_str(),
                *is_dir,
            ) {
                Some(file_name) => RarStep::Store { file_name },
                None => RarStep::Skip,
            },
            RarHeader::End => RarStep::Stop,
            RarHeader::Failed => RarStep::Stop,
        }
    }
}

impl RarExtraction {
    /// Notes an entry that was read. It counts where it was also written; an
    /// entry that could not be read ends the extraction.
    pub fn on_read(&mut self, read: bool, written: bool, out_path: String, entry_path: String)
        ensures
            final(self).running == (old(self).running && read),
            final(self).results@ == (if read && written {
                old(self).results@.push((out_path, entry_path))
            } else {
                old(self).results@
            }),
    {
        if read {
            if written {
                self.results.push((out_path, entry_path));
            }
        } else {
            self.running = false;
        }
    }

    /// Notes that an entry was passed over; a failure ends the extraction.
    pub fn on_skipped(&mut self, skipped: bool)
        ensures
            final(self).running == (old(self).running && skipped),
            final(self).results == old(self).results,
    {
        if !skipped {
            self.running = false;
        }
    }
}

impl ArchiveHandler for RarHandler {
    open spec fn takes(&self) -> Seq<Seq<char>> {
        seq![".rar"@, ".cbr"@]
    }

    open spec fn reads_on_demand(&self) -> bool {
        false
    }

    open spec fn program(&self) -> ArchiveFormat {
        ArchiveFormat::Rar
    }

    fn supported_extensions(&self) -> (r: Vec<String>) {
        let mut r: Vec<String> = Vec::new();
        r.push(".rar".to_owned());
        r.push(".cbr".to_owned());
        assert(extension_registry::texts(r@) =~= self.takes());
        r
    }

    fn supports_on_demand(&self) -> (r: bool) {
        false
    }

    fn format(&self) -> (r: ArchiveFormat) {
        ArchiveFormat::Rar
    }
}

} // verus!
