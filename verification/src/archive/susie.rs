//! Archives that a plug-in reads.

use std::sync::Arc;

use vstd::prelude::*;

use super::{image_file_name, ArchiveFormat, ArchiveHandler};
use crate::archive;
use crate::extension_registry;
use crate::extension_registry::ExtensionRegistry;

verus! {

/// Takes the archives of one plug-in.
pub struct SusieArchiveHandler {
    /// The number of the plug-in.
    pub plugin: usize,
    pub registry: Arc<ExtensionRegistry>,
    /// The plug-in's extensions, in lower case with their dots.
    pub extensions: Vec<String>,
}

impl SusieArchiveHandler {
    pub fn new(plugin: usize, extensions: Vec<String>, registry: Arc<ExtensionRegistry>) -> (
        r: Self)
        ensures
            r.plugin == plugin,
            r.extensions == extensions,
            r.registry == registry,
    {
        SusieArchiveHandler { plugin, registry, extensions }
    }

    /// The file name under which an entry is extracted; none where it is passed
    /// over. The plug-in lists no folders.
    pub fn wanted(&self, entry_path: &str) -> (r: Option<String>)
        ensures
            match r {
                Some(name) => archive::image_entry(self.registry.images@, entry_path@, false)
                    && name@ == archive::flat_name(entry_path@),
                None => !archive::image_entry(self.registry.images@, entry_path@, false),
            },
    {
        image_file_name(&*self.registry, entry_path, false)
    }
}

impl ArchiveHandler for SusieArchiveHandler {
    open spec fn takes(&self) -> Seq<Seq<char>> {
        extension_registry::texts(self.extensions@)
    }

    open spec fn reads_on_demand(&self) -> bool {
        false
    }

    open spec fn program(&self) -> ArchiveFormat {
        ArchiveFormat::Plugin(self.plugin)
    }

    fn supported_extensions(&self) -> (r: Vec<String>) {
        let mut r: Vec<String> = Vec::new();
        let mut i: usize = 0;
        while i < self.extensions.len()
            invariant
                i <= self.extensions@.len(),
                r@.len() == i,
                forall|k: int| 0 <= k < i ==> #[trigger] r@[k]@ == self.extensions@[k]@,
            decreases self.extensions.len() - i,
        {
            r.push(self.extensions[i].clone());
            i = i + 1;
        }
        assert(extension_registry::texts(r@) =~= self.takes());
        r
    }

    fn supports_on_demand(&self) -> (r: bool) {
        false
    }

    fn format(&self) -> (r: ArchiveFormat) {
        ArchiveFormat::Plugin(self.plugin)
    }
}

} // verus!
