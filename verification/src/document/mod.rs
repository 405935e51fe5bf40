//! The document: the list of images, its containers and the shown image.

use std::sync::Arc;

use vstd::prelude::*;

pub mod container;
pub mod editing;
pub mod expansion;
pub mod laws;
pub mod list;
pub mod loading;
pub mod open;
pub mod open_laws;
pub mod prefetch;
pub mod states;
pub mod types;
pub mod utils;

use crate::archive::ArchiveManager;
use crate::bookmark;
use crate::bookmark::is_bookmark_file;
use crate::editing::EditingSession;
use crate::extension_registry;
use crate::extension_registry::ExtensionRegistry;
use crate::file_info::{FileInfo, FileSource};
use crate::file_list::{FileList, ListView, NavigationDirection, SortOrder};
use crate::image::DecodedImage;
use crate::paths;
use crate::paths::extension_of;
use crate::persistent_filter::PersistentFilter;
use crate::text;
use crate::text::equals_ignoring_case;
use states::{ContainerStates, StatesView};
use types::{DocumentEvent, Effect};

verus! {

/// The list of images with all that belongs to it. What is to be done outside is
/// noted as effects, to be taken and carried out in order.
pub struct Document {
    pub file_list: FileList,
    pub archives: ArchiveManager,
    pub current_image: Option<DecodedImage>,
    /// The edit of the shown image, while there is one.
    pub editing_session: Option<EditingSession>,
    pub persistent_filter: PersistentFilter,
    /// The folders with extracted files.
    pub temp_dirs: Vec<String>,
    /// The containers that were opened.
    pub containers: Vec<String>,
    pub states: ContainerStates,
    /// An expansion reports to the document.
    pub expanding: bool,
    /// An expansion can be stopped.
    pub cancellable: bool,
    /// Tells expansions apart.
    pub generation: u64,
    /// The direction of the last move.
    pub direction: NavigationDirection,
    /// The container that the user waits for, and the direction of arrival.
    pub intent: Option<(String, NavigationDirection)>,
    pub effects: Vec<Effect>,
}

/// What a document holds.
#[verifier::ext_equal]
pub struct DocView {
    pub list: ListView,
    pub extensions: ExtensionRegistry,
    pub archives: ArchiveManager,
    pub image: Option<DecodedImage>,
    pub edit: Option<EditingSession>,
    pub filter: PersistentFilter,
    pub temp_dirs: Seq<String>,
    pub containers: Seq<String>,
    pub states: StatesView,
    pub expanding: bool,
    pub cancellable: bool,
    pub generation: u64,
    pub direction: NavigationDirection,
    pub intent: Option<(String, NavigationDirection)>,
    pub out: Seq<Effect>,
}

impl DocView {
    /// The position lies in the list, no container has two states, and the shown
    /// image and the filters are complete.
    pub open spec fn wf(self) -> bool {
        &&& self.list.valid()
        &&& states::distinct(self.states)
        &&& self.filter.wf()
        &&& self.image matches Some(image) ==> image.wf()
    }
}

impl View for Document {
    type V = DocView;

    open spec fn view(&self) -> DocView {
        DocView {
            list: self.file_list@,
            extensions: self.file_list.extensions(),
            archives: self.archives,
            image: self.current_image,
            edit: self.editing_session,
            filter: self.persistent_filter,
            temp_dirs: self.temp_dirs@,
            containers: self.containers@,
            states: self.states@,
            expanding: self.expanding,
            cancellable: self.cancellable,
            generation: self.generation,
            direction: self.direction,
            intent: self.intent,
            out: self.effects@,
        }
    }
}

/// One more effect.
pub open spec fn sent(d: DocView, effect: Effect) -> DocView {
    DocView { out: d.out.push(effect), ..d }
}

/// The window is told.
pub open spec fn told(d: DocView, event: DocumentEvent) -> DocView {
    sent(d, Effect::Event(event))
}

/// The window is told of the position, where there is one.
pub open spec fn position_told(d: DocView) -> DocView {
    match d.list.current {
        Some(i) => told(d, DocumentEvent::NavigationChanged { index: i as usize }),
        None => d,
    }
}

/// Decoding ahead is asked for, where there is a position.
pub open spec fn prefetch_asked(d: DocView) -> DocView {
    match d.list.current {
        Some(i) => sent(d, Effect::Prefetch { center: i as usize }),
        None => d,
    }
}

/// No entry counts as failed.
pub open spec fn without_failures(list: ListView) -> ListView {
    ListView {
        files: Seq::new(
            list.files.len(),
            |i: int| FileInfo { load_failed: false, ..list.files[i] },
        ),
        ..list
    }
}

/// What was decoded ahead is forgotten, and which entries failed.
pub open spec fn cache_dropped(d: DocView) -> DocView {
    DocView { list: without_failures(d.list), ..sent(d, Effect::DropCache) }
}

/// The effects that remove folders.
pub open spec fn removals(dirs: Seq<String>) -> Seq<Effect> {
    dirs.map_values(|p: String| Effect::RemoveFolder(p))
}

/// The containers are forgotten, with their bytes and extracted files.
pub open spec fn cleaned_up(d: DocView) -> DocView {
    DocView {
        temp_dirs: Seq::empty(),
        containers: Seq::empty(),
        out: (d.out + removals(d.temp_dirs)).push(Effect::DropBuffers),
        ..d
    }
}

/// The path is a PDF file's, by its extension.
pub open spec fn is_pdf_path(path: Seq<char>) -> bool {
    paths::spec_extension(path) matches Some(ext) && text::same_ignoring_case(ext, "pdf"@)
}

/// The path is an archive's, by its extension.
pub open spec fn is_archive_path(archives: ArchiveManager, path: Seq<char>) -> bool {
    paths::spec_file_name(path) matches Some(name) && extension_registry::name_listed(
        archives.registry.archives@,
        name,
    )
}

/// The path is an archive's, a PDF file's or a bookmark's.
pub open spec fn is_container_path(archives: ArchiveManager, path: Seq<char>) -> bool {
    is_archive_path(archives, path) || is_pdf_path(path) || bookmark::is_bookmark(path)
}

impl Document {
    pub open spec fn wf(&self) -> bool {
        self@.wf()
    }

    /// A document without images.
    pub fn new(
        registry: Arc<ExtensionRegistry>,
        archive_manager: ArchiveManager,
        default_sort: SortOrder,
    ) -> (r: Self)
        ensures
            r.wf(),
            r@.list == (ListView { files: Seq::empty(), current: None, order: default_sort }),
            r@.extensions == *registry,
            r@.archives == archive_manager,
            r@.image is None,
            r@.edit is None,
            !r@.filter.enabled,
            r@.filter.operations@.len() == 0,
            r@.temp_dirs.len() == 0,
            r@.containers.len() == 0,
            r@.states.len() == 0,
            !r@.expanding,
            !r@.cancellable,
            r@.generation == 0,
            r@.direction == NavigationDirection::Forward,
            r@.intent is None,
            r@.out.len() == 0,
    {
        let mut file_list = FileList::new(registry);
        file_list.set_sort_order(default_sort);
        Document {
            file_list,
            archives: archive_manager,
            current_image: None,
            editing_session: None,
            persistent_filter: PersistentFilter::new(),
            temp_dirs: Vec::new(),
            containers: Vec::new(),
            states: ContainerStates::new(),
            expanding: false,
            cancellable: false,
            generation: 0,
            direction: NavigationDirection::Forward,
            intent: None,
            effects: Vec::new(),
        }
    }

    /// Hands out the effects; none is left.
    pub fn take_effects(&mut self) -> (r: Vec<Effect>)
        ensures
            r@ == old(self)@.out,
            final(self)@ == (DocView { out: Seq::empty(), ..old(self)@ }),
    {
        let mut taken: Vec<Effect> = Vec::new();
        std::mem::swap(&mut self.effects, &mut taken);
        assert(self.effects@ =~= Seq::<Effect>::empty());
        taken
    }

    pub(crate) fn send(&mut self, effect: Effect)
        ensures
            final(self)@ == sent(old(self)@, effect),
    {
        self.effects.push(effect);
    }

    pub(crate) fn tell(&mut self, event: DocumentEvent)
        ensures
            final(self)@ == told(old(self)@, event),
    {
        self.effects.push(Effect::Event(event));
    }

    pub(crate) fn send_navigation_changed(&mut self)
        ensures
            final(self)@ == position_told(old(self)@),
    {
        match self.file_list.current_index() {
            Some(index) => self.tell(DocumentEvent::NavigationChanged { index }),
            None => {},
        }
    }

    pub(crate) fn schedule_prefetch(&mut self)
        ensures
            final(self)@ == prefetch_asked(old(self)@),
    {
        match self.file_list.current_index() {
            Some(center) => self.send(Effect::Prefetch { center }),
            None => {},
        }
    }

    pub(crate) fn invalidate_cache(&mut self)
        ensures
            final(self)@ == cache_dropped(old(self)@),
    {
        self.send(Effect::DropCache);
        self.file_list.clear_failed();
        assert(self@ =~= cache_dropped(old(self)@));
    }

    /// Forgets the containers, with their bytes and extracted files.
    pub fn cleanup_archive_temp(&mut self)
        ensures
            final(self)@ == cleaned_up(old(self)@),
    {
        let ghost before = self@;
        let mut dirs: Vec<String> = Vec::new();
        std::mem::swap(&mut self.temp_dirs, &mut dirs);
        let ghost all = dirs@;
        let ghost stripped = self@;
        assert(removals(all.take(0)) =~= Seq::empty());
        for dir in it: dirs
            invariant
                it.seq() == all,
                self@ == (DocView { out: before.out + removals(all.take(it.index())), ..stripped }),
        {
            let ghost mid = self@.out;
            self.send(Effect::RemoveFolder(dir));
            assert(removals(all.take(it.index() + 1)) =~= removals(all.take(it.index())).push(
                Effect::RemoveFolder(dir),
            ));
            assert(self@.out =~= before.out + removals(all.take(it.index() + 1)));
        }
        assert(all.take(all.len() as int) =~= all);
        self.containers.clear();
        self.send(Effect::DropBuffers);
        assert(self@ =~= cleaned_up(before));
    }

    /// Whether the path is a PDF file's, by its extension.
    pub fn is_pdf(path: &str) -> (r: bool)
        ensures
            r == is_pdf_path(path@),
    {
        match extension_of(path) {
            Some(ext) => equals_ignoring_case(ext.as_str(), "pdf"),
            None => false,
        }
    }

    /// Whether the path is an archive's, a PDF file's or a bookmark's.
    pub fn is_container(&self, path: &str) -> (r: bool)
        ensures
            r == is_container_path(self@.archives, path@),
    {
        self.archives.is_archive(path) || Self::is_pdf(path) || is_bookmark_file(path)
    }

    /// Whether the path is an archive's, by its extension.
    pub fn is_archive_path(&self, path: &str) -> (r: bool)
        ensures
            r == is_archive_path(self@.archives, path@),
    {
        self.archives.is_archive(path)
    }

    /// The shown image.
    pub fn current_image(&self) -> (r: Option<&DecodedImage>)
        ensures
            match r {
                Some(image) => self@.image == Some(*image),
                None => self@.image is None,
            },
    {
        self.current_image.as_ref()
    }

    /// The path of the current entry.
    pub fn current_path(&self) -> (r: Option<String>)
        requires
            self.wf(),
        ensures
            r == (match self@.list.current {
                Some(i) => Some(self@.list.files[i].path),
                None => None,
            }),
    {
        match self.file_list.current() {
            Some(info) => Some(info.path.clone()),
            None => None,
        }
    }

    /// The source of the current entry.
    pub fn current_source(&self) -> (r: Option<FileSource>)
        requires
            self.wf(),
        ensures
            r == (match self@.list.current {
                Some(i) => Some(self@.list.files[i].source),
                None => None,
            }),
    {
        match self.file_list.current() {
            Some(info) => Some(info.source.clone()),
            None => None,
        }
    }

    /// The list of images.
    pub fn file_list(&self) -> (r: &FileList)
        ensures
            *r == self.file_list,
    {
        &self.file_list
    }

    /// The filters for every image.
    pub fn persistent_filter(&self) -> (r: &PersistentFilter)
        ensures
            *r == self@.filter,
    {
        &self.persistent_filter
    }
}

} // verus!
