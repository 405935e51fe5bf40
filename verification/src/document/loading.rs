//! The image of the current entry.

use vstd::prelude::*;

use super::expansion;
use super::types::{DocumentError, DocumentEvent, Effect};
use super::{DocView, Document};
use crate::archive;
use crate::archive::zip::ZipHandler;
use crate::archive::{ArchiveError, ArchiveFormat, ArchiveHandler};
use crate::document;
use crate::file_info::{FileInfo, FileSource};
use crate::file_list::ListView;
use crate::image;
use crate::image::{DecodedImage, ImageMetadata};
use crate::persistent_filter;
use crate::persistent_filter::PersistentFilter;

verus! {

/// The image of the current entry is got. A placeholder is waited for: there is
/// no image, and its container is expanded first.
pub open spec fn loads(before: DocView, after: DocView) -> bool {
    match before.list.current {
        None => after == DocView { image: None, ..before },
        Some(i) => match before.list.files[i].source {
            FileSource::PendingContainer { container_path } => exists|mid: DocView|
                {
                    &&& #[trigger] expansion::rescheduled(
                        (DocView {
                            image: None,
                            intent: Some((container_path, before.direction)),
                            ..before
                        }),
                        mid,
                    )
                    &&& after == document::told(
                        document::position_told(mid),
                        DocumentEvent::ImageReady,
                    )
                },
            _ => after == document::sent(
                (DocView { intent: None, ..before }),
                Effect::Load { index: i as usize },
            ),
        },
    }
}

/// What is shown of a decoded image: the filters' result, or the image where
/// there is nothing to apply.
pub open spec fn shown(filter: PersistentFilter, image: DecodedImage, result: DecodedImage)
    -> bool {
    if filter.enabled && filter.operations@.len() > 0 {
        exists|steps: Seq<DecodedImage>| #[trigger]
            persistent_filter::chained(filter.operations@, steps) && image::same_image(
                image,
                steps[0],
            ) && steps.last() == result
    } else {
        result == image
    }
}

/// The window is told of the image and the position, and decoding goes ahead.
pub open spec fn presented(d: DocView) -> DocView {
    document::prefetch_asked(
        document::position_told(document::told(d, DocumentEvent::ImageReady)),
    )
}

/// The entry counts as failed.
pub open spec fn failed_at(list: ListView, index: int) -> ListView {
    ListView {
        files: list.files.update(index, (FileInfo { load_failed: true, ..list.files[index] })),
        ..list
    }
}

/// What decoding the current entry comes to.
pub open spec fn decoded(
    before: DocView,
    result: Result<DecodedImage, String>,
    after: DocView,
) -> bool {
    match result {
        Ok(image) => {
            &&& after.image matches Some(picture) && shown(before.filter, image, picture)
            &&& after == presented(DocView { image: after.image, ..before })
        },
        Err(error) => match before.list.current {
            Some(i) => after == document::prefetch_asked(
                document::position_told(
                    document::told(
                        (DocView { image: None, list: failed_at(before.list, i), ..before }),
                        DocumentEvent::Error(
                            DocumentError::Undecodable { path: before.list.files[i].path, error },
                        ),
                    ),
                ),
            ),
            None => false,
        },
    }
}

/// Why an entry's bytes or metadata cannot be had.
#[derive(Debug, Clone, Copy, PartialEq, Eq, Structural)]
pub enum LoadError {
    NothingSelected,
    NotExpanded,
    NotRendered,
}

impl LoadError {
    /// The error in words.
    pub fn message(self) -> (r: &'static str)
        ensures
            r@ == (match self {
                LoadError::NothingSelected => "ファイルが選択されていない"@,
                LoadError::NotExpanded => "未展開コンテナからは取得できない"@,
                LoadError::NotRendered => "PDFページが未レンダリング"@,
            }),
    {
        match self {
            LoadError::NothingSelected => "ファイルが選択されていない",
            LoadError::NotExpanded => "未展開コンテナからは取得できない",
            LoadError::NotRendered => "PDFページが未レンダリング",
        }
    }
}

/// Where an entry's bytes come from.
#[derive(Debug)]
pub enum DataPlan {
    /// From an archive.
    Entry { archive: String, entry: String },
    /// From a file.
    File(String),
}

/// Where the entry's bytes come from: an archive that is read on demand, or the
/// entry's file.
pub open spec fn plan_for(info: FileInfo) -> Result<DataPlan, LoadError> {
    match info.source {
        FileSource::ArchiveEntry { archive, entry, on_demand } => if on_demand {
            Ok(DataPlan::Entry { archive, entry })
        } else {
            Ok(DataPlan::File(info.path))
        },
        FileSource::PendingContainer { .. } => Err(LoadError::NotExpanded),
        _ => Ok(DataPlan::File(info.path)),
    }
}

/// Where the entry's bytes come from.
pub fn data_plan(info: &FileInfo) -> (r: Result<DataPlan, LoadError>)
    ensures
        r == plan_for(*info),
{
    match &info.source {
        FileSource::ArchiveEntry { archive, entry, on_demand } => if *on_demand {
            Ok(DataPlan::Entry { archive: archive.clone(), entry: entry.clone() })
        } else {
            Ok(DataPlan::File(info.path.clone()))
        },
        FileSource::PendingContainer { .. } => Err(LoadError::NotExpanded),
        _ => Ok(DataPlan::File(info.path.clone())),
    }
}

/// What decoding ahead gave for an entry.
pub struct PrefetchResponse {
    pub index: usize,
    pub result: Result<DecodedImage, String>,
    /// It was asked for since the list and the filters last changed.
    pub is_current_generation: bool,
}

/// The document took what was decoded ahead. An image of another generation is
/// dropped; that of the current entry is shown where there is none yet; any other
/// is handed back, through the filters, to be kept.
pub open spec fn response_taken(
    d: DocView,
    response: PrefetchResponse,
    after: DocView,
    kept: Option<DecodedImage>,
) -> bool {
    if !response.is_current_generation {
        kept is None && after == d
    } else {
        match response.result {
            Ok(image) => if d.list.current == Some(response.index as int) && d.image is None {
                &&& kept is None
                &&& after.image matches Some(p) && shown(d.filter, image, p)
                &&& after == document::told(
                    (DocView { image: after.image, ..d }),
                    DocumentEvent::ImageReady,
                )
            } else {
                &&& kept matches Some(p) && shown(d.filter, image, p)
                &&& after == d
            },
            Err(error) => {
                &&& kept is None
                &&& after == document::told(d, DocumentEvent::Error(DocumentError::Other(error)))
            },
        }
    }
}

/// The document took the responses one after the other.
pub open spec fn responses_taken(
    steps: Seq<DocView>,
    responses: Seq<PrefetchResponse>,
    kept: Seq<Option<DecodedImage>>,
) -> bool {
    &&& steps.len() == responses.len() + 1
    &&& kept.len() == responses.len()
    &&& forall|k: int|
        0 <= k < responses.len() ==> #[trigger] response_taken(
            steps[k],
            responses[k],
            steps[k + 1],
            kept[k],
        )
}

/// The images to be kept, each with its entry, in order.
pub open spec fn kept_images(
    responses: Seq<PrefetchResponse>,
    kept: Seq<Option<DecodedImage>>,
) -> Seq<(usize, DecodedImage)>
    decreases responses.len(),
{
    if responses.len() == 0 {
        Seq::empty()
    } else {
        let earlier = kept_images(responses.drop_last(), kept.drop_last());
        match kept.last() {
            Some(image) => earlier.push((responses.last().index, image)),
            None => earlier,
        }
    }
}

impl Document {
    /// Gets the image of the current entry.
    pub(crate) fn load_current(&mut self)
        requires
            old(self).wf(),
        ensures
            loads(old(self)@, final(self)@),
            final(self).wf(),
    {
        let index: usize = match self.file_list.current_index() {
            Some(i) => i,
            None => {
                self.current_image = None;
                return;
            },
        };
        match self.file_list.pending_container_path_at(index) {
            Some(path) => {
                self.current_image = None;
                self.intent = Some((path, self.direction));
                self.reschedule_background_expansion();
                self.send_navigation_changed();
                self.tell(DocumentEvent::ImageReady);
            },
            None => {
                self.intent = None;
                self.send(Effect::Load { index });
            },
        }
    }

    /// Shows the image of the current entry, which was decoded ahead.
    pub fn image_cached(&mut self, image: DecodedImage)
        requires
            old(self).wf(),
            image.wf(),
        ensures
            final(self)@ == presented(DocView { image: Some(image), ..old(self)@ }),
            final(self).wf(),
    {
        self.current_image = Some(image);
        self.tell(DocumentEvent::ImageReady);
        self.send_navigation_changed();
        self.schedule_prefetch();
    }

    /// Shows the image of the current entry, through the filters, or notes that it
    /// could not be decoded.
    pub fn image_decoded(&mut self, result: Result<DecodedImage, String>)
        requires
            old(self).wf(),
            old(self)@.list.current is Some,
            result matches Ok(image) ==> image.wf(),
        ensures
            decoded(old(self)@, result, final(self)@),
            final(self).wf(),
    {
        match result {
            Ok(image) => {
                let picture = match self.persistent_filter.apply(&image) {
                    Some(p) => p,
                    None => image,
                };
                assert(shown(self@.filter, image, picture));
                self.current_image = Some(picture);
                self.tell(DocumentEvent::ImageReady);
            },
            Err(error) => {
                self.current_image = None;
                let ghost before = self@;
                match self.file_list.current_index() {
                    Some(index) => {
                        let path = self.file_list.files()[index].path.clone();
                        self.file_list.mark_failed(index);
                        assert(self@.list =~= failed_at(before.list, index as int));
                        self.tell(
                            DocumentEvent::Error(DocumentError::Undecodable { path, error }),
                        );
                    },
                    None => {},
                }
            },
        }
        self.send_navigation_changed();
        self.schedule_prefetch();
    }

    /// Takes what was decoded ahead for an entry; gives the image back where it is
    /// to be kept.
    fn process_prefetch_response(&mut self, response: PrefetchResponse) -> (r: Option<DecodedImage>)
        requires
            old(self).wf(),
            response.result matches Ok(image) ==> image.wf(),
        ensures
            final(self).wf(),
            response_taken(old(self)@, response, final(self)@, r),
    {
        let PrefetchResponse { index, result, is_current_generation } = response;
        if !is_current_generation {
            return None;
        }
        match result {
            Ok(image) => {
                let picture = match self.persistent_filter.apply(&image) {
                    Some(p) => p,
                    None => image,
                };
                assert(shown(self@.filter, image, picture));
                let here = match self.file_list.current_index() {
                    Some(i) => i == index,
                    None => false,
                };
                if here && self.current_image.is_none() {
                    self.current_image = Some(picture);
                    self.tell(DocumentEvent::ImageReady);
                    None
                } else {
                    Some(picture)
                }
            },
            Err(error) => {
                self.tell(DocumentEvent::Error(DocumentError::Other(error)));
                None
            },
        }
    }

    /// Takes all that was decoded ahead, in order; gives the images that are to be
    /// kept, each with its entry.
    pub fn process_prefetch_responses(&mut self, responses: Vec<PrefetchResponse>) -> (r: Vec<
        (usize, DecodedImage),
    >)
        requires
            old(self).wf(),
            forall|k: int|
                0 <= k < responses@.len() ==> ((#[trigger] responses@[k]).result matches Ok(image)
                    ==> image.wf()),
        ensures
            final(self).wf(),
            exists|steps: Seq<DocView>, kept: Seq<Option<DecodedImage>>|
                {
                    &&& #[trigger] responses_taken(steps, responses@, kept)
                    &&& steps[0] == old(self)@
                    &&& steps.last() == final(self)@
                    &&& r@ == kept_images(responses@, kept)
                },
    {
        let ghost all = responses@;
        let ghost mut steps: Seq<DocView> = seq![self@];
        let ghost mut kept: Seq<Option<DecodedImage>> = Seq::empty();
        let mut r: Vec<(usize, DecodedImage)> = Vec::new();
        for response in it: responses
            invariant
                it.seq() == all,
                forall|k: int|
                    0 <= k < all.len() ==> ((#[trigger] all[k]).result matches Ok(image)
                        ==> image.wf()),
                self.wf(),
                steps[0] == old(self)@,
                steps.last() == self@,
                responses_taken(steps, all.take(it.index()), kept),
                r@ == kept_images(all.take(it.index()), kept),
        {
            let ghost earlier = all.take(it.index());
            let ghost now = all.take(it.index() + 1);
            let index: usize = response.index;
            let image = self.process_prefetch_response(response);
            proof {
                let grown = steps.push(self@);
                let more = kept.push(image);
                assert(now.drop_last() =~= earlier);
                assert(now.last() == response);
                assert(more.drop_last() =~= kept);
                assert forall|k: int| 0 <= k < now.len() implies #[trigger] response_taken(
                    grown[k],
                    now[k],
                    grown[k + 1],
                    more[k],
                ) by {
                    if k < earlier.len() {
                        assert(response_taken(steps[k], earlier[k], steps[k + 1], kept[k]));
                    }
                }
                steps = grown;
                kept = more;
            }
            match image {
                Some(picture) => r.push((index, picture)),
                None => {},
            }
        }
        assert(all.take(all.len() as int) =~= all);
        r
    }

    /// Where the current entry's bytes come from.
    pub fn read_file_data_current(&self) -> (r: Result<DataPlan, LoadError>)
        requires
            self.wf(),
        ensures
            r == (match self@.list.current {
                Some(i) => plan_for(self@.list.files[i]),
                None => Err(LoadError::NothingSelected),
            }),
    {
        match self.file_list.current() {
            Some(info) => data_plan(info),
            None => Err(LoadError::NothingSelected),
        }
    }

    /// An entry's bytes from those of its archive. Where these were not kept at
    /// hand, the archive's handler has to read entries on demand.
    pub fn entry_data(&self, archive: &str, entry: &str, kept: bool, bytes: &[u8]) -> (r: Result<
        Vec<u8>,
        ArchiveError,
    >)
        ensures
            if kept {
                archive::zip::taken_out(bytes@, entry@, r)
            } else {
                match self@.archives.handler_of(archive@) {
                    None => r matches Err(ArchiveError::Unsupported(p)) && p@ == archive@,
                    Some(i) => if self@.archives.handlers@[i].program() == ArchiveFormat::Zip {
                        archive::zip::unpacked(bytes@, entry@, r)
                    } else {
                        r matches Err(ArchiveError::NotOnDemand)
                    },
                }
            },
    {
        if kept {
            ZipHandler::read_entry_from_buffer(bytes, entry)
        } else {
            self.archives.read_entry(archive, entry, bytes)
        }
    }

    /// The metadata of the current entry where no decoder is needed for it: that
    /// of a PDF's page. None where a decoder is to be asked.
    pub fn current_metadata(&self) -> (r: Result<Option<ImageMetadata>, LoadError>)
        requires
            self.wf(),
        ensures
            match self@.list.current {
                None => r matches Err(e) && e == LoadError::NothingSelected,
                Some(i) => if self@.list.files[i].source is PdfPage {
                    match self@.image {
                        Some(image) => r matches Ok(Some(m)) && m.width == image.width && m.height
                            == image.height && m.format@ == "PDF"@ && m.comments@.len() == 0
                            && m.exif@.len() == 0,
                        None => r matches Err(e) && e == LoadError::NotRendered,
                    }
                } else {
                    r matches Ok(None)
                },
            },
    {
        let info = match self.file_list.current() {
            Some(info) => info,
            None => {
                return Err(LoadError::NothingSelected);
            },
        };
        match &info.source {
            FileSource::PdfPage { .. } => match &self.current_image {
                Some(image) => Ok(
                    Some(
                        ImageMetadata {
                            width: image.width,
                            height: image.height,
                            format: "PDF".to_owned(),
                            comments: Vec::new(),
                            exif: Vec::new(),
                        },
                    ),
                ),
                None => Err(LoadError::NotRendered),
            },
            _ => Ok(None),
        }
    }

    /// Whether the image of the entry is at hand: kept, or shown.
    pub fn is_cached(&self, index: usize, kept: bool) -> (r: bool)
        ensures
            r == (kept || (self@.list.current == Some(index as int) && self@.image is Some)),
    {
        let here = match self.file_list.current_index() {
            Some(i) => i == index,
            None => false,
        };
        kept || (here && self.current_image.is_some())
    }
}

} // verus!
