//! Edits of the shown image.

use vstd::prelude::*;

use super::types::DocumentEvent;
use super::{DocView, Document};
use crate::document;
use crate::editing::EditingSession;
use crate::image;
use crate::image::DecodedImage;
use crate::persistent_filter::PersistentFilter;

verus! {

/// The edit after a change: the image as it was is kept when the first change
/// comes.
pub open spec fn edited(before: DocView, edit: Option<EditingSession>) -> bool {
    match before.edit {
        Some(session) => edit == Some(EditingSession { modified: true, ..session }),
        None => match before.image {
            Some(picture) => edit matches Some(session) && session.modified && image::same_image(
                picture,
                session.backup,
            ),
            None => edit is None,
        },
    }
}

impl Document {
    /// Whether an edit is not saved.
    pub fn has_unsaved_edit(&self) -> (r: bool)
        ensures
            r == (self@.edit matches Some(session) && session.modified),
    {
        match &self.editing_session {
            Some(session) => session.has_unsaved_changes(),
            None => false,
        }
    }

    fn ensure_editing_session(&mut self)
        requires
            old(self).wf(),
        ensures
            final(self)@ == (DocView { edit: final(self)@.edit, ..old(self)@ }),
            match old(self)@.edit {
                Some(session) => final(self)@.edit == Some(session),
                None => match old(self)@.image {
                    Some(picture) => final(self)@.edit matches Some(session) && !session.modified
                        && image::same_image(picture, session.backup),
                    None => final(self)@.edit is None,
                },
            },
    {
        if self.editing_session.is_some() {
            return;
        }
        let backup = match &self.current_image {
            Some(picture) => picture.duplicate(),
            None => {
                return;
            },
        };
        self.editing_session = Some(EditingSession::new(backup));
    }

    /// Gives the edit up.
    pub fn discard_editing_session(&mut self)
        ensures
            final(self)@ == (DocView { edit: None, ..old(self)@ }),
    {
        self.editing_session = None;
    }

    /// Shows an edited image.
    pub fn apply_edit(&mut self, new_image: DecodedImage)
        requires
            old(self).wf(),
            new_image.wf(),
        ensures
            final(self).wf(),
            edited(old(self)@, final(self)@.edit),
            final(self)@ == document::told(
                (DocView { edit: final(self)@.edit, image: Some(new_image), ..old(self)@ }),
                DocumentEvent::ImageReady,
            ),
    {
        self.ensure_editing_session();
        self.current_image = Some(new_image);
        let mut session: Option<EditingSession> = None;
        std::mem::swap(&mut self.editing_session, &mut session);
        self.editing_session =
        match session {
            Some(s) => {
                let mut s = s;
                s.mark_modified();
                Some(s)
            },
            None => None,
        };
        self.tell(DocumentEvent::ImageReady);
    }

    /// The filters for every image, to be changed.
    pub fn persistent_filter_mut(&mut self) -> (r: &mut PersistentFilter)
        ensures
            *r == old(self).persistent_filter,
            *final(self) == (Document { persistent_filter: *final(r), ..*old(self) }),
    {
        &mut self.persistent_filter
    }
}

} // verus!
