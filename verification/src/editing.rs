//! Edits of the shown image that are not saved.

use vstd::prelude::*;

use crate::image::DecodedImage;

verus! {

/// An edit: the image as it was, and whether it was changed.
pub struct EditingSession {
    pub backup: DecodedImage,
    pub modified: bool,
}

impl EditingSession {
    /// An edit that has changed nothing yet.
    pub fn new(backup: DecodedImage) -> (r: Self)
        ensures
            r.backup == backup,
            !r.modified,
    {
        EditingSession { backup, modified: false }
    }

    /// Whether there is something to save.
    pub fn has_unsaved_changes(&self) -> (r: bool)
        ensures
            r == self.modified,
    {
        self.modified
    }

    /// Notes a change.
    pub fn mark_modified(&mut self)
        ensures
            final(self).modified,
            final(self).backup == old(self).backup,
    {
        self.modified = true;
    }
}

} // verus!
