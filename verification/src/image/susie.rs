//! Images that a plug-in decodes.

use vstd::prelude::*;

use super::ImageMetadata;
use crate::text::join3;

verus! {

/// A plug-in as a decoder of images. The plug-in is known by its number.
pub struct SusieImageDecoder {
    pub plugin: usize,
    /// Where the plug-in lies.
    pub path: String,
}

impl SusieImageDecoder {
    pub fn new(plugin: usize, path: String) -> (r: Self)
        ensures
            r.plugin == plugin,
            r.path == path,
    {
        SusieImageDecoder { plugin, path }
    }

    /// What is shown of an image that the plug-in decodes: the plug-in's path as
    /// the format, and the camera's notes.
    pub fn describe(&self, width: u32, height: u32, exif: Vec<(String, String)>) -> (
        r: ImageMetadata)
        ensures
            r.width == width,
            r.height == height,
            r.format@ == "Susie ("@ + self.path@ + ")"@,
            r.comments@.len() == 0,
            r.exif == exif,
    {
        ImageMetadata {
            width,
            height,
            format: join3("Susie (", self.path.as_str(), ")"),
            comments: Vec::new(),
            exif,
        }
    }
}

} // verus!
