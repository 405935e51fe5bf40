//! Which file name extensions are images and which are archives.

use vstd::prelude::*;

use crate::text;
use crate::paths;
use crate::paths::extension_of;
use crate::text::{same_text, to_lowercase};

verus! {

/// The known extensions, each in lower case without its dot.
pub struct ExtensionRegistry {
    pub images: Vec<String>,
    pub archives: Vec<String>,
}

/// Whether a text is one of those listed.
pub open spec fn listed(list: Seq<String>, ext: Seq<char>) -> bool {
    exists|i: int| 0 <= i < list.len() && #[trigger] list[i]@ == ext
}

/// Whether a text is one of those listed.
pub fn is_listed(list: &Vec<String>, ext: &str) -> (r: bool)
    ensures
        r == listed(list@, ext@),
{
    let mut i: usize = 0;
    while i < list.len()
        invariant
            i <= list@.len(),
            forall|k: int| 0 <= k < i ==> #[trigger] list@[k]@ != ext@,
        decreases list.len() - i,
    {
        if same_text(list[i].as_str(), ext) {
            return true;
        }
        i = i + 1;
    }
    false
}

/// The file name has an extension that, in lower case, is one of those listed.
pub open spec fn name_listed(list: Seq<String>, name: Seq<char>) -> bool {
    paths::spec_extension(name) matches Some(ext) && listed(list, text::lowercase_of(ext))
}

/// The texts of a list.
pub open spec fn texts(list: Seq<String>) -> Seq<Seq<char>> {
    Seq::new(list.len(), |i: int| list[i]@)
}

impl ExtensionRegistry {
    /// A registry of the built-in formats.
    pub fn new() -> (r: Self)
        ensures
            texts(r.images@) == seq![
                "jpg"@,
                "jpeg"@,
                "png"@,
                "gif"@,
                "bmp"@,
                "webp"@,
            ],
            texts(r.archives@) == seq!["zip"@, "cbz"@, "rar"@, "cbr"@, "7z"@],
    {
        let mut images: Vec<String> = Vec::new();
        images.push("jpg".to_owned());
        images.push("jpeg".to_owned());
        images.push("png".to_owned());
        images.push("gif".to_owned());
        images.push("bmp".to_owned());
        images.push("webp".to_owned());
        let mut archives: Vec<String> = Vec::new();
        archives.push("zip".to_owned());
        archives.push("cbz".to_owned());
        archives.push("rar".to_owned());
        archives.push("cbr".to_owned());
        archives.push("7z".to_owned());
        assert(texts(images@) =~= seq!["jpg"@, "jpeg"@, "png"@, "gif"@, "bmp"@, "webp"@]);
        assert(texts(archives@) =~= seq!["zip"@, "cbz"@, "rar"@, "cbr"@, "7z"@]);
        ExtensionRegistry { images, archives }
    }

    fn name_is_listed(list: &Vec<String>, name: &str) -> (r: bool)
        ensures
            r == name_listed(list@, name@),
    {
        match extension_of(name) {
            Some(ext) => {
                let low = to_lowercase(ext.as_str());
                is_listed(list, low.as_str())
            },
            None => false,
        }
    }

    /// Whether the file name is an image's.
    pub fn is_image_extension(&self, name: &str) -> (r: bool)
        ensures
            r == name_listed(self.images@, name@),
    {
        Self::name_is_listed(&self.images, name)
    }

    /// Whether the file name is an archive's.
    pub fn is_archive_extension(&self, name: &str) -> (r: bool)
        ensures
            r == name_listed(self.archives@, name@),
    {
        Self::name_is_listed(&self.archives, name)
    }

    /// Adds an image extension, given in lower case without its dot.
    pub fn register_image(&mut self, ext: &str)
        ensures
            texts(final(self).images@) == texts(old(self).images@).push(ext@),
            final(self).archives == old(self).archives,
    {
        self.images.push(ext.to_owned());
        assert(texts(self.images@) =~= texts(old(self).images@).push(ext@));
    }

    /// Adds an archive extension, given in lower case without its dot.
    pub fn register_archive(&mut self, ext: &str)
        ensures
            texts(final(self).archives@) == texts(old(self).archives@).push(ext@),
            final(self).images == old(self).images,
    {
        self.archives.push(ext.to_owned());
        assert(texts(self.archives@) =~= texts(old(self).archives@).push(ext@));
    }
}

} // verus!
