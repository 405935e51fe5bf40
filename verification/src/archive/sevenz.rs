//! 7z archives.

use std::sync::Arc;

use vstd::prelude::*;

use super::{image_file_name, ArchiveError, ArchiveFormat, ArchiveHandler, StoredImage};
use crate::archive;
use crate::extension_registry;
use crate::extension_registry::ExtensionRegistry;

verus! {

/// An entry as it was met in an archive, with what was read of it.
pub struct SevenZEntry {
    pub name: String,
    pub is_dir: bool,
    pub data: Vec<u8>,
}

/// The path of an entry, whether it is a folder, and what was read of it.
pub type EntryView = (Seq<char>, bool, Seq<u8>);

/// The views of entries.
pub open spec fn entry_views(entries: Seq<SevenZEntry>) -> Seq<EntryView> {
    entries.map_values(|e: SevenZEntry| (e.name@, e.is_dir, e.data@))
}

/// How far an archive was unpacked: the entries that were met, in order, and
/// whether nothing failed up to the last.
pub struct Unpacked {
    pub entries: Vec<SevenZEntry>,
    pub complete: bool,
}

/// What `sevenz_rust2` meets in the bytes when images with the extensions are read
/// whole and other entries not at all; none where the bytes are no archive.
pub uninterp spec fn unpacked(
    bytes: Seq<u8>,
    extensions: Seq<Seq<char>>,
) -> Option<(Seq<(Seq<char>, bool, Seq<u8>)>, bool)>;

/// `sevenz_rust2::ArchiveReader::new` on bytes in memory, and `for_each_entries` with
/// a closure that reads as much of each entry as `amount` says and passes a failure
/// to read on. None where the bytes are no archive. A single thread unpacks, so that
/// the number of processors decides nothing. Claimed, as long as there is memory for
/// it: which entries are met, what is read of them and whether all went well depends
/// on the bytes and on the extensions, by which `amount` decides, alone.
#[verifier::external_body]
fn unpack(buffer: &[u8], handler: &SevenZHandler) -> (r: Option<Unpacked>)
    ensures
        unpacked(buffer@, extension_registry::texts(handler.registry.images@)) == (match r {
            Some(u) => Some((entry_views(u.entries@), u.complete)),
            None => None,
        }),
{
    let cursor = std::io::Cursor::new(buffer);
    let mut reader =
        sevenz_rust2::ArchiveReader::new(cursor, sevenz_rust2::Password::empty()).ok()?;
    reader.set_thread_count(1);
    let mut entries = Vec::new();
    let outcome = reader.for_each_entries(|entry, source| {
        let (name, is_dir) = (entry.name().to_string(), entry.is_directory());
        let mut data = Vec::new();
        let mut part = std::io::Read::take(source, handler.amount(&name, is_dir));
        std::io::Read::read_to_end(&mut part, &mut data)?;
        entries.push(SevenZEntry { name, is_dir, data });
        Ok(true)
    });
    Some(Unpacked { entries, complete: outcome.is_ok() })
}

/// An image's path in the archive, its file name and its bytes.
pub type ImageView = (Seq<char>, Seq<char>, Seq<u8>);

/// The images among the entries, in order, under their file names.
pub open spec fn images_of(images: Seq<String>, all: Seq<EntryView>) -> Seq<ImageView> {
    all.filter(|e: EntryView| archive::image_entry(images, e.0, e.1)).map_values(
        |e: EntryView| (e.0, archive::flat_name(e.0), e.2),
    )
}

proof fn images_of_next(images: Seq<String>, all: Seq<EntryView>, i: int)
    requires
        0 <= i < all.len(),
    ensures
        images_of(images, all.take(i + 1)) == (if archive::image_entry(images, all[i].0, all[i].1) {
            images_of(images, all.take(i)).push((all[i].0, archive::flat_name(all[i].0), all[i].2))
        } else {
            images_of(images, all.take(i))
        }),
{
    reveal(Seq::filter);
    let p = |e: EntryView| archive::image_entry(images, e.0, e.1);
    let f = |e: EntryView| (e.0, archive::flat_name(e.0), e.2);
    let more = all.take(i + 1);
    assert(more.drop_last() =~= all.take(i));
    if p(all[i]) {
        assert(more.filter(p) == all.take(i).filter(p).push(all[i]));
        assert(more.filter(p).map_values(f) =~= all.take(i).filter(p).map_values(f).push(
            f(all[i]),
        ));
    } else {
        assert(more.filter(p) == all.take(i).filter(p));
    }
}

/// The views of images that are stored.
pub open spec fn image_views(found: Seq<StoredImage>) -> Seq<ImageView> {
    found.map_values(|i: StoredImage| (i.entry_name@, i.file_name@, i.data@))
}

/// The outcome of extracting the images among the entries. An archive that was not
/// unpacked to its end gives none at all.
pub open spec fn extracts(
    images: Seq<String>,
    all: Seq<EntryView>,
    complete: bool,
    r: Result<Vec<StoredImage>, ArchiveError>,
) -> bool {
    if complete {
        r matches Ok(found) && image_views(found@) == images_of(images, all)
    } else {
        r matches Err(ArchiveError::Incomplete)
    }
}

/// Takes 7z archives.
pub struct SevenZHandler {
    pub registry: Arc<ExtensionRegistry>,
}

impl SevenZHandler {
    pub fn new(registry: Arc<ExtensionRegistry>) -> (r: Self)
        ensures
            r.registry == registry,
    {
        SevenZHandler { registry }
    }

    /// The file name under which an entry is extracted; none where it is passed
    /// over.
    pub fn wanted(&self, entry_path: &str, is_dir: bool) -> (r: Option<String>)
        ensures
            match r {
                Some(name) => archive::image_entry(self.registry.images@, entry_path@, is_dir)
                    && name@ == archive::flat_name(entry_path@),
                None => !archive::image_entry(self.registry.images@, entry_path@, is_dir),
            },
    {
        image_file_name(&*self.registry, entry_path, is_dir)
    }

    /// How many bytes of an entry are read at most: an image is read whole, another
    /// entry not at all.
    pub fn amount(&self, entry_path: &str, is_dir: bool) -> (r: u64)
        ensures
            r == (if archive::image_entry(self.registry.images@, entry_path@, is_dir) {
                u64::MAX
            } else {
                0
            }),
    {
        match self.wanted(entry_path, is_dir) {
            Some(_) => u64::MAX,
            None => 0,
        }
    }

    /// The images among an archive's entries that are to be stored as files, in
    /// order. Where the archive was not unpacked to its end, an error.
    pub fn images_among(&self, all: Unpacked) -> (r: Result<Vec<StoredImage>, ArchiveError>)
        ensures
            extracts(self.registry.images@, entry_views(all.entries@), all.complete, r),
    {
        let Unpacked { entries, complete } = all;
        if !complete {
            return Err(ArchiveError::Incomplete);
        }
        let ghost views = entry_views(entries@);
        let ghost images = self.registry.images@;
        let mut r: Vec<StoredImage> = Vec::new();
        assert(image_views(r@) =~= images_of(images, views.take(0))) by {
            reveal(Seq::filter);
        }
        for e in it: entries
            invariant
                it.seq() == entries@,
                views == entry_views(entries@),
                images == self.registry.images@,
                image_views(r@) == images_of(images, views.take(it.index())),
        {
            let ghost i = it.index();
            let ghost before = r@;
            let wanted = self.wanted(e.name.as_str(), e.is_dir);
            proof {
                images_of_next(images, views, i);
            }
            if let Some(file_name) = wanted {
                r.push(StoredImage { entry_name: e.name, file_name, data: e.data });
            }
            assert(image_views(r@) =~= images_of(images, views.take(i + 1)));
        }
        assert(views.take(views.len() as int) =~= views);
        Ok(r)
    }

    /// The images of an archive in memory that are to be stored as files, in order.
    /// One that cannot be read fails them all.
    pub fn images_to_store(&self, buffer: &[u8]) -> (r: Result<Vec<StoredImage>, ArchiveError>)
        ensures
            match unpacked(buffer@, extension_registry::texts(self.registry.images@)) {
                Some((all, complete)) => extracts(self.registry.images@, all, complete, r),
                None => r matches Err(ArchiveError::NotSevenZ),
            },
    {
        match unpack(buffer, self) {
            Some(all) => self.images_among(all),
            None => Err(ArchiveError::NotSevenZ),
        }
    }
}

impl ArchiveHandler for SevenZHandler {
    open spec fn takes(&self) -> Seq<Seq<char>> {
        seq![".7z"@]
    }

    open spec fn reads_on_demand(&self) -> bool {
        false
    }

    open spec fn program(&self) -> ArchiveFormat {
        ArchiveFormat::SevenZ
    }

    fn supported_extensions(&self) -> (r: Vec<String>) {
        let mut r: Vec<String> = Vec::new();
        r.push(".7z".to_owned());
        assert(extension_registry::texts(r@) =~= self.takes());
        r
    }

    fn supports_on_demand(&self) -> (r: bool) {
        false
    }

    fn format(&self) -> (r: ArchiveFormat) {
        ArchiveFormat::SevenZ
    }
}

} // verus!
