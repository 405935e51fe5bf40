//! ZIP archives, listed and read in memory.

use std::sync::Arc;

use vstd::prelude::*;

use super::{
    image_file_name, ArchiveError, ArchiveFormat, ArchiveHandler, ArchiveImageEntry, StoredImage,
};
use crate::archive;
use crate::extension_registry;
use crate::extension_registry::ExtensionRegistry;

verus! {

/// The cursor of std, by which an archive reads from memory.
#[verifier::external_type_specification]
#[verifier::external_body]
#[verifier::reject_recursive_types(T)]
pub struct ExCursor<T>(std::io::Cursor<T>);

/// The archive of the `zip` crate.
#[verifier::external_type_specification]
#[verifier::external_body]
#[verifier::reject_recursive_types(R)]
pub struct ExZipArchive<R>(::zip::ZipArchive<R>);

/// A member of an archive.
pub struct Member {
    pub name: String,
    pub size: u64,
    pub is_dir: bool,
}

/// What is known of a member: its path, its unpacked size and whether it is a
/// folder.
pub type MemberView = (Seq<char>, u64, bool);

/// The view of a member that may be unreadable.
pub open spec fn member_view(m: Option<Member>) -> Option<MemberView> {
    match m {
        Some(m) => Some((m.name@, m.size, m.is_dir)),
        None => None,
    }
}

/// The members of an archive in its order; none for one that cannot be read.
pub uninterp spec fn members(
    archive: ::zip::ZipArchive<std::io::Cursor<Vec<u8>>>,
) -> Seq<Option<(Seq<char>, u64, bool)>>;

/// The members that `zip` finds in the bytes; none where they are no archive.
pub uninterp spec fn listing(bytes: Seq<u8>) -> Option<Seq<Option<(Seq<char>, u64, bool)>>>;

/// `zip::ZipArchive::new` on bytes in memory. Claimed: whether it succeeds, and
/// what the archive holds, depends on the bytes alone.
#[verifier::external_body]
fn open_archive(buffer: &[u8]) -> (r: Option<::zip::ZipArchive<std::io::Cursor<Vec<u8>>>>)
    ensures
        listing(buffer@) == (match r {
            Some(a) => Some(members(a)),
            None => None,
        }),
{
    ::zip::ZipArchive::new(std::io::Cursor::new(buffer.to_vec())).ok()
}

/// `zip::ZipArchive::len`. Claimed: the number of members.
#[verifier::external_body]
fn member_count(archive: &::zip::ZipArchive<std::io::Cursor<Vec<u8>>>) -> (r: usize)
    ensures
        r == members(*archive).len(),
{
    archive.len()
}

/// `zip::ZipArchive::by_index_raw`, with the member's `name`, `size` and
/// `is_dir`; none where the member or its name cannot be read. Claimed: it is the
/// member at the index, and the members stay.
#[verifier::external_body]
fn member_at(archive: &mut ::zip::ZipArchive<std::io::Cursor<Vec<u8>>>, index: usize) -> (
    r: Option<Member>)
    requires
        index < members(*old(archive)).len(),
    ensures
        members(*final(archive)) == members(*old(archive)),
        member_view(r) == members(*old(archive))[index as int],
{
    let entry = archive.by_index_raw(index).ok()?;
    let name = entry.name().ok()?.to_string();
    Some(Member { name, size: entry.size(), is_dir: entry.is_dir() })
}

/// Where a member's bytes lie.
pub struct Spot {
    /// The bytes are stored as they are.
    pub stored: bool,
    pub start: Option<u64>,
    pub size: u64,
}

/// Where `zip` finds the bytes of the member with the name: whether they are
/// stored as they are, where they begin, and the unpacked size.
pub uninterp spec fn spot_of(bytes: Seq<u8>, name: Seq<char>) -> Option<(bool, Option<u64>, u64)>;

/// `zip::ZipArchive::by_name`, with the member's `compression`, `data_start` and
/// `size`; none where the bytes are no archive or have no such member. Claimed:
/// the result depends on the bytes and the name alone.
#[verifier::external_body]
fn find_spot(buffer: &[u8], name: &str) -> (r: Option<Spot>)
    ensures
        spot_of(buffer@, name@) == (match r {
            Some(s) => Some((s.stored, s.start, s.size)),
            None => None,
        }),
{
    let mut archive = ::zip::ZipArchive::new(std::io::Cursor::new(buffer)).ok()?;
    let entry = archive.by_name(name).ok()?;
    let stored = matches!(entry.compression(), ::zip::CompressionMethod::Stored);
    Some(Spot { stored, start: entry.data_start(), size: entry.size() })
}

/// The bytes that `zip` unpacks for the member with the name; none where they
/// cannot be unpacked.
pub uninterp spec fn inflated(bytes: Seq<u8>, name: Seq<char>) -> Option<Seq<u8>>;

/// `zip::ZipArchive::by_name` and `read_to_end` of its member; none where the
/// member cannot be found or read. Claimed: the result depends on the bytes and
/// the name alone.
#[verifier::external_body]
fn inflate(buffer: &[u8], name: &str) -> (r: Option<Vec<u8>>)
    ensures
        inflated(buffer@, name@) == (match r {
            Some(v) => Some(v@),
            None => None,
        }),
{
    let mut archive = ::zip::ZipArchive::new(std::io::Cursor::new(buffer)).ok()?;
    let mut entry = archive.by_name(name).ok()?;
    let mut data = Vec::new();
    std::io::Read::read_to_end(&mut entry, &mut data).ok()?;
    Some(data)
}

/// The bytes that `zip` unpacks for the member at the index; none where they
/// cannot be unpacked.
pub uninterp spec fn inflated_at(bytes: Seq<u8>, index: int) -> Option<Seq<u8>>;

/// `zip::ZipArchive::by_index` and `read_to_end` of its member; none where there is
/// no such member or it cannot be read. Claimed: the result depends on the bytes
/// and the index alone.
#[verifier::external_body]
fn inflate_at(buffer: &[u8], index: usize) -> (r: Option<Vec<u8>>)
    ensures
        inflated_at(buffer@, index as int) == (match r {
            Some(v) => Some(v@),
            None => None,
        }),
{
    let mut archive = ::zip::ZipArchive::new(std::io::Cursor::new(buffer)).ok()?;
    let mut entry = archive.by_index(index).ok()?;
    let mut data = Vec::new();
    std::io::Read::read_to_end(&mut entry, &mut data).ok()?;
    Some(data)
}

/// A member that is listed: a readable image.
pub open spec fn is_image_member(images: Seq<String>, m: Option<MemberView>) -> bool {
    m matches Some(v) && archive::image_entry(images, v.0, v.2)
}

/// The image members among an archive's, in order.
pub open spec fn image_members(
    images: Seq<String>,
    all: Seq<Option<MemberView>>,
) -> Seq<Option<MemberView>> {
    all.filter(|m: Option<MemberView>| is_image_member(images, m))
}

/// The entries are those of the members.
pub open spec fn entries_of(r: Seq<ArchiveImageEntry>, wanted: Seq<Option<MemberView>>) -> bool {
    &&& r.len() == wanted.len()
    &&& forall|i: int|
        0 <= i < r.len() ==> {
            &&& (#[trigger] r[i]).entry_name@ == (wanted[i]->0).0
            &&& r[i].file_name@ == archive::flat_name((wanted[i]->0).0)
            &&& r[i].file_size == (wanted[i]->0).1
        }
}

/// The outcome of listing the images in the bytes.
pub open spec fn lists(
    bytes: Seq<u8>,
    images: Seq<String>,
    r: Result<Vec<ArchiveImageEntry>, ArchiveError>,
) -> bool {
    match listing(bytes) {
        Some(all) => r matches Ok(entries) && entries_of(entries@, image_members(images, all)),
        None => r matches Err(ArchiveError::Unreadable),
    }
}

/// The outcome of unpacking a member.
pub open spec fn unpacked(
    bytes: Seq<u8>,
    name: Seq<char>,
    r: Result<Vec<u8>, ArchiveError>,
) -> bool {
    if listing(bytes) is None {
        r matches Err(ArchiveError::Unreadable)
    } else if spot_of(bytes, name) is None {
        r matches Err(ArchiveError::NotFound(n)) && n@ == name
    } else {
        match inflated(bytes, name) {
            Some(data) => r matches Ok(v) && v@ == data,
            None => r matches Err(ArchiveError::ReadFailed(n)) && n@ == name,
        }
    }
}

/// The outcome of reading an entry: bytes that are stored as they are are cut
/// out, others unpacked.
pub open spec fn taken_out(
    bytes: Seq<u8>,
    name: Seq<char>,
    r: Result<Vec<u8>, ArchiveError>,
) -> bool {
    match spot_of(bytes, name) {
        Some((true, start, size)) if listing(bytes) is Some => cut_out(bytes, start, size, r),
        _ => unpacked(bytes, name, r),
    }
}

/// The outcome of cutting stored bytes out of an archive.
pub open spec fn cut_out(
    bytes: Seq<u8>,
    start: Option<u64>,
    size: u64,
    r: Result<Vec<u8>, ArchiveError>,
) -> bool {
    match start {
        None => r matches Err(ArchiveError::NoStart),
        Some(from) => if from + size <= bytes.len() {
            r matches Ok(v) && v@ == bytes.subrange(from as int, from + size)
        } else {
            r matches Err(ArchiveError::OutOfRange)
        },
    }
}

/// The places of the image members whose bytes can be unpacked, before `end`.
pub open spec fn stored_places(
    bytes: Seq<u8>,
    images: Seq<String>,
    all: Seq<Option<MemberView>>,
    end: int,
) -> Seq<int>
    decreases end,
{
    if end <= 0 {
        Seq::empty()
    } else if is_image_member(images, all[end - 1]) && inflated_at(bytes, end - 1) is Some {
        stored_places(bytes, images, all, end - 1).push(end - 1)
    } else {
        stored_places(bytes, images, all, end - 1)
    }
}

/// The images are the members at the places, unpacked.
pub open spec fn stored_from(
    bytes: Seq<u8>,
    all: Seq<Option<MemberView>>,
    places: Seq<int>,
    r: Seq<StoredImage>,
) -> bool {
    &&& r.len() == places.len()
    &&& forall|k: int|
        0 <= k < r.len() ==> {
            &&& (#[trigger] r[k]).entry_name@ == (all[places[k]]->0).0
            &&& r[k].file_name@ == archive::flat_name((all[places[k]]->0).0)
            &&& Some(r[k].data@) == inflated_at(bytes, places[k])
        }
}

/// The outcome of extracting the images in the bytes.
pub open spec fn extracts(
    bytes: Seq<u8>,
    images: Seq<String>,
    r: Result<Vec<StoredImage>, ArchiveError>,
) -> bool {
    match listing(bytes) {
        Some(all) => r matches Ok(found) && stored_from(
            bytes,
            all,
            stored_places(bytes, images, all, all.len() as int),
            found@,
        ),
        None => r matches Err(ArchiveError::Unreadable),
    }
}

/// Takes ZIP archives.
pub struct ZipHandler {
    pub registry: Arc<ExtensionRegistry>,
}

/// Cuts stored bytes out of an archive.
pub fn stored_bytes(buffer: &[u8], start: Option<u64>, size: u64) -> (r: Result<
    Vec<u8>,
    ArchiveError,
>)
    ensures
        cut_out(buffer@, start, size, r),
{
    let from: u64 = match start {
        Some(from) => from,
        None => return Err(ArchiveError::NoStart),
    };
    let len: usize = buffer.len();
    if from as u128 + size as u128 > len as u128 {
        return Err(ArchiveError::OutOfRange);
    }
    let a: usize = from as usize;
    let n: usize = size as usize;
    let mut data: Vec<u8> = Vec::new();
    let mut i: usize = 0;
    while i < n
        invariant
            i <= n,
            a + n <= buffer@.len(),
            buffer@.len() == len,
            data@ == buffer@.subrange(a as int, a + i),
        decreases n - i,
    {
        data.push(buffer[a + i]);
        i = i + 1;
        assert(data@ =~= buffer@.subrange(a as int, a + i));
    }
    Ok(data)
}

impl ZipHandler {
    pub fn new(registry: Arc<ExtensionRegistry>) -> (r: Self)
        ensures
            r.registry == registry,
    {
        ZipHandler { registry }
    }

    /// Lists the images of an archive in memory.
    pub fn list_images_from_buffer(buffer: &[u8], registry: &ExtensionRegistry) -> (r: Result<
        Vec<ArchiveImageEntry>,
        ArchiveError,
    >)
        ensures
            lists(buffer@, registry.images@, r),
    {
        match open_archive(buffer) {
            Some(a) => Ok(Self::list_images_from_archive(a, registry)),
            None => Err(ArchiveError::Unreadable),
        }
    }

    /// Lists the images of an archive.
    pub fn list_images_from_archive(
        archive: ::zip::ZipArchive<std::io::Cursor<Vec<u8>>>,
        registry: &ExtensionRegistry,
    ) -> (r: Vec<ArchiveImageEntry>)
        ensures
            entries_of(r@, image_members(registry.images@, members(archive))),
    {
        let mut archive = archive;
        let ghost all = members(archive);
        let ghost wanted = |m: Option<MemberView>| is_image_member(registry.images@, m);
        let mut r: Vec<ArchiveImageEntry> = Vec::new();
        let n: usize = member_count(&archive);
        let mut i: usize = 0;
        proof {
            reveal(Seq::filter);
            assert(all.take(0).filter(wanted) =~= Seq::empty());
        }
        while i < n
            invariant
                i <= n,
                n == all.len(),
                members(archive) == all,
                wanted == (|m: Option<MemberView>| is_image_member(registry.images@, m)),
                entries_of(r@, all.take(i as int).filter(wanted)),
            decreases n - i,
        {
            proof {
                reveal(Seq::filter);
                assert(all.take(i + 1).drop_last() =~= all.take(i as int));
                assert(all.take(i + 1).last() == all[i as int]);
            }
            if let Some(m) = member_at(&mut archive, i) {
                if let Some(file_name) = image_file_name(registry, m.name.as_str(), m.is_dir) {
                    r.push(
                        ArchiveImageEntry { entry_name: m.name, file_name, file_size: m.size },
                    );
                }
            }
            i = i + 1;
        }
        assert(all.take(n as int) =~= all);
        r
    }

    /// The images of an archive in memory that are to be stored as files, in order.
    /// Members that cannot be unpacked are passed over.
    pub fn images_to_store(buffer: &[u8], registry: &ExtensionRegistry) -> (r: Result<
        Vec<StoredImage>,
        ArchiveError,
    >)
        ensures
            extracts(buffer@, registry.images@, r),
    {
        let mut archive = match open_archive(buffer) {
            Some(a) => a,
            None => return Err(ArchiveError::Unreadable),
        };
        let ghost all = members(archive);
        let mut r: Vec<StoredImage> = Vec::new();
        let n: usize = member_count(&archive);
        let mut i: usize = 0;
        while i < n
            invariant
                i <= n,
                n == all.len(),
                members(archive) == all,
                stored_from(
                    buffer@,
                    all,
                    stored_places(buffer@, registry.images@, all, i as int),
                    r@,
                ),
            decreases n - i,
        {
            if let Some(m) = member_at(&mut archive, i) {
                if let Some(file_name) = image_file_name(registry, m.name.as_str(), m.is_dir) {
                    assert(is_image_member(registry.images@, all[i as int]));
                    if let Some(data) = inflate_at(buffer, i) {
                        r.push(StoredImage { entry_name: m.name, file_name, data });
                    }
                }
            }
            i = i + 1;
        }
        Ok(r)
    }

    /// Reads an entry of an archive in memory. Bytes that are stored as they are
    /// are cut out, others unpacked.
    pub fn read_entry_from_buffer(buffer: &[u8], entry_name: &str) -> (r: Result<
        Vec<u8>,
        ArchiveError,
    >)
        ensures
            taken_out(buffer@, entry_name@, r),
    {
        if open_archive(buffer).is_none() {
            return Err(ArchiveError::Unreadable);
        }
        match find_spot(buffer, entry_name) {
            None => Err(ArchiveError::NotFound(entry_name.to_owned())),
            Some(spot) => if spot.stored {
                stored_bytes(buffer, spot.start, spot.size)
            } else {
                Self::unpack(buffer, entry_name)
            },
        }
    }

    fn unpack(buffer: &[u8], entry_name: &str) -> (r: Result<Vec<u8>, ArchiveError>)
        ensures
            match inflated(buffer@, entry_name@) {
                Some(data) => r matches Ok(v) && v@ == data,
                None => r matches Err(ArchiveError::ReadFailed(n)) && n@ == entry_name@,
            },
    {
        match inflate(buffer, entry_name) {
            Some(data) => Ok(data),
            None => Err(ArchiveError::ReadFailed(entry_name.to_owned())),
        }
    }

    /// Unpacks an entry from the bytes of an archive.
    pub fn read_entry(buffer: &[u8], entry_name: &str) -> (r: Result<Vec<u8>, ArchiveError>)
        ensures
            unpacked(buffer@, entry_name@, r),
    {
        if open_archive(buffer).is_none() {
            return Err(ArchiveError::Unreadable);
        }
        match find_spot(buffer, entry_name) {
            None => Err(ArchiveError::NotFound(entry_name.to_owned())),
            Some(_) => Self::unpack(buffer, entry_name),
        }
    }
}

impl ArchiveHandler for ZipHandler {
    open spec fn takes(&self) -> Seq<Seq<char>> {
        seq![".zip"@, ".cbz"@]
    }

    open spec fn reads_on_demand(&self) -> bool {
        true
    }

    open spec fn program(&self) -> ArchiveFormat {
        ArchiveFormat::Zip
    }

    fn supported_extensions(&self) -> (r: Vec<String>) {
        let mut r: Vec<String> = Vec::new();
        r.push(".zip".to_owned());
        r.push(".cbz".to_owned());
        assert(extension_registry::texts(r@) =~= self.takes());
        r
    }

    fn supports_on_demand(&self) -> (r: bool) {
        true
    }

    fn format(&self) -> (r: ArchiveFormat) {
        ArchiveFormat::Zip
    }
}

/// Exactly the images that can be unpacked are stored, each once and in the order of the
/// archive.
pub proof fn stored_are_images(
    bytes: Seq<u8>,
    images: Seq<String>,
    all: Seq<Option<MemberView>>,
    end: int,
)
    requires
        0 <= end <= all.len(),
    ensures
        forall|p: int| #[trigger]
            stored_places(bytes, images, all, end).contains(p) <==> {
                &&& 0 <= p < end
                &&& all[p] matches Some(m) && archive::image_entry(images, m.0, m.2)
                &&& inflated_at(bytes, p) is Some
            },
        forall|i: int, j: int|
            0 <= i < j < stored_places(bytes, images, all, end).len() ==> #[trigger] stored_places(
                bytes,
                images,
                all,
                end,
            )[i] < #[trigger] stored_places(bytes, images, all, end)[j],
    decreases end,
{
    if end > 0 {
        stored_are_images(bytes, images, all, end - 1);
        let before = stored_places(bytes, images, all, end - 1);
        let now = stored_places(bytes, images, all, end);
        assert forall|p: int| #[trigger] now.contains(p) <==> {
            &&& 0 <= p < end
            &&& all[p] matches Some(m) && archive::image_entry(images, m.0, m.2)
            &&& inflated_at(bytes, p) is Some
        } by {
            if now.contains(p) {
                let i = choose|i: int| 0 <= i < now.len() && now[i] == p;
                if i < before.len() {
                    assert(before[i] == p);
                    assert(before.contains(p));
                }
            }
            if before.contains(p) {
                let i = choose|i: int| 0 <= i < before.len() && before[i] == p;
                assert(now[i] == p);
            }
            if p == end - 1 && now.len() > before.len() {
                assert(now[before.len() as int] == p);
            }
        }
        assert forall|i: int, j: int| 0 <= i < j < now.len() implies #[trigger] now[i]
            < #[trigger] now[j] by {
            if j < before.len() {
                assert(before[i] < before[j]);
            } else {
                assert(before.contains(before[i]));
            }
        }
    }
}

} // verus!
