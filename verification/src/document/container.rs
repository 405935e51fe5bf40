//! How containers are read, and the entries that they give.

use vstd::prelude::*;

use super::types::{ContainerResult, ExtractedEntry};
use super::Document;
use crate::archive;
use crate::archive::extract_filename;
use crate::archive::{ArchiveHandler, ArchiveImageEntry, ArchiveManager};
use crate::file_info::{FileInfo, FileSource};
use crate::text;
use crate::text::{decimal_text, join2, join3};

verus! {

/// How a container is read.
#[derive(Debug, Clone, Copy, PartialEq, Eq, Structural)]
pub enum ReadPlan {
    /// Its pages are counted.
    CountPages,
    /// It is listed in memory.
    ListInMemory,
    /// It is extracted to a folder.
    Extract,
}

/// How the container is read.
pub open spec fn plan_of(manager: ArchiveManager, path: Seq<char>) -> ReadPlan {
    if super::is_pdf_path(path) {
        ReadPlan::CountPages
    } else if manager.handler_of(path) matches Some(i) && manager.handlers@[i].reads_on_demand() {
        ReadPlan::ListInMemory
    } else {
        ReadPlan::Extract
    }
}

/// How the container is read: a PDF by counting its pages, an archive that can
/// be read on demand in memory, any other by extracting it.
pub fn read_plan(path: &str, manager: &ArchiveManager) -> (r: ReadPlan)
    ensures
        r == plan_of(*manager, path@),
{
    if Document::is_pdf(path) {
        ReadPlan::CountPages
    } else if manager.supports_on_demand(path) {
        ReadPlan::ListInMemory
    } else {
        ReadPlan::Extract
    }
}

/// The name of the folder to which an archive is extracted, by the process and
/// the time in milliseconds.
pub fn temp_folder_name(process: u32, millis: u64) -> (r: String)
    ensures
        r@ == "gv_archive_"@ + text::decimal(process as nat) + "_"@ + text::decimal(millis as nat),
{
    let p = decimal_text(process as u64);
    let m = decimal_text(millis);
    let head = join3("gv_archive_", p.as_str(), "_");
    join2(head.as_str(), m.as_str())
}

/// What counting a PDF's pages comes to.
pub fn pages_counted(path: &str, count: Result<u32, String>, file_size: u64) -> (
    r: ContainerResult)
    ensures
        match count {
            Ok(n) => r matches ContainerResult::Pdf { path: p, page_count, file_size: s } && p@
                == path@ && page_count == n && s == file_size,
            Err(e) => r matches ContainerResult::Error { path: p, error } && p@ == path@ && error
                == e,
        },
{
    match count {
        Ok(page_count) => ContainerResult::Pdf { path: path.to_owned(), page_count, file_size },
        Err(error) => ContainerResult::Error { path: path.to_owned(), error },
    }
}

/// What the manager finds in an archive's bytes.
pub open spec fn found_in(
    manager: ArchiveManager,
    bytes: Seq<u8>,
    path: Seq<char>,
    listed: Result<Vec<ArchiveImageEntry>, archive::ArchiveError>,
) -> bool {
    if archive::dotted_extension(path) == ".zip"@ || archive::dotted_extension(path) == ".cbz"@ {
        archive::zip::lists(bytes, manager.registry.images@, listed)
    } else {
        listed matches Err(archive::ArchiveError::NoBufferAccess(p)) && p@ == path
    }
}

/// What listing an archive in memory comes to. Where its bytes could not be read,
/// `content` holds the error.
pub fn listed_in_memory(path: &str, manager: &ArchiveManager, content: Result<&[u8], String>) -> (
    r: ContainerResult)
    ensures
        match content {
            Err(e) => r matches ContainerResult::Error { path: p, error } && p@ == path@ && error@
                == "アーカイブ読み込み失敗: "@ + e@,
            Ok(bytes) => exists|listed: Result<Vec<ArchiveImageEntry>, archive::ArchiveError>|
                {
                    &&& #[trigger] found_in(*manager, bytes@, path@, listed)
                    &&& match listed {
                        Ok(found) => r matches ContainerResult::Zip { path: p, images } && p@
                            == path@ && images == found,
                        Err(e) => r matches ContainerResult::Error { path: p, error } && p@
                            == path@ && error@ == e.text(),
                    }
                },
        },
{
    match content {
        Ok(bytes) => {
            let listed = manager.list_images_from_buffer(bytes, path);
            assert(found_in(*manager, bytes@, path@, listed));
            match listed {
                Ok(images) => ContainerResult::Zip { path: path.to_owned(), images },
                Err(e) => ContainerResult::Error { path: path.to_owned(), error: e.message() },
            }
        },
        Err(e) => ContainerResult::Error {
            path: path.to_owned(),
            error: join2("アーカイブ読み込み失敗: ", e.as_str()),
        },
    }
}

/// What extracting an archive comes to, and whether its folder is to be removed:
/// where it failed, or nothing was extracted.
pub fn extracted(path: &str, temp_dir: &str, entries: Result<Vec<ExtractedEntry>, String>) -> (r: (
    ContainerResult,
    bool,
))
    ensures
        match entries {
            Ok(found) => {
                &&& r.0 matches ContainerResult::TempExtracted { path: p, temp_dir: t, entries: e }
                    && p@ == path@ && t@ == temp_dir@ && e == found
                &&& r.1 == (found@.len() == 0)
            },
            Err(e) => {
                &&& r.0 matches ContainerResult::Error { path: p, error } && p@ == path@ && error
                    == e
                &&& r.1
            },
        },
{
    match entries {
        Ok(entries) => {
            let empty = entries.len() == 0;
            (
                ContainerResult::TempExtracted {
                    path: path.to_owned(),
                    temp_dir: temp_dir.to_owned(),
                    entries,
                },
                empty,
            )
        },
        Err(error) => (ContainerResult::Error { path: path.to_owned(), error }, true),
    }
}

/// What it comes to where the folder for an archive could not be made.
pub fn no_folder(path: &str, cause: &str) -> (r: ContainerResult)
    ensures
        r matches ContainerResult::Error { path: p, error } && p@ == path@ && error@
            == "一時ディレクトリ作成失敗: "@ + cause@,
{
    ContainerResult::Error {
        path: path.to_owned(),
        error: join2("一時ディレクトリ作成失敗: ", cause),
    }
}

/// A page's name: its number from one on, with three digits at least.
pub open spec fn page_name(number: nat) -> Seq<char> {
    if number < 10 {
        "Page 00"@ + text::decimal(number)
    } else if number < 100 {
        "Page 0"@ + text::decimal(number)
    } else {
        "Page "@ + text::decimal(number)
    }
}

fn name_page(number: u32) -> (r: String)
    ensures
        r@ == page_name(number as nat),
{
    let digits = decimal_text(number as u64);
    if number < 10 {
        join2("Page 00", digits.as_str())
    } else if number < 100 {
        join2("Page 0", digits.as_str())
    } else {
        join2("Page ", digits.as_str())
    }
}

/// The entry of a PDF's page.
pub open spec fn is_page(info: FileInfo, path: Seq<char>, index: int, size: u64, now: i128)
    -> bool {
    &&& info.path@ == path
    &&& info.source matches FileSource::PdfPage { pdf_path, page_index } && pdf_path@ == path
        && page_index == index
    &&& info.file_name@ == page_name((index + 1) as nat)
    &&& info.file_size == size
    &&& info.modified == now
    &&& !info.marked
    &&& !info.load_failed
}

/// The entry of an image in an archive that is read on demand.
pub open spec fn is_member(info: FileInfo, path: Seq<char>, image: ArchiveImageEntry, now: i128)
    -> bool {
    &&& info.path@ == path
    &&& info.source matches FileSource::ArchiveEntry { archive, entry, on_demand } && archive@
        == path && entry == image.entry_name && on_demand
    &&& info.file_name == image.file_name
    &&& info.file_size == image.file_size
    &&& info.modified == now
    &&& !info.marked
    &&& !info.load_failed
}

/// The entry of an image that was extracted from an archive.
pub open spec fn is_extract(info: FileInfo, path: Seq<char>, file: ExtractedEntry) -> bool {
    &&& info.path@ == file.path@
    &&& info.source matches FileSource::ArchiveEntry { archive, entry, on_demand } && archive@
        == path && entry == file.entry_name && !on_demand
    &&& info.file_name@ == archive::flat_name(file.entry_name@)
    &&& file.metadata matches Some(m) && info.file_size == m.size && info.modified == m.modified
    &&& !info.marked
    &&& !info.load_failed
}

/// The extracted files that can be read, in order.
pub open spec fn readable(files: Seq<ExtractedEntry>) -> Seq<ExtractedEntry> {
    files.filter(|e: ExtractedEntry| e.metadata is Some)
}

/// The entries that a container gives.
pub open spec fn entries_of(result: ContainerResult, now: i128, r: Seq<FileInfo>) -> bool {
    match result {
        ContainerResult::Error { .. } => r.len() == 0,
        ContainerResult::Pdf { path, page_count, file_size } => {
            &&& r.len() == page_count
            &&& forall|i: int|
                0 <= i < r.len() ==> is_page(#[trigger] r[i], path@, i, file_size, now)
        },
        ContainerResult::Zip { path, images } => {
            &&& r.len() == images@.len()
            &&& forall|i: int|
                0 <= i < r.len() ==> is_member(#[trigger] r[i], path@, images@[i], now)
        },
        ContainerResult::TempExtracted { path, entries, .. } => {
            &&& r.len() == readable(entries@).len()
            &&& forall|i: int|
                0 <= i < r.len() ==> is_extract(#[trigger] r[i], path@, readable(entries@)[i])
        },
    }
}

/// The entries that a container gives; none for one that could not be read.
pub fn build_container_entries(result: &ContainerResult, now: i128) -> (r: Vec<FileInfo>)
    ensures
        entries_of(*result, now, r@),
{
    let mut list: Vec<FileInfo> = Vec::new();
    match result {
        ContainerResult::Error { .. } => {},
        ContainerResult::Pdf { path, page_count, file_size } => {
            let mut i: u32 = 0;
            while i < *page_count
                invariant
                    i <= *page_count,
                    list@.len() == i,
                    forall|k: int|
                        0 <= k < i ==> is_page(#[trigger] list@[k], path@, k, *file_size, now),
                decreases *page_count - i,
            {
                list.push(
                    FileInfo {
                        path: path.clone(),
                        source: FileSource::PdfPage { pdf_path: path.clone(), page_index: i },
                        file_name: name_page(i + 1),
                        file_size: *file_size,
                        modified: now,
                        marked: false,
                        load_failed: false,
                    },
                );
                i = i + 1;
            }
        },
        ContainerResult::Zip { path, images } => {
            let mut i: usize = 0;
            while i < images.len()
                invariant
                    i <= images@.len(),
                    list@.len() == i,
                    forall|k: int|
                        0 <= k < i ==> is_member(#[trigger] list@[k], path@, images@[k], now),
                decreases images.len() - i,
            {
                list.push(
                    FileInfo {
                        path: path.clone(),
                        source: FileSource::ArchiveEntry {
                            archive: path.clone(),
                            entry: images[i].entry_name.clone(),
                            on_demand: true,
                        },
                        file_name: images[i].file_name.clone(),
                        file_size: images[i].file_size,
                        modified: now,
                        marked: false,
                        load_failed: false,
                    },
                );
                i = i + 1;
            }
        },
        ContainerResult::TempExtracted { path, entries, .. } => {
            let ghost test = |e: ExtractedEntry| e.metadata is Some;
            let mut i: usize = 0;
            proof {
                reveal(Seq::filter);
                assert(readable(entries@.take(0)) =~= Seq::empty());
            }
            while i < entries.len()
                invariant
                    i <= entries@.len(),
                    test == (|e: ExtractedEntry| e.metadata is Some),
                    list@.len() == readable(entries@.take(i as int)).len(),
                    forall|k: int|
                        0 <= k < list@.len() ==> is_extract(
                            #[trigger] list@[k],
                            path@,
                            readable(entries@.take(i as int))[k],
                        ),
                decreases entries.len() - i,
            {
                proof {
                    reveal(Seq::filter);
                    assert(entries@.take(i + 1).drop_last() =~= entries@.take(i as int));
                    assert(entries@.take(i + 1).last() == entries@[i as int]);
                }
                let e = &entries[i];
                match &e.metadata {
                    Some(m) => {
                        let mut info = FileInfo::from_path(e.path.as_str(), m);
                        info.source =
                        FileSource::ArchiveEntry {
                            archive: path.clone(),
                            entry: e.entry_name.clone(),
                            on_demand: false,
                        };
                        info.file_name = extract_filename(e.entry_name.as_str()).to_owned();
                        list.push(info);
                    },
                    None => {},
                }
                i = i + 1;
            }
            assert(entries@.take(entries@.len() as int) =~= entries@);
        },
    }
    list
}

/// The name of a page ends with its number and has three digits at least, so that the first
/// thousand names are equally long.
pub proof fn page_names_have_three_digits(number: nat)
    requires
        0 < number < 1000,
    ensures
        page_name(number).len() == 8,
        page_name(number).take(5) == "Page "@,
        text::digits_value(page_name(number).skip(5)) == number,
{
    reveal_strlit("Page ");
    reveal_strlit("Page 0");
    reveal_strlit("Page 00");
    reveal_with_fuel(text::decimal, 4);
    reveal_with_fuel(text::digits_value, 4);
    let d = text::decimal(number);
    text::decimal_denotes(number);
    assert(page_name(number).take(5) =~= "Page "@);
    if number < 10 {
        assert(d.len() == 1);
        assert(page_name(number).skip(5) =~= seq!['0', '0'] + d);
        leading_zero(d);
        leading_zero(seq!['0'] + d);
        assert(seq!['0'] + (seq!['0'] + d) =~= seq!['0', '0'] + d);
    } else if number < 100 {
        assert(d.len() == 2);
        assert(page_name(number).skip(5) =~= seq!['0'] + d);
        leading_zero(d);
    } else {
        assert(d.len() == 3);
        assert(page_name(number).skip(5) =~= d);
    }
}

proof fn leading_zero(d: Seq<char>)
    ensures
        text::digits_value(seq!['0'] + d) == text::digits_value(d),
    decreases d.len(),
{
    let more = seq!['0'] + d;
    if d.len() > 0 {
        leading_zero(d.drop_last());
        assert(more.drop_last() =~= seq!['0'] + d.drop_last());
        assert(more.last() == d.last());
    } else {
        assert(more =~= seq!['0']);
        assert(more.drop_last() =~= Seq::<char>::empty());
        reveal_with_fuel(text::digits_value, 2);
    }
}

} // verus!
