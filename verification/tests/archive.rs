use std::io::{Cursor, Write};
use std::sync::Arc;

use gv::archive::rar::{RarHandler, RarHeader, RarStep};
use gv::archive::sevenz::{SevenZEntry, SevenZHandler, Unpacked};
use gv::archive::susie::SusieArchiveHandler;
use gv::archive::zip::{stored_bytes, ZipHandler};
use gv::archive::{
    extract_filename, image_file_name, resolve_filename, AnyHandler, ArchiveError, ArchiveFormat,
    ArchiveHandler, ArchiveManager, TakenPaths,
};
use gv::extension_registry::ExtensionRegistry;
use gv::paths::file_name_of;
use sevenz_rust2::{ArchiveEntry, ArchiveWriter, EncoderConfiguration, EncoderMethod, SourceReader};
use zip::write::SimpleFileOptions;
use zip::{CompressionMethod, ZipWriter};

fn manager() -> ArchiveManager {
    ArchiveManager::new(Arc::new(ExtensionRegistry::new()))
}

fn zip_of(entries: &[(&str, &[u8])], method: CompressionMethod) -> Vec<u8> {
    let mut buf = Vec::new();
    let mut writer = ZipWriter::new(Cursor::new(&mut buf));
    let options = SimpleFileOptions::default().compression_method(method);
    for (name, data) in entries {
        writer.start_file(*name, options).unwrap();
        writer.write_all(data).unwrap();
    }
    writer.finish().unwrap();
    buf
}

fn stored_zip(entries: &[(&str, &[u8])]) -> Vec<u8> {
    zip_of(entries, CompressionMethod::Stored)
}

fn taken(paths: &[&str]) -> TakenPaths {
    TakenPaths { taken: paths.iter().map(|p| p.to_string()).collect() }
}

fn last_name(path: &str) -> String {
    file_name_of(path).unwrap()
}

#[test]
fn is_archive_recognizes_extensions() {
    let mgr = manager();
    assert!(mgr.is_archive("test.zip"));
    assert!(mgr.is_archive("test.ZIP"));
    assert!(mgr.is_archive("test.cbz"));
    assert!(mgr.is_archive("test.rar"));
    assert!(mgr.is_archive("test.cbr"));
    assert!(mgr.is_archive("test.7z"));
    assert!(!mgr.is_archive("test.jpg"));
    assert!(!mgr.is_archive("test.txt"));
    assert!(!mgr.is_archive("test"));
}

#[test]
fn extract_filename_flattens_paths() {
    assert_eq!(extract_filename("folder/subfolder/image.jpg"), "image.jpg");
    assert_eq!(extract_filename("folder\\image.png"), "image.png");
    assert_eq!(extract_filename("image.bmp"), "image.bmp");
    assert_eq!(extract_filename(""), "");
}

#[test]
fn extract_filename_trailing_separator() {
    assert_eq!(extract_filename("folder/"), "");
    assert_eq!(extract_filename("folder\\"), "");
}

#[test]
fn resolve_filename_handles_duplicates() {
    let dir = "C:\\out";
    let none = taken(&[]);
    assert_eq!(last_name(&resolve_filename(dir, "unique.jpg", &none)), "unique.jpg");

    let one = taken(&["C:\\out\\dup.jpg"]);
    assert_eq!(last_name(&resolve_filename(dir, "dup.jpg", &one)), "dup_2.jpg");
}

#[test]
fn resolve_filename_no_extension() {
    let one = taken(&["C:\\out\\README"]);
    assert_eq!(last_name(&resolve_filename("C:\\out", "README", &one)), "README_2");
}

#[test]
fn resolve_filename_multiple_duplicates() {
    let two = taken(&["C:\\out\\img.png", "C:\\out\\img_2.png"]);
    assert_eq!(last_name(&resolve_filename("C:\\out", "img.png", &two)), "img_3.png");
}

#[test]
fn resolve_filename_gives_up_after_the_last_number() {
    let mut all: Vec<String> = (2..10000).map(|i| format!("C:\\out\\a_{i}.png")).collect();
    all.push("C:\\out\\a.png".to_string());
    let full = TakenPaths { taken: all };
    assert_eq!(resolve_filename("C:\\out", "a.png", &full), "C:\\out\\a.png_overflow");
}

#[test]
fn find_handler_returns_error_for_unsupported_extension() {
    let mgr = manager();
    let result = mgr.find_handler("test.xyz");
    assert!(result.is_err());
    let msg = result.err().unwrap().message();
    assert!(msg.contains("未対応のアーカイブ形式"), "got: {msg}");
}

#[test]
fn find_handler_returns_error_for_no_extension() {
    let mgr = manager();
    assert!(mgr.find_handler("noext").is_err());
}

#[test]
fn find_handler_succeeds_for_supported_extensions() {
    let mgr = manager();
    assert!(mgr.find_handler("a.zip").is_ok());
    assert!(mgr.find_handler("a.cbz").is_ok());
    assert!(mgr.find_handler("a.rar").is_ok());
    assert!(mgr.find_handler("a.cbr").is_ok());
    assert!(mgr.find_handler("a.7z").is_ok());
    assert!(mgr.find_handler("a.ZIP").is_ok());
    assert!(mgr.find_handler("a.Rar").is_ok());
    assert!(mgr.find_handler("noext").is_err());
}

#[test]
fn list_images_from_buffer_empty_zip() {
    let buf = stored_zip(&[]);
    let entries = manager().list_images_from_buffer(&buf, "empty.zip").unwrap();
    assert!(entries.is_empty());
}

#[test]
fn list_images_from_buffer_filters_non_images() {
    let buf = stored_zip(&[
        ("photo.jpg", b"jpeg-data"),
        ("readme.txt", b"text"),
        ("doc.pdf", b"pdf"),
        ("icon.png", b"png-data"),
        ("data.xml", b"xml"),
    ]);
    let entries = manager().list_images_from_buffer(&buf, "mixed.zip").unwrap();
    assert_eq!(entries.len(), 2);
    assert_eq!(entries[0].file_name, "photo.jpg");
    assert_eq!(entries[1].file_name, "icon.png");
}

#[test]
fn list_images_from_buffer_works_with_cbz_extension() {
    let buf = stored_zip(&[("page1.png", b"png")]);
    let entries = manager().list_images_from_buffer(&buf, "comic.cbz").unwrap();
    assert_eq!(entries.len(), 1);
}

#[test]
fn list_images_from_buffer_rejects_non_zip_extension() {
    let result = manager().list_images_from_buffer(b"", "test.rar");
    assert!(result.is_err());
    let msg = result.err().unwrap().message();
    assert!(msg.contains("バッファベース取得未対応"), "got: {msg}");
}

#[test]
fn supports_on_demand_returns_false_for_unsupported() {
    assert!(!manager().supports_on_demand("test.xyz"));
}

#[test]
fn supports_on_demand_for_zip() {
    assert!(manager().supports_on_demand("test.zip"));
}

#[test]
fn only_zip_is_read_on_demand() {
    let mgr = manager();
    assert!(mgr.supports_on_demand("a.CBZ"));
    assert!(!mgr.supports_on_demand("a.rar"));
    assert!(!mgr.supports_on_demand("a.7z"));
    let refused = mgr.read_entry("a.rar", "p.png", b"");
    assert!(matches!(refused, Err(ArchiveError::NotOnDemand)));
}

#[test]
fn read_entry_fails_for_unsupported_extension() {
    assert!(manager().read_entry("test.xyz", "entry.jpg", b"").is_err());
}

#[test]
fn extract_images_fails_for_unsupported_extension() {
    assert!(manager().extract_images("test.xyz").is_err());
}

#[test]
fn extract_images_names_the_program() {
    let mut mgr = manager();
    assert_eq!(mgr.extract_images("a.cbr").unwrap(), ArchiveFormat::Rar);
    assert_eq!(mgr.extract_images("a.7z").unwrap(), ArchiveFormat::SevenZ);
    let registry = Arc::new(ExtensionRegistry::new());
    let susie = SusieArchiveHandler::new(4, vec![".lzh".to_string(), ".7z".to_string()], registry);
    mgr.add_handler(AnyHandler::Susie(susie));
    assert_eq!(mgr.extract_images("a.LZH").unwrap(), ArchiveFormat::Plugin(4));
    // 先に登録したハンドラが優先される
    assert_eq!(mgr.extract_images("a.7z").unwrap(), ArchiveFormat::SevenZ);
}

#[test]
fn is_archive_rejects_path_without_filename() {
    assert!(!manager().is_archive("/"));
}

#[test]
fn rar_supported_extensions() {
    let handler = RarHandler::new(Arc::new(ExtensionRegistry::new()));
    let exts = handler.supported_extensions();
    assert!(exts.contains(&".rar".to_string()));
    assert!(exts.contains(&".cbr".to_string()));
}

#[test]
fn sevenz_supported_extensions() {
    let handler = SevenZHandler::new(Arc::new(ExtensionRegistry::new()));
    assert!(handler.supported_extensions().contains(&".7z".to_string()));
}

#[test]
fn list_images_from_buffer_works() {
    let reg = ExtensionRegistry::new();
    let buffer = stored_zip(&[("a.jpg", b"jpg-data"), ("b.png", b"png-data"), ("c.txt", b"text")]);
    let entries = ZipHandler::list_images_from_buffer(&buffer, &reg).unwrap();
    assert_eq!(entries.len(), 2);
    assert_eq!(entries[0].file_name, "a.jpg");
    assert_eq!(entries[1].file_name, "b.png");
}

#[test]
fn list_images_returns_image_entries_only() {
    let reg = ExtensionRegistry::new();
    let buffer = stored_zip(&[
        ("image1.jpg", b"fake-jpg"),
        ("subfolder/image2.png", b"fake-png"),
        ("readme.txt", b"text"),
    ]);
    let entries = ZipHandler::list_images_from_buffer(&buffer, &reg).unwrap();
    assert_eq!(entries.len(), 2);
    assert_eq!(entries[0].entry_name, "image1.jpg");
    assert_eq!(entries[0].file_name, "image1.jpg");
    assert_eq!(entries[0].file_size, 8);
    assert_eq!(entries[1].entry_name, "subfolder/image2.png");
    assert_eq!(entries[1].file_name, "image2.png");
}

/// Extracts all images of a ZIP into a folder: the paths with their entries.
fn extract(buffer: &[u8], dir: &str) -> Vec<(String, String)> {
    let reg = ExtensionRegistry::new();
    let mut results = Vec::new();
    let mut existing = taken(&[]);
    for e in ZipHandler::images_to_store(buffer, &reg).unwrap() {
        let out = resolve_filename(dir, &e.file_name, &existing);
        existing.taken.push(out.clone());
        results.push((out, e.entry_name));
    }
    results
}

#[test]
fn extract_images_from_zip() {
    let buffer = stored_zip(&[
        ("image1.jpg", b"fake-jpg-data"),
        ("subfolder/image2.png", b"fake-png-data"),
        ("readme.txt", b"not an image"),
        ("image3.bmp", b"fake-bmp-data"),
    ]);
    let entries = extract(&buffer, "C:\\out");
    assert_eq!(entries.len(), 3);
    let paths: Vec<&str> = entries.iter().map(|(p, _)| p.as_str()).collect();
    assert!(paths.contains(&"C:\\out\\image1.jpg"));
    assert!(paths.contains(&"C:\\out\\image2.png"));
    assert!(paths.contains(&"C:\\out\\image3.bmp"));
    assert!(!paths.contains(&"C:\\out\\readme.txt"));
    let entry_paths: Vec<&str> = entries.iter().map(|(_, e)| e.as_str()).collect();
    assert!(entry_paths.contains(&"image1.jpg"));
    assert!(entry_paths.contains(&"subfolder/image2.png"));
    assert!(entry_paths.contains(&"image3.bmp"));
}

#[test]
fn extract_handles_duplicate_filenames() {
    let buffer = stored_zip(&[("a/image.jpg", b"data1"), ("b/image.jpg", b"data2")]);
    let entries = extract(&buffer, "C:\\out");
    assert_eq!(entries.len(), 2);
    assert_eq!(entries[0].0, "C:\\out\\image.jpg");
    assert_eq!(entries[1].0, "C:\\out\\image_2.jpg");
    assert_eq!(entries[0].1, "a/image.jpg");
    assert_eq!(entries[1].1, "b/image.jpg");
}

#[test]
fn read_entry_returns_data() {
    let buffer = stored_zip(&[("image.jpg", b"fake-jpg-data-123")]);
    let data = ZipHandler::read_entry(&buffer, "image.jpg").unwrap();
    assert_eq!(data, b"fake-jpg-data-123");
    let data = manager().read_entry("C:\\a.zip", "image.jpg", &buffer).unwrap();
    assert_eq!(data, b"fake-jpg-data-123");
}

#[test]
fn read_entry_from_buffer_stored() {
    let buffer = stored_zip(&[("img.jpg", b"stored-data")]);
    let data = ZipHandler::read_entry_from_buffer(&buffer, "img.jpg").unwrap();
    assert_eq!(data, b"stored-data");
}

#[test]
fn read_entry_from_buffer_compressed() {
    let buffer = zip_of(&[("img.jpg", b"deflated-data-content")], CompressionMethod::Deflated);
    let data = ZipHandler::read_entry_from_buffer(&buffer, "img.jpg").unwrap();
    assert_eq!(data, b"deflated-data-content");
}

#[test]
fn absent_entries_and_broken_archives_are_refused() {
    let buffer = stored_zip(&[("img.jpg", b"x")]);
    let absent = ZipHandler::read_entry_from_buffer(&buffer, "other.jpg");
    assert!(matches!(absent, Err(ArchiveError::NotFound(n)) if n == "other.jpg"));
    let absent = ZipHandler::read_entry(&buffer, "other.jpg");
    assert!(matches!(absent, Err(ArchiveError::NotFound(n)) if n == "other.jpg"));

    let broken = ZipHandler::read_entry_from_buffer(b"not an archive", "img.jpg");
    assert!(matches!(broken, Err(ArchiveError::Unreadable)));
    let broken = ZipHandler::list_images_from_buffer(b"", &ExtensionRegistry::new());
    assert!(matches!(broken, Err(ArchiveError::Unreadable)));
}

#[test]
fn damaged_entries_are_not_unpacked() {
    let mut buffer = stored_zip(&[("img.jpg", b"stored-data")]);
    let at = buffer.windows(11).position(|w| w == b"stored-data").unwrap();
    buffer[at] = b'S';
    // 無圧縮はそのまま切り出し、展開ではCRC不一致になる
    assert_eq!(
        ZipHandler::read_entry_from_buffer(&buffer, "img.jpg").unwrap(),
        b"Stored-data"
    );
    let failed = ZipHandler::read_entry(&buffer, "img.jpg");
    assert!(matches!(failed, Err(ArchiveError::ReadFailed(n)) if n == "img.jpg"));
}

#[test]
fn stored_bytes_are_cut_out_within_range() {
    let bytes = [10u8, 11, 12, 13, 14];
    assert_eq!(stored_bytes(&bytes, Some(1), 3).unwrap(), vec![11, 12, 13]);
    assert_eq!(stored_bytes(&bytes, Some(5), 0).unwrap(), Vec::<u8>::new());
    assert!(matches!(stored_bytes(&bytes, Some(3), 3), Err(ArchiveError::OutOfRange)));
    assert!(matches!(stored_bytes(&bytes, Some(u64::MAX), 2), Err(ArchiveError::OutOfRange)));
    assert!(matches!(stored_bytes(&bytes, None, 1), Err(ArchiveError::NoStart)));
}

#[test]
fn hidden_entries_and_folders_are_no_images() {
    let reg = ExtensionRegistry::new();
    assert_eq!(image_file_name(&reg, "a/b/c.JPG", false), Some("c.JPG".to_string()));
    assert_eq!(image_file_name(&reg, "a/.c.jpg", false), None);
    assert_eq!(image_file_name(&reg, "a/c.jpg", true), None);
    assert_eq!(image_file_name(&reg, "a/", false), None);
    assert_eq!(image_file_name(&reg, "a/c.txt", false), None);
}

#[test]
fn rar_stream_is_read_header_by_header() {
    let handler = RarHandler::new(Arc::new(ExtensionRegistry::new()));
    let mut run = handler.begin();
    let header = RarHeader::Entry { entry_path: "x\\1.png".to_string(), is_dir: false };
    assert!(matches!(handler.on_header(&header), RarStep::Store { file_name } if file_name == "1.png"));
    run.on_read(true, true, "C:\\t\\1.png".to_string(), "x\\1.png".to_string());
    let header = RarHeader::Entry { entry_path: "readme.txt".to_string(), is_dir: false };
    assert!(matches!(handler.on_header(&header), RarStep::Skip));
    run.on_skipped(true);
    assert!(run.running);
    assert!(matches!(handler.on_header(&RarHeader::End), RarStep::Stop));
    assert_eq!(run.results.len(), 1);
    assert_eq!(run.results[0].1, "x\\1.png");
    run.on_read(false, false, String::new(), String::new());
    assert!(!run.running);
}

#[test]
fn images_to_store_hold_their_bytes() {
    let reg = ExtensionRegistry::new();
    let buffer = zip_of(
        &[("d/a.png", b"first"), ("b.txt", b"text"), ("c.jpg", b"third third third")],
        CompressionMethod::Deflated,
    );
    let images = ZipHandler::images_to_store(&buffer, &reg).unwrap();
    assert_eq!(images.len(), 2);
    assert_eq!(images[0].entry_name, "d/a.png");
    assert_eq!(images[0].file_name, "a.png");
    assert_eq!(images[0].data, b"first");
    assert_eq!(images[1].entry_name, "c.jpg");
    assert_eq!(images[1].data, b"third third third");
    let broken = ZipHandler::images_to_store(b"no archive", &reg);
    assert!(matches!(broken, Err(ArchiveError::Unreadable)));
}

#[test]
fn members_that_cannot_be_unpacked_are_passed_over() {
    let reg = ExtensionRegistry::new();
    let mut buffer = stored_zip(&[("a.png", b"AAAA"), ("b.png", b"BBBB")]);
    let at = buffer.windows(4).position(|w| w == b"AAAA").unwrap();
    buffer[at] = b'X';
    let images = ZipHandler::images_to_store(&buffer, &reg).unwrap();
    assert_eq!(images.len(), 1);
    assert_eq!(images[0].entry_name, "b.png");
}

fn sevenz_handler() -> SevenZHandler {
    SevenZHandler::new(Arc::new(ExtensionRegistry::new()))
}

/// A 7z archive with a block for each entry; a folder for a name that ends in a slash.
fn sevenz_of(entries: &[(&str, &[u8])], method: EncoderMethod) -> Vec<u8> {
    let mut writer = ArchiveWriter::new(Cursor::new(Vec::new())).unwrap();
    writer.set_content_methods(vec![EncoderConfiguration::new(method)]);
    for (name, data) in entries {
        match name.strip_suffix('/') {
            Some(folder) => {
                let entry = ArchiveEntry::new_directory(folder);
                writer.push_archive_entry(entry, None::<&[u8]>).unwrap();
            }
            None => {
                let entry = ArchiveEntry::new_file(name);
                writer.push_archive_entry(entry, Some(*data)).unwrap();
            }
        }
    }
    writer.finish().unwrap().into_inner()
}

/// A 7z archive with all entries in one block.
fn solid_sevenz(entries: &[(&str, &[u8])]) -> Vec<u8> {
    let mut writer = ArchiveWriter::new(Cursor::new(Vec::new())).unwrap();
    writer.set_content_methods(vec![EncoderConfiguration::new(EncoderMethod::COPY)]);
    let files = entries.iter().map(|(name, _)| ArchiveEntry::new_file(name)).collect();
    let sources = entries.iter().map(|(_, data)| SourceReader::new(*data)).collect();
    writer.push_archive_entries(files, sources).unwrap();
    writer.finish().unwrap().into_inner()
}

/// The archive with the first place of the text changed.
fn damaged(mut buffer: Vec<u8>, text: &[u8]) -> Vec<u8> {
    let at = buffer.windows(text.len()).position(|w| w == text).unwrap();
    buffer[at] ^= 1;
    buffer
}

#[test]
fn sevenz_images_hold_their_bytes() {
    let entries: [(&str, &[u8]); 7] = [
        ("dir.png/", b""),
        ("d/a.png", b"first"),
        ("b.txt", b"text"),
        ("d/.hidden.png", b"hidden"),
        ("e/a.PNG", b""),
        ("c.jpg", b"third third third"),
        ("d/noext", b"none"),
    ];
    for method in [EncoderMethod::COPY, EncoderMethod::LZMA2, EncoderMethod::LZMA] {
        let buffer = sevenz_of(&entries, method);
        let images = sevenz_handler().images_to_store(&buffer).unwrap();
        let mut found: Vec<(&str, &str, &[u8])> = images
            .iter()
            .map(|i| (i.entry_name.as_str(), i.file_name.as_str(), i.data.as_slice()))
            .collect();
        found.sort();
        let mut expected: Vec<(&str, &str, &[u8])> = vec![
            ("d/a.png", "a.png", b"first"),
            ("e/a.PNG", "a.PNG", b""),
            ("c.jpg", "c.jpg", b"third third third"),
        ];
        expected.sort();
        assert_eq!(found, expected);
    }
}

#[test]
fn sevenz_images_keep_their_order() {
    let buffer = solid_sevenz(&[("c.png", b"1"), ("x.txt", b"22"), ("a.png", b"333"), ("b.bmp", b"4")]);
    let images = sevenz_handler().images_to_store(&buffer).unwrap();
    let found: Vec<(&str, &[u8])> =
        images.iter().map(|i| (i.entry_name.as_str(), i.data.as_slice())).collect();
    let expected: Vec<(&str, &[u8])> = vec![("c.png", b"1"), ("a.png", b"333"), ("b.bmp", b"4")];
    assert_eq!(found, expected);
}

#[test]
fn a_damaged_sevenz_image_fails_the_archive() {
    let entries: [(&str, &[u8]); 2] = [("a.png", b"AAAAAAAA"), ("b.png", b"BBBBBBBB")];
    for buffer in [sevenz_of(&entries, EncoderMethod::COPY), solid_sevenz(&entries)] {
        assert_eq!(sevenz_handler().images_to_store(&buffer).unwrap().len(), 2);
        for text in [b"AAAAAAAA", b"BBBBBBBB"] {
            let result = sevenz_handler().images_to_store(&damaged(buffer.clone(), text));
            assert!(matches!(result, Err(ArchiveError::Incomplete)));
        }
    }
}

#[test]
fn damage_that_is_not_read_does_no_harm() {
    let entries: [(&str, &[u8]); 2] = [("a.png", b"AAAAAAAA"), ("b.txt", b"BBBBBBBB")];
    for buffer in [sevenz_of(&entries, EncoderMethod::COPY), solid_sevenz(&entries)] {
        let images = sevenz_handler().images_to_store(&damaged(buffer, b"BBBBBBBB")).unwrap();
        assert_eq!(images.len(), 1);
        assert_eq!(images[0].data, b"AAAAAAAA");
    }
    // What stands before an image in its block has to be unpacked.
    let buffer = solid_sevenz(&[("b.txt", b"BBBBBBBB"), ("a.png", b"AAAAAAAA")]);
    let result = sevenz_handler().images_to_store(&damaged(buffer, b"BBBBBBBB"));
    assert!(matches!(result, Err(ArchiveError::Incomplete)));
}

#[test]
fn what_is_no_sevenz_is_refused() {
    for bytes in [b"".as_slice(), b"no archive", &stored_zip(&[("a.png", b"x")])] {
        let result = sevenz_handler().images_to_store(bytes);
        assert!(matches!(result, Err(ArchiveError::NotSevenZ)));
    }
    assert_eq!(ArchiveError::NotSevenZ.message(), "7zアーカイブ読み取り失敗");
    assert_eq!(ArchiveError::Incomplete.message(), "7zアーカイブ展開失敗");
}

#[test]
fn sevenz_images_are_picked_from_entries() {
    let entry = |name: &str, is_dir: bool, data: &[u8]| SevenZEntry {
        name: name.to_string(),
        is_dir,
        data: data.to_vec(),
    };
    let entries = vec![entry("d/a.png", false, b"a"), entry("b.png", true, b""), entry("c.txt", false, b"")];
    let found = sevenz_handler().images_among(Unpacked { entries, complete: true }).unwrap();
    assert_eq!(found.len(), 1);
    assert_eq!(found[0].entry_name, "d/a.png");
    assert_eq!(found[0].file_name, "a.png");
    assert_eq!(found[0].data, b"a");
    let entries = vec![entry("a.png", false, b"a")];
    let result = sevenz_handler().images_among(Unpacked { entries, complete: false });
    assert!(matches!(result, Err(ArchiveError::Incomplete)));
    assert_eq!(sevenz_handler().amount("a.png", false), u64::MAX);
    assert_eq!(sevenz_handler().amount("a.png", true), 0);
    assert_eq!(sevenz_handler().amount("a.txt", false), 0);
}
