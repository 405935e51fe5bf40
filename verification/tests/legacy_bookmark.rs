use std::sync::Arc;

use gv::archive::ArchiveManager;
use gv::bookmark::legacy::{
    classify_raw_path, decode_utf16le_lossy, parse_legacy_bookmark, parse_legacy_bookmark_utf16le,
    parse_sections, split_archive_path,
};
use gv::bookmark::parse_bookmark_file;
use gv::extension_registry::ExtensionRegistry;
use gv::file_info::FileSource;

fn archives() -> ArchiveManager {
    ArchiveManager::new(Arc::new(ExtensionRegistry::new()))
}

/// The bytes of a text in UTF-16, the lower byte first.
fn to_utf16le(s: &str) -> Vec<u8> {
    s.encode_utf16().flat_map(u16::to_le_bytes).collect()
}

#[test]
fn parse_normal() {
    let text = "[gvbookmark/ver:1]\r\ncurrent:\r\nC:\\images\\b.jpg\r\nfiles:\r\nC:\\images\\a.jpg\r\nC:\\images\\b.jpg\r\nC:\\images\\c.jpg\r\n";
    let bytes = to_utf16le(text);
    let data = parse_legacy_bookmark_utf16le(&bytes, &archives());
    assert_eq!(data.entries.len(), 3);
    assert_eq!(data.index, 1);
    assert!(
        matches!(&data.entries[0], FileSource::File(p) if p == r"C:\images\a.jpg")
    );
    assert!(
        matches!(&data.entries[1], FileSource::File(p) if p == r"C:\images\b.jpg")
    );
    assert!(
        matches!(&data.entries[2], FileSource::File(p) if p == r"C:\images\c.jpg")
    );
}

#[test]
fn parse_with_archive_entries() {
    let text = "[gvbookmark/ver:1]\r\ncurrent:\r\nE:\\book.zip\\01.jpg\r\nfiles:\r\nE:\\book.zip\\01.jpg\r\nE:\\book.zip\\02.jpg\r\n";
    let bytes = to_utf16le(text);
    let data = parse_legacy_bookmark_utf16le(&bytes, &archives());
    assert_eq!(data.entries.len(), 2);
    assert_eq!(data.index, 0);
    assert!(matches!(
        &data.entries[0],
        FileSource::ArchiveEntry { archive, entry, on_demand: false }
        if archive == r"E:\book.zip" && entry == "01.jpg"
    ));
    assert!(matches!(
        &data.entries[1],
        FileSource::ArchiveEntry { archive, entry, on_demand: false }
        if archive == r"E:\book.zip" && entry == "02.jpg"
    ));
}

#[test]
fn parse_standalone_archive_becomes_pending_container() {
    let text = "[gvbookmark/ver:1]\r\ncurrent:\r\nE:\\vol01.zip\r\nfiles:\r\nE:\\vol01.zip\r\nE:\\vol02.zip\r\n";
    let bytes = to_utf16le(text);
    let data = parse_legacy_bookmark_utf16le(&bytes, &archives());
    assert_eq!(data.entries.len(), 2);
    assert!(matches!(
        &data.entries[0],
        FileSource::PendingContainer { container_path } if container_path == r"E:\vol01.zip"
    ));
    assert!(matches!(
        &data.entries[1],
        FileSource::PendingContainer { container_path } if container_path == r"E:\vol02.zip"
    ));
}

#[test]
fn parse_mixed_archive_and_entries() {
    let text = "[gvbookmark/ver:1]\r\ncurrent:\r\nvol2.zip\\01.jpg\r\nfiles:\r\nvol1.zip\r\nvol2.zip\\01.jpg\r\nvol2.zip\\02.jpg\r\n";
    let bytes = to_utf16le(text);
    let data = parse_legacy_bookmark_utf16le(&bytes, &archives());
    assert_eq!(data.entries.len(), 3);
    assert_eq!(data.index, 1);
    assert!(matches!(
        &data.entries[0],
        FileSource::PendingContainer { .. }
    ));
    assert!(matches!(&data.entries[1], FileSource::ArchiveEntry { .. }));
    assert!(matches!(&data.entries[2], FileSource::ArchiveEntry { .. }));
}

#[test]
fn parse_unc_path() {
    let text = "[gvbookmark/ver:1]\r\ncurrent:\r\n\\\\server\\share\\dir\\a.jpg\r\nfiles:\r\n\\\\server\\share\\dir\\a.jpg\r\n\\\\server\\share\\dir\\b.jpg\r\n";
    let bytes = to_utf16le(text);
    let data = parse_legacy_bookmark_utf16le(&bytes, &archives());
    assert_eq!(data.entries.len(), 2);
    assert_eq!(data.index, 0);
    assert!(matches!(
        &data.entries[0],
        FileSource::File(p) if p == r"\\server\share\dir\a.jpg"
    ));
}

#[test]
fn parse_nested_archive_ext_picks_outermost() {
    let text = "files:\r\nC:\\a.zip\\b.zip\\c.jpg\r\n";
    let bytes = to_utf16le(text);
    let data = parse_legacy_bookmark_utf16le(&bytes, &archives());
    assert_eq!(data.entries.len(), 1);
    assert!(matches!(
        &data.entries[0],
        FileSource::ArchiveEntry { archive, entry, .. }
        if archive == r"C:\a.zip" && entry == "b.zip/c.jpg"
    ));
}

#[test]
fn parse_missing_header() {
    let text = "current:\r\ntest.jpg\r\nfiles:\r\ntest.jpg\r\ntest2.jpg\r\n";
    let bytes = to_utf16le(text);
    let data = parse_legacy_bookmark_utf16le(&bytes, &archives());
    assert_eq!(data.entries.len(), 2);
    assert_eq!(data.index, 0);
}

#[test]
fn parse_no_current_section() {
    let text = "[gvbookmark/ver:1]\r\nfiles:\r\na.jpg\r\nb.jpg\r\n";
    let bytes = to_utf16le(text);
    let data = parse_legacy_bookmark_utf16le(&bytes, &archives());
    assert_eq!(data.entries.len(), 2);
    assert_eq!(data.index, 0);
}

#[test]
fn parse_current_not_in_files() {
    let text = "[gvbookmark/ver:1]\r\ncurrent:\r\nnotexist.jpg\r\nfiles:\r\na.jpg\r\nb.jpg\r\n";
    let bytes = to_utf16le(text);
    let data = parse_legacy_bookmark_utf16le(&bytes, &archives());
    assert_eq!(data.entries.len(), 2);
    assert_eq!(data.index, 0);
}

#[test]
fn parse_index_matching_case_insensitive() {
    let text = "[gvbookmark/ver:1]\r\ncurrent:\r\nc:\\Foo.jpg\r\nfiles:\r\nC:\\foo.jpg\r\nC:\\bar.jpg\r\n";
    let bytes = to_utf16le(text);
    let data = parse_legacy_bookmark_utf16le(&bytes, &archives());
    assert_eq!(data.index, 0);
}

#[test]
fn parse_index_points_to_non_first_archive() {
    let text = "[gvbookmark/ver:1]\r\ncurrent:\r\nE:\\vol2.zip\\003.jpg\r\nfiles:\r\nE:\\vol1.zip\\001.jpg\r\nE:\\vol1.zip\\002.jpg\r\nE:\\vol2.zip\\003.jpg\r\nE:\\vol2.zip\\004.jpg\r\n";
    let bytes = to_utf16le(text);
    let data = parse_legacy_bookmark_utf16le(&bytes, &archives());
    assert_eq!(data.entries.len(), 4);
    assert_eq!(data.index, 2);
}

#[test]
fn parse_empty_after_bom() {
    let data = parse_legacy_bookmark_utf16le(&[], &archives());
    assert!(data.entries.is_empty());
    assert_eq!(data.index, 0);
}

#[test]
fn parse_odd_byte_count() {
    // 奇数バイト: 末尾 1 バイトは破棄されるがパニックしない
    let mut bytes = to_utf16le("files:\r\na.jpg\r\n");
    bytes.push(0xFF);
    let data = parse_legacy_bookmark_utf16le(&bytes, &archives());
    assert_eq!(data.entries.len(), 1);
}

#[test]
fn parse_ignores_blank_lines() {
    let text = "[gvbookmark/ver:1]\r\n\r\nfiles:\r\n\r\na.jpg\r\n\r\nb.jpg\r\n\r\n";
    let bytes = to_utf16le(text);
    let data = parse_legacy_bookmark_utf16le(&bytes, &archives());
    assert_eq!(data.entries.len(), 2);
}

#[test]
fn split_at_zip() {
    let result = split_archive_path(r"C:\data\test.zip\img\001.jpg", &archives());
    let (archive, entry) = result.unwrap();
    assert_eq!(archive, r"C:\data\test.zip");
    assert_eq!(entry, "img/001.jpg");
}

#[test]
fn split_uppercase_cbr() {
    let result = split_archive_path(r"D:\comics\vol.CBR\page1.png", &archives());
    let (archive, entry) = result.unwrap();
    assert_eq!(archive, r"D:\comics\vol.CBR");
    assert_eq!(entry, "page1.png");
}

#[test]
fn split_no_archive_returns_none() {
    let result = split_archive_path(r"C:\images\photo.jpg", &archives());
    assert!(result.is_none());
}

#[test]
fn split_archive_itself_returns_none() {
    let result = split_archive_path(r"C:\data\test.zip", &archives());
    assert!(result.is_none());
}

#[test]
fn classify_archive_body_becomes_pending() {
    let source = classify_raw_path(r"E:\manga\vol21.zip", &archives());
    assert!(matches!(source, FileSource::PendingContainer { .. }));
}

#[test]
fn classify_archive_entry() {
    let source = classify_raw_path(r"E:\manga\vol21.zip\page001.jpg", &archives());
    assert!(matches!(source, FileSource::ArchiveEntry { .. }));
}

#[test]
fn classify_normal_file() {
    let source = classify_raw_path(r"C:\images\photo.jpg", &archives());
    assert!(matches!(source, FileSource::File(_)));
}

#[test]
fn parse_archives_section_adds_unknown_containers() {
    // files にはvol1のエントリのみ、archives にはvol1とvol2が列挙される。
    // vol2は files から検出されないため PendingContainer として追加される。
    let text = "[gvbookmark/ver:1]\r\ncurrent:\r\nE:\\vol1.zip\\01.jpg\r\nfiles:\r\nE:\\vol1.zip\\01.jpg\r\nE:\\vol1.zip\\02.jpg\r\narchives:\r\nE:\\vol1.zip\r\nE:\\vol2.zip\r\n";
    let bytes = to_utf16le(text);
    let data = parse_legacy_bookmark_utf16le(&bytes, &archives());
    // files: 2 エントリ (ArchiveEntry) + archives から 1 PendingContainer (vol2)
    assert_eq!(data.entries.len(), 3);
    assert!(matches!(&data.entries[0], FileSource::ArchiveEntry { .. }));
    assert!(matches!(&data.entries[1], FileSource::ArchiveEntry { .. }));
    assert!(matches!(
        &data.entries[2],
        FileSource::PendingContainer { container_path }
        if container_path == r"E:\vol2.zip"
    ));
}

#[test]
fn parse_archives_section_no_duplicates() {
    // files のエントリから既知のアーカイブは archives に重複があっても追加しない
    let text =
        "[gvbookmark/ver:1]\r\nfiles:\r\nE:\\vol1.zip\\01.jpg\r\narchives:\r\nE:\\vol1.zip\r\n";
    let bytes = to_utf16le(text);
    let data = parse_legacy_bookmark_utf16le(&bytes, &archives());
    assert_eq!(data.entries.len(), 1);
    assert!(matches!(&data.entries[0], FileSource::ArchiveEntry { .. }));
}

#[test]
fn parse_archives_only_no_files() {
    // files が空で archives のみ → 全て PendingContainer
    let text = "[gvbookmark/ver:1]\r\narchives:\r\nE:\\vol1.zip\r\nE:\\vol2.zip\r\n";
    let bytes = to_utf16le(text);
    let data = parse_legacy_bookmark_utf16le(&bytes, &archives());
    assert_eq!(data.entries.len(), 2);
    assert!(matches!(
        &data.entries[0],
        FileSource::PendingContainer { .. }
    ));
    assert!(matches!(
        &data.entries[1],
        FileSource::PendingContainer { .. }
    ));
}

#[test]
fn sections_are_told_apart() {
    let p = parse_sections("head\nFILES:\ncurrent:\n c.jpg \nd.jpg\nfiles:\na.jpg\narchives:\nb.zip");
    assert_eq!(p.current.as_deref(), Some("c.jpg"));
    assert_eq!(p.files, vec!["head", "FILES:", "a.jpg"]);
    assert_eq!(p.archives, vec!["b.zip"]);
}

#[test]
fn broken_units_are_replaced() {
    assert_eq!(decode_utf16le_lossy(&[0x41, 0x00, 0x00, 0xd8, 0x42]), "A\u{fffd}");
    assert_eq!(decode_utf16le_lossy(&[0x3d, 0xd8, 0x00, 0xde]), "\u{1f600}");
}

#[test]
fn bookmark_text_is_read_like_its_bytes() {
    let text = "files:\na.jpg\nC:\\v.zip\\1.jpg\ncurrent:\nC:\\V.ZIP\\1.JPG\n";
    let data = parse_legacy_bookmark(text, &archives());
    assert_eq!(data.index, 1);
    let again = parse_legacy_bookmark_utf16le(&to_utf16le(text), &archives());
    assert_eq!(again.index, 1);
    assert_eq!(again.entries.len(), data.entries.len());
}

#[test]
fn text_is_read_back_from_its_bytes() {
    for text in ["", "abc", "日本語\r\n", "\u{1f600} \u{10ffff}\u{ffff}\u{d7ff}\u{e000}"] {
        let mut bytes = to_utf16le(text);
        assert_eq!(decode_utf16le_lossy(&bytes), text);
        bytes.push(0x5a);
        assert_eq!(decode_utf16le_lossy(&bytes), text);
    }
}

#[test]
fn files_are_read_by_their_form() {
    let text = "[gvbookmark/ver:1]\r\nfiles:\r\nC:\\a.jpg\r\nC:\\b.jpg\r\n";
    let mut marked = vec![0xff, 0xfe];
    marked.extend(to_utf16le(text));
    let data = parse_bookmark_file("C:\\x.GVB", &marked, &archives()).unwrap();
    assert_eq!(data.entries.len(), 2);
    assert!(matches!(&data.entries[0], FileSource::File(p) if p == "C:\\a.jpg"));
    let data = parse_bookmark_file("C:\\x.gvb", &to_utf16le(text), &archives()).unwrap();
    assert_eq!(data.entries.len(), 2);
    let present = "# gv3 bookmark v1\n# index: 1\nfile\tC:\\あ.png\nfile\tC:\\b.png\n";
    let data = parse_bookmark_file("C:\\x.gvbm", present.as_bytes(), &archives()).unwrap();
    assert_eq!(data.index, 1);
    assert!(matches!(&data.entries[0], FileSource::File(p) if p == "C:\\あ.png"));
    assert!(parse_bookmark_file("C:\\x.gvbm", &[0xff, 0xfe, 0x41], &archives()).is_none());
}
