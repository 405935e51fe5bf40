use std::sync::Arc;

use gv::bookmark::{bookmark_text, default_bookmark_name, is_bookmark_file, parse_bookmark};
use gv::extension_registry::ExtensionRegistry;
use gv::file_info::{FileInfo, FileMetadata, FileSource};
use gv::file_list::FileList;

#[test]
fn parse_bookmark_normal() {
    let content = r"# gv3 bookmark v1
# index: 1
file	C:\images\test.jpg
file	C:\images\test2.png
";
    let data = parse_bookmark(content);
    assert_eq!(data.entries.len(), 2);
    assert_eq!(data.index, 1);
    assert!(
        matches!(&data.entries[0], FileSource::File(p) if p == r"C:\images\test.jpg")
    );
}

#[test]
fn parse_bookmark_with_archive() {
    let content = r"# gv3 bookmark v1
# index: 0
file	C:\images\test.jpg
archive	C:\archive.zip	folder/image.png
";
    let data = parse_bookmark(content);
    assert_eq!(data.entries.len(), 2);
    assert!(matches!(
        &data.entries[1],
        FileSource::ArchiveEntry { archive, entry, .. }
        if archive == r"C:\archive.zip" && entry == "folder/image.png"
    ));
}

#[test]
fn parse_bookmark_with_pdf() {
    let content = r"# gv3 bookmark v1
# index: 2
pdf	C:\docs\test.pdf	0
pdf	C:\docs\test.pdf	1
pdf	C:\docs\test.pdf	2
";
    let data = parse_bookmark(content);
    assert_eq!(data.entries.len(), 3);
    assert_eq!(data.index, 2);
    assert!(matches!(
        &data.entries[1],
        FileSource::PdfPage { pdf_path, page_index }
        if pdf_path == r"C:\docs\test.pdf" && *page_index == 1
    ));
}

#[test]
fn parse_bookmark_index_clamp() {
    let content = "# index: 999\nfile\ttest.jpg\n";
    let data = parse_bookmark(content);
    assert_eq!(data.index, 0); // clamped to 0
}

#[test]
fn parse_bookmark_empty_content() {
    let data = parse_bookmark("");
    assert!(data.entries.is_empty());
    assert_eq!(data.index, 0);
}

#[test]
fn parse_bookmark_header_only_no_entries() {
    let content = "# gv3 bookmark v1\n# index: 5\n";
    let data = parse_bookmark(content);
    assert!(data.entries.is_empty());
    assert_eq!(data.index, 5); // エントリが空なのでクランプされず、パースされたindex値がそのまま残る
}

#[test]
fn parse_bookmark_no_index_comment() {
    let content = "# gv3 bookmark v1\nfile\ttest.jpg\nfile\ttest2.jpg\n";
    let data = parse_bookmark(content);
    assert_eq!(data.entries.len(), 2);
    assert_eq!(data.index, 0); // デフォルト0
}

#[test]
fn parse_bookmark_invalid_index_value() {
    // index行のパースに失敗 → デフォルト0のまま
    let content = "# index: abc\nfile\ttest.jpg\n";
    let data = parse_bookmark(content);
    assert_eq!(data.index, 0);
    assert_eq!(data.entries.len(), 1);
}

#[test]
fn parse_bookmark_negative_index() {
    let content = "# index: -1\nfile\ttest.jpg\n";
    let data = parse_bookmark(content);
    assert_eq!(data.index, 0); // usize::parseに失敗 → デフォルト0
}

#[test]
fn parse_bookmark_blank_lines_ignored() {
    let content = "# gv3 bookmark v1\n\n\nfile\ttest.jpg\n\nfile\ttest2.jpg\n\n";
    let data = parse_bookmark(content);
    assert_eq!(data.entries.len(), 2);
}

#[test]
fn parse_bookmark_whitespace_lines_ignored() {
    let content = "   \n\tfile\ta.jpg\n   \n";
    let data = parse_bookmark(content);
    // "file\ta.jpg" はtrim後に正しくパースされるはず…
    // ただし "\tfile\ta.jpg" をtrimすると "file\ta.jpg" になり、
    // splitn(3, '\t') → ["file", "a.jpg"] にマッチ
    assert_eq!(data.entries.len(), 1);
    assert!(matches!(&data.entries[0], FileSource::File(p) if p == "a.jpg"));
}

#[test]
fn parse_bookmark_unknown_type_falls_back_to_file() {
    // 未知のタイプ名は後方互換でFileとして扱われる
    let content = "unknown\tpath\textra\n";
    let data = parse_bookmark(content);
    assert_eq!(data.entries.len(), 1);
    // 後方互換: タブ区切りでない行 or マッチしない行はそのままFileとして扱う
    assert!(matches!(&data.entries[0], FileSource::File(_)));
}

#[test]
fn parse_bookmark_bare_path_without_type() {
    // タブ区切りでない行 → 後方互換でそのままファイルパスとして扱う
    let content = r"C:\images\photo.jpg";
    let data = parse_bookmark(content);
    assert_eq!(data.entries.len(), 1);
    assert!(
        matches!(&data.entries[0], FileSource::File(p) if p == r"C:\images\photo.jpg")
    );
}

#[test]
fn parse_bookmark_pdf_invalid_page_index() {
    // page_indexがu32にパースできない → エントリはスキップされる
    let content = "pdf\tC:\\test.pdf\tabc\n";
    let data = parse_bookmark(content);
    assert!(data.entries.is_empty());
}

#[test]
fn parse_bookmark_pdf_negative_page_index() {
    let content = "pdf\tC:\\test.pdf\t-1\n";
    let data = parse_bookmark(content);
    assert!(data.entries.is_empty()); // u32パース失敗
}

#[test]
fn parse_bookmark_archive_on_demand_is_false() {
    let content = "archive\tC:\\test.zip\timg.png\n";
    let data = parse_bookmark(content);
    assert_eq!(data.entries.len(), 1);
    assert!(matches!(
        &data.entries[0],
        FileSource::ArchiveEntry { on_demand, .. } if !on_demand
    ));
}

#[test]
fn parse_bookmark_mixed_entry_types() {
    let content = r"# gv3 bookmark v1
# index: 2
file	C:\images\a.jpg
archive	C:\archive.zip	inner/b.png
pdf	C:\docs\doc.pdf	3
file	C:\images\c.bmp
";
    let data = parse_bookmark(content);
    assert_eq!(data.entries.len(), 4);
    assert_eq!(data.index, 2);
    assert!(matches!(&data.entries[0], FileSource::File(_)));
    assert!(matches!(&data.entries[1], FileSource::ArchiveEntry { .. }));
    assert!(matches!(
        &data.entries[2],
        FileSource::PdfPage { page_index, .. } if *page_index == 3
    ));
    assert!(matches!(&data.entries[3], FileSource::File(_)));
}

#[test]
fn parse_bookmark_index_clamp_exact_boundary() {
    // index == entries.len() → len-1にクランプ
    let content = "# index: 3\nfile\ta.jpg\nfile\tb.jpg\nfile\tc.jpg\n";
    let data = parse_bookmark(content);
    assert_eq!(data.entries.len(), 3);
    assert_eq!(data.index, 2); // 3 >= 3 なのでクランプ
}

#[test]
fn parse_bookmark_index_within_range() {
    let content = "# index: 2\nfile\ta.jpg\nfile\tb.jpg\nfile\tc.jpg\n";
    let data = parse_bookmark(content);
    assert_eq!(data.index, 2); // 範囲内なのでそのまま
}

#[test]
fn parse_bookmark_comment_lines_ignored() {
    let content = "# gv3 bookmark v1\n# some comment\n# another\nfile\ta.jpg\n";
    let data = parse_bookmark(content);
    assert_eq!(data.entries.len(), 1);
}

fn entry_of(source: FileSource) -> FileInfo {
    let mut info = FileInfo::from_path("C:\\x", &FileMetadata { size: 0, modified: 0 });
    info.source = source;
    info
}

#[test]
fn saved_bookmark_is_read_back() {
    let mut list = FileList::new(Arc::new(ExtensionRegistry::new()));
    list.push(entry_of(FileSource::File("C:\\a b\\1.png".to_string())));
    list.push(entry_of(FileSource::PendingContainer { container_path: "C:\\p.zip".to_string() }));
    list.push(entry_of(FileSource::ArchiveEntry {
        archive: "C:\\z.zip".to_string(),
        entry: "d/2.png".to_string(),
        on_demand: true,
    }));
    list.push(entry_of(FileSource::PdfPage { pdf_path: "C:\\d.pdf".to_string(), page_index: 6 }));
    let text = bookmark_text(&list, Some(2));
    assert_eq!(
        text,
        "# gv3 bookmark v1\n# index: 2\nfile\tC:\\a b\\1.png\n\
         archive\tC:\\z.zip\td/2.png\npdf\tC:\\d.pdf\t6\n"
    );
    let data = parse_bookmark(&text);
    assert_eq!(data.index, 2);
    assert_eq!(data.entries.len(), 3);
    assert!(matches!(&data.entries[0], FileSource::File(p) if p == "C:\\a b\\1.png"));
    assert!(matches!(&data.entries[1], FileSource::ArchiveEntry { archive, entry, on_demand: false }
        if archive == "C:\\z.zip" && entry == "d/2.png"));
    assert!(matches!(&data.entries[2], FileSource::PdfPage { page_index: 6, .. }));
    assert!(bookmark_text(&list, None).contains("# index: 0\n"));
}

#[test]
fn bookmarks_are_known_by_their_extension() {
    assert!(is_bookmark_file("C:\\a.gvbm"));
    assert!(is_bookmark_file("C:\\a.GV3BM"));
    assert!(is_bookmark_file("a.gvb"));
    assert!(!is_bookmark_file("a.gvbmx"));
    assert!(!is_bookmark_file("gvbm"));
    assert_eq!(default_bookmark_name(1700000000), "bookmark_1700000000.gvbm");
}

#[test]
fn numbers_beyond_their_range_are_refused() {
    let data = parse_bookmark("pdf\tC:\\a.pdf\t4294967296\npdf\tC:\\a.pdf\t+7\n");
    assert_eq!(data.entries.len(), 1);
    assert!(matches!(&data.entries[0], FileSource::PdfPage { page_index: 7, .. }));
    let data = parse_bookmark("# index: 99999999999999999999999\nfile\ta\n");
    assert_eq!(data.index, 0);
}
