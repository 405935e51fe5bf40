use gv::file_info::{FileInfo, FileMetadata, FileSource};
use gv::paths::{
    extension_of, file_name_of, file_stem_of, is_under, join, parent_of, rest_of, same_path,
};

fn file(path: &str) -> FileSource {
    FileSource::File(path.to_string())
}

fn entry(archive: &str, entry: &str, on_demand: bool) -> FileSource {
    FileSource::ArchiveEntry { archive: archive.to_string(), entry: entry.to_string(), on_demand }
}

fn page(pdf_path: &str, page_index: u32) -> FileSource {
    FileSource::PdfPage { pdf_path: pdf_path.to_string(), page_index }
}

#[test]
fn from_path_valid_file() {
    let info = FileInfo::from_path("C:\\d\\test.png", &FileMetadata { size: 13, modified: 0 });
    assert_eq!(info.file_name, "test.png");
    assert_eq!(info.file_size, 13);
    assert!(!info.marked);
    assert!(!info.load_failed);
    assert!(!info.source.is_archive_entry());
}

#[test]
fn file_source_display_path() {
    let source = file(r"C:\images\test.jpg");
    assert_eq!(source.display_path(), r"C:\images\test.jpg");
    assert!(!source.is_archive_entry());
    assert!(source.archive_path().is_none());

    let source = entry(r"C:\archive.zip", "folder/image.png", false);
    assert_eq!(source.display_path(), r"C:\archive.zip/folder/image.png");
    assert!(source.is_archive_entry());
    assert_eq!(source.archive_path().unwrap(), r"C:\archive.zip");
}

#[test]
fn pdf_page_source() {
    let source = page(r"C:\docs\test.pdf", 2);
    assert_eq!(source.display_path(), r"C:\docs\test.pdf/Page 3");
    assert!(!source.is_archive_entry());
    assert!(source.is_contained());
    assert_eq!(source.archive_path().unwrap(), r"C:\docs\test.pdf");

    // File は is_contained() == false
    assert!(!file(r"C:\images\test.jpg").is_contained());

    // ArchiveEntry は is_contained() == true
    assert!(entry(r"C:\archive.zip", "img.png", false).is_contained());
}

#[test]
fn parent_dir_for_each_source() {
    assert_eq!(file(r"C:\images\test.jpg").parent_dir().unwrap(), r"C:\images");
    let archive = entry(r"C:\archives\photos.zip", "folder/sunset.png", true);
    assert_eq!(archive.parent_dir().unwrap(), r"C:\archives");
    assert_eq!(page(r"C:\docs\report.pdf", 0).parent_dir().unwrap(), r"C:\docs");
}

#[test]
fn default_save_name_for_each_source() {
    assert_eq!(file(r"C:\images\sunset.jpg").default_save_name(), "sunset.jpg");
    let archive = entry(r"C:\photos.zip", "folder/sunset.png", false);
    assert_eq!(archive.default_save_name(), "photos_sunset.png");
    assert_eq!(page(r"C:\docs\report.pdf", 2).default_save_name(), "report_page3.png");
}

#[test]
fn default_save_stem_strips_extension() {
    assert_eq!(file(r"C:\images\sunset.jpg").default_save_stem(), "sunset");
    assert_eq!(entry(r"C:\photos.zip", "img.png", false).default_save_stem(), "photos_img");
    assert_eq!(page(r"C:\doc.pdf", 0).default_save_stem(), "doc_page1");
}

#[test]
fn placeholders_show_their_container() {
    let source = FileSource::PendingContainer { container_path: r"C:\a.zip".to_string() };
    assert!(source.is_pending_container());
    assert!(source.is_contained());
    assert!(!source.is_archive_entry());
    assert_eq!(source.archive_path().unwrap(), r"C:\a.zip");
    assert_eq!(page(r"C:\doc.pdf", u32::MAX).display_path(), r"C:\doc.pdf/Page 4294967296");
}

#[test]
fn paths_are_taken_apart() {
    assert_eq!(file_name_of("C:\\a\\b.tar.gz").unwrap(), "b.tar.gz");
    assert_eq!(file_stem_of("C:\\a\\b.tar.gz").unwrap(), "b.tar");
    assert_eq!(extension_of("C:/a/b.tar.gz").unwrap(), "gz");
    assert_eq!(extension_of(".hidden"), None);
    assert_eq!(file_stem_of(".hidden").unwrap(), ".hidden");
    assert_eq!(file_name_of("C:\\"), None);
    assert_eq!(file_name_of("a\\.."), None);
    assert_eq!(parent_of("C:\\a").unwrap(), "C:\\");
    assert_eq!(parent_of("C:\\"), None);
    assert_eq!(parent_of("a").unwrap(), "");
    assert_eq!(join("C:\\a", "b"), "C:\\a\\b");
    assert_eq!(join("C:\\", "b"), "C:\\b");
}

#[test]
fn separators_do_not_tell_paths_apart() {
    assert!(same_path("C:\\a\\b", "c:/a//b/"));
    assert!(!same_path("C:\\a\\b", "C:\\a\\B"));
    assert!(is_under("C:\\a\\b", "C:\\a"));
    assert!(is_under("C:\\a", "C:\\a"));
    assert!(!is_under("C:\\ab", "C:\\a"));
}

#[test]
fn shares_and_verbatim_paths_have_their_own_beginnings() {
    assert_eq!(file_name_of(r"\\server\share"), None);
    assert_eq!(parent_of(r"\\server\share"), None);
    assert_eq!(file_name_of(r"\\server\share\a.png").unwrap(), "a.png");
    assert_eq!(parent_of(r"\\server\share\a.png").unwrap(), r"\\server\share\");
    assert_eq!(parent_of(r"\\server\share\d\a.png").unwrap(), r"\\server\share\d");
    assert_eq!(file_name_of(r"\\server").unwrap(), "server");
    assert_eq!(file_name_of(r"\\?\C:\d\a.png").unwrap(), "a.png");
    assert_eq!(parent_of(r"\\?\C:\a.png").unwrap(), r"\\?\C:\");
    assert_eq!(parent_of(r"\\?\C:\"), None);
    assert_eq!(file_name_of(r"\\?\UNC\server\share"), None);
    assert_eq!(file_name_of(r"\\?\UNC\server\share\a.png").unwrap(), "a.png");
    assert_eq!(file_name_of(r"\\?\pictures"), None);
    assert_eq!(file_name_of(r"\\.\COM42"), None);
    // A slash is part of a name that is taken as it stands, and a dot ends the path.
    assert_eq!(file_name_of(r"\\?\C:\d/a.png").unwrap(), "d/a.png");
    assert_eq!(file_name_of(r"\\?\C:\d\."), None);
    assert_eq!(file_name_of(r"C:\d\.").unwrap(), "d");
}

#[test]
fn prefixes_tell_paths_apart() {
    assert!(same_path(r"\\server\share", r"\\server\share\"));
    assert!(same_path(r"\\server\share\a", "//server/share/a"));
    assert!(!same_path(r"\\server\share\a", r"\\server\other\a"));
    assert!(!same_path(r"\\?\C:\a", r"C:\a"));
    assert!(same_path(r"\\?\c:\a", r"\\?\C:\a"));
    assert!(!same_path(r"\\?\C:", r"\\?\C:\"));
    assert!(is_under(r"\\server\share\d\a.png", r"\\server\share"));
    assert!(!is_under(r"\\server\share\d", r"\\server\shared"));
}

#[test]
fn names_are_joined_to_every_prefix() {
    assert_eq!(join(r"\\server\share", "a"), r"\\server\share\a");
    assert_eq!(join(r"\\server\share\d", r"\a"), r"\\server\share\a");
    assert_eq!(join(r"C:\d", r"\\server\share\a"), r"\\server\share\a");
    assert_eq!(join(r"\\?\C:\d", "a"), r"\\?\C:\d\a");
    assert_eq!(join(r"\\?\C:\d\\e\", r"..\a/b"), r"\\?\C:\d\a\b");
    assert_eq!(join(r"\\?\C:\d", r"\a"), r"\\?\C:\a");
    assert_eq!(join(r"\\?\pictures", "a"), r"\\?\pictures\a");
    assert_eq!(join(r"\\?\C:\d", r".."), r"\\?\C:\");
    assert_eq!(join("C:", "a"), "C:a");
    assert_eq!(join("", "a"), "a");
}

#[test]
fn the_rest_of_a_path_keeps_a_dot_behind_a_bare_drive() {
    assert_eq!(rest_of("C:.", 2), ".");
    assert_eq!(rest_of(r"C:.\x", 2), r".\x");
    assert_eq!(rest_of(r"C:.\x", 3), "x");
    assert_eq!(rest_of(r"C:\.\x", 3), "x");
    assert_eq!(rest_of(r"C:\a.zip\.\x\.", 8), "x");
    assert_eq!(rest_of(r"C:\a.zip", 8), "");
}
