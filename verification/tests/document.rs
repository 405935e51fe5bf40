use std::io::{Cursor, Write};
use std::sync::Arc;

use gv::archive::ArchiveManager;
use gv::bookmark::BookmarkData;
use gv::document::container::{
    build_container_entries, extracted, listed_in_memory, no_folder, pages_counted, read_plan,
    temp_folder_name, ReadPlan,
};
use gv::document::expansion::Absorbed;
use gv::document::list::RenameError;
use gv::document::loading::{data_plan, DataPlan, LoadError, PrefetchResponse};
use gv::document::open::{
    containers_to_open, first_at_once, list_failures, plan_bookmark, BookmarkPlan, Candidate, CandidateKind,
    Failure, FolderListing, Gathered, OpenError, OpenKind, ReadBookmark,
};
use gv::document::prefetch::{prefetch_indices, prefetch_requests};
use gv::document::states::ContainerStates;
use gv::document::types::{
    ContainerExpandEvent, ContainerResult, ContainerState, DocumentError, DocumentEvent, Effect,
    ExtractedEntry,
};
use gv::document::utils::{
    arrange_folder, arrange_inputs, sort_paths_natural, update_cache_range, CacheRange,
    ScannedEntry,
};
use gv::document::Document;
use gv::extension_registry::ExtensionRegistry;
use gv::file_info::{FileInfo, FileMetadata, FileSource};
use gv::file_list::navigation::NavigationDirection;
use gv::file_list::sort::SortOrder;
use gv::file_list::{FileList, FolderEntry, ListError};
use gv::image::DecodedImage;
use gv::persistent_filter::FilterOperation;
use zip::write::SimpleFileOptions;
use zip::{CompressionMethod, ZipWriter};

fn archives() -> ArchiveManager {
    ArchiveManager::new(Arc::new(ExtensionRegistry::new()))
}

fn sorted_document(order: SortOrder) -> Document {
    Document::new(Arc::new(ExtensionRegistry::new()), archives(), order)
}

fn test_document() -> Document {
    sorted_document(SortOrder::default())
}

fn white_pixel() -> DecodedImage {
    DecodedImage { data: vec![255; 4], width: 1, height: 1 }
}

fn meta() -> Option<FileMetadata> {
    Some(FileMetadata { size: 67, modified: 0 })
}

/// Carries out the effects; every image decodes to a white pixel. Returns them.
fn settle(doc: &mut Document) -> Vec<Effect> {
    let mut done = Vec::new();
    loop {
        let effects = doc.take_effects();
        if effects.is_empty() {
            return done;
        }
        for e in effects {
            if let Effect::Load { .. } = &e {
                doc.image_decoded(Ok(white_pixel()));
            }
            done.push(e);
        }
    }
}

/// Opens a folder with some images.
fn open_folder(doc: &mut Document, count: usize) {
    let candidates = (0..count)
        .map(|i| Candidate {
            path: format!("C:\\pics\\image_{i:03}.png"),
            metadata: meta(),
            nested: true,
        })
        .collect();
    assert!(doc.open_multiple(&candidates, &Vec::new()).is_empty());
    doc.open_gathered(Vec::new(), &Vec::new(), &Vec::new(), 0).unwrap();
    settle(doc);
}

fn zip_bytes(image_count: usize) -> Vec<u8> {
    let mut buf = Vec::new();
    let mut writer = ZipWriter::new(Cursor::new(&mut buf));
    let options =
        SimpleFileOptions::default().compression_method(CompressionMethod::Stored);
    for i in 0..image_count {
        writer.start_file(format!("image_{i:03}.png"), options).unwrap();
        writer.write_all(b"png").unwrap();
    }
    writer.finish().unwrap();
    buf
}

/// What reading a ZIP gives.
fn read_zip(path: &str, bytes: Result<&[u8], String>) -> ContainerResult {
    listed_in_memory(path, &archives(), bytes)
}

fn index(doc: &Document) -> Option<usize> {
    doc.file_list().current_index()
}

fn names(doc: &Document) -> Vec<&str> {
    doc.file_list().files().iter().map(|f| f.file_name.as_str()).collect()
}

fn has_error(effects: &[Effect]) -> bool {
    effects.iter().any(|e| matches!(e, Effect::Event(DocumentEvent::Error(_))))
}

#[test]
fn document_new_initial_state() {
    let doc = test_document();
    assert!(doc.current_image().is_none());
    assert!(doc.current_path().is_none());
    assert_eq!(doc.file_list().len(), 0);
    assert_eq!(doc.file_list().current_index(), None);
}

#[test]
fn document_open_folder_populates_list() {
    let mut doc = test_document();
    open_folder(&mut doc, 3);
    assert_eq!(doc.file_list().len(), 3);
    assert_eq!(index(&doc), Some(0));
    assert!(doc.current_image().is_some());
}

#[test]
fn document_navigate_relative_forward_backward() {
    let mut doc = test_document();
    open_folder(&mut doc, 5);

    // 前方移動
    doc.navigate_relative(1);
    assert_eq!(index(&doc), Some(1));
    doc.navigate_relative(2);
    assert_eq!(index(&doc), Some(3));

    // 後方移動
    doc.navigate_relative(-1);
    assert_eq!(index(&doc), Some(2));

    // ラップアラウンド: 先頭を超えると末尾へ
    doc.navigate_first();
    doc.navigate_relative(-1);
    assert_eq!(index(&doc), Some(4));

    // ラップアラウンド: 末尾を超えると先頭へ
    doc.navigate_relative(1);
    assert_eq!(index(&doc), Some(0));
}

#[test]
fn document_navigate_first_last() {
    let mut doc = test_document();
    open_folder(&mut doc, 5);
    doc.navigate_last();
    assert_eq!(index(&doc), Some(4));
    doc.navigate_first();
    assert_eq!(index(&doc), Some(0));
}

#[test]
fn document_navigate_to_index() {
    let mut doc = test_document();
    open_folder(&mut doc, 5);
    doc.navigate_to(3);
    assert_eq!(index(&doc), Some(3));
    // 範囲外は移動しない
    doc.navigate_to(100);
    assert_eq!(index(&doc), Some(3));
}

#[test]
fn document_mark_operations() {
    let mut doc = test_document();
    open_folder(&mut doc, 3);

    // 初期状態ではマークなし
    assert!(!doc.file_list().current().unwrap().marked);

    // mark_currentはマーク後に次へ移動する
    doc.navigate_first();
    doc.mark_current();
    assert_eq!(index(&doc), Some(1));
    assert!(doc.file_list().files()[0].marked);

    // unmark_currentは現在位置のマークを解除
    doc.navigate_first();
    doc.unmark_current();
    assert!(!doc.file_list().files()[0].marked);

    // invert_all_marks
    doc.invert_all_marks();
    let marks: Vec<bool> = doc.file_list().files().iter().map(|f| f.marked).collect();
    assert_eq!(marks, vec![true, true, true]);
}

#[test]
fn document_is_pdf_detection() {
    assert!(Document::is_pdf("test.pdf"));
    assert!(Document::is_pdf("test.PDF"));
    assert!(Document::is_pdf("path/to/file.Pdf"));
    assert!(!Document::is_pdf("test.png"));
    assert!(!Document::is_pdf("test.pdf.bak"));
    assert!(!Document::is_pdf("no_extension"));
}

#[test]
fn update_cache_range_calculation() {
    let base_size = 1024 * 1536 * 4; // ~6MB

    // 小さいメモリ予算: 最小3スロット → forward=2, backward=1
    let range = update_cache_range(base_size * 3, base_size);
    assert_eq!(range.forward, 2);
    assert_eq!(range.backward, 1);

    // 大きいメモリ予算: 上限に達する → forward=4, backward=2
    let range = update_cache_range(base_size * 100, base_size);
    assert_eq!(range.forward, 4);
    assert_eq!(range.backward, 2);
}

#[test]
fn close_all_clears_state() {
    let mut doc = test_document();
    open_folder(&mut doc, 3);
    assert!(doc.current_image().is_some());

    doc.close_all();
    assert!(doc.current_image().is_none());
    assert_eq!(doc.file_list().len(), 0);
    assert_eq!(index(&doc), None);
}

#[test]
fn document_events_on_navigation() {
    let mut doc = test_document();
    open_folder(&mut doc, 3);

    doc.navigate_relative(1);

    // NavigationChanged + ImageReady が送信されるはず
    let mut got_nav = false;
    let mut got_ready = false;
    for effect in settle(&mut doc) {
        match effect {
            Effect::Event(DocumentEvent::NavigationChanged { index, .. }) => {
                assert_eq!(index, 1);
                got_nav = true;
            }
            Effect::Event(DocumentEvent::ImageReady) => {
                got_ready = true;
            }
            _ => {}
        }
    }
    assert!(got_nav, "NavigationChangedイベントが送信されなかった");
    assert!(got_ready, "ImageReadyイベントが送信されなかった");
}

#[test]
fn open_containers_parallel_zips() {
    let bytes = zip_bytes(2);
    let results = (0..3)
        .map(|i| read_zip(&format!("C:\\t\\archive_{i}.zip"), Ok(&bytes)))
        .collect();
    let mut doc = test_document();
    doc.open_containers(results, &Vec::new(), &Vec::new(), 0).unwrap();
    settle(&mut doc);

    // 3 ZIP × 2画像 = 6エントリ
    assert_eq!(doc.file_list().len(), 6);
    assert_eq!(index(&doc), Some(0));
    assert!(doc.current_image().is_some());
}

#[test]
fn open_containers_partial_failure() {
    let bytes = zip_bytes(2);
    let results = vec![
        read_zip("C:\\t\\valid.zip", Ok(&bytes)),
        read_zip("C:\\t\\nonexistent.zip", Err("見つかりません".to_string())),
    ];
    let mut doc = test_document();
    doc.open_containers(results, &Vec::new(), &Vec::new(), 0).unwrap();

    // 有効なZIPの2エントリだけ読み込まれる
    assert_eq!(doc.file_list().len(), 2);

    // エラー通知が送信される
    assert!(has_error(&settle(&mut doc)), "部分失敗時にエラー通知が送信されなかった");
}

#[test]
fn mod_new_initial_state() {
    let doc = test_document();
    assert!(doc.current_image().is_none());
    assert!(doc.current_path().is_none());
    assert_eq!(doc.file_list().len(), 0);
    assert_eq!(doc.file_list().current_index(), None);
}

#[test]
fn new_propagates_default_sort_to_file_list() {
    let doc = test_document();
    assert_eq!(doc.file_list().sort_order(), SortOrder::default());

    let doc2 = sorted_document(SortOrder::Date);
    assert_eq!(doc2.file_list().sort_order(), SortOrder::Date);
}

#[test]
fn mod_open_folder_populates_list() {
    let mut doc = test_document();
    open_folder(&mut doc, 3);
    assert_eq!(doc.file_list().len(), 3);
    assert_eq!(index(&doc), Some(0));
}

#[test]
fn mod_navigate_relative_forward_backward() {
    let mut doc = test_document();
    open_folder(&mut doc, 5);
    assert_eq!(index(&doc), Some(0));
    doc.navigate_relative(2);
    assert_eq!(index(&doc), Some(2));
    doc.navigate_relative(-1);
    assert_eq!(index(&doc), Some(1));
}

#[test]
fn mod_navigate_first_last() {
    let mut doc = test_document();
    open_folder(&mut doc, 5);
    doc.navigate_last();
    assert_eq!(index(&doc), Some(4));
    doc.navigate_first();
    assert_eq!(index(&doc), Some(0));

    // リスト単体でも同様
    let mut fl = FileList::new(Arc::new(ExtensionRegistry::new()));
    let entries = ["a.png", "b.png", "c.png"]
        .iter()
        .map(|n| FolderEntry { path: format!("C:\\d\\{n}"), is_file: true, metadata: meta() })
        .collect();
    fl.populate_from_folder(&entries);
    fl.navigate_to(1);
    fl.navigate_last();
    assert_eq!(fl.current_index(), Some(2));
    fl.navigate_first();
    assert_eq!(fl.current_index(), Some(0));
}

#[test]
fn mod_navigate_to_index() {
    let mut doc = test_document();
    open_folder(&mut doc, 5);
    doc.navigate_to(3);
    assert_eq!(index(&doc), Some(3));
}

#[test]
fn mod_mark_operations() {
    let mut doc = test_document();
    open_folder(&mut doc, 3);
    assert_eq!(doc.file_list().marked_count(), 0);

    doc.mark_current(); // mark index 0, move to 1
    assert_eq!(index(&doc), Some(1));
    assert_eq!(doc.file_list().marked_count(), 1);

    doc.navigate_first();
    doc.invert_all_marks();
    let marked = doc.file_list().marked_count();
    assert!(marked > 0 && marked < 3);
}

#[test]
fn mod_is_pdf_detection() {
    assert!(Document::is_pdf("test.pdf"));
    assert!(Document::is_pdf("test.PDF"));
    assert!(!Document::is_pdf("test.png"));
    assert!(!Document::is_pdf("test.pdf.txt"));
}

/// Opens `a.zip` with one image, read at once, and queues the rest.
fn open_with_queue(doc: &mut Document, rest: &[&str]) -> Vec<Effect> {
    let bytes = zip_bytes(1);
    let results = vec![read_zip("C:\\t\\a.zip", Ok(&bytes))];
    let rest: Vec<String> = rest.iter().map(|p| p.to_string()).collect();
    let lookup = rest.iter().map(|_| meta()).collect();
    doc.open_containers(results, &rest, &lookup, 0).unwrap();
    settle(doc)
}

fn expanded(path: &str, images: usize, generation: u64) -> ContainerExpandEvent {
    let bytes = zip_bytes(images);
    ContainerExpandEvent::Expanded {
        container_path: path.to_string(),
        result: read_zip(path, Ok(&bytes)),
        generation,
    }
}

fn asked(effects: &[Effect]) -> Option<(Vec<String>, u64)> {
    effects.iter().rev().find_map(|e| match e {
        Effect::Expand { paths, generation } => Some((paths.clone(), *generation)),
        _ => None,
    })
}

#[test]
fn queued_containers_are_expanded_in_the_background() {
    let mut doc = test_document();
    let effects = open_with_queue(&mut doc, &["C:\\t\\b.zip", "C:\\t\\c.zip"]);
    let (paths, generation) = asked(&effects).unwrap();
    assert_eq!(paths, vec!["C:\\t\\b.zip", "C:\\t\\c.zip"]);
    assert_eq!(doc.file_list().len(), 3);
    assert!(doc.file_list().is_pending_at(1));
    assert_eq!(doc.expand_progress(), Some((1, 3)));
    assert_eq!(doc.find_pending_index("C:/t/c.zip"), Some(2));

    // 古い世代の報告は無視される
    let late = expanded("C:\\t\\b.zip", 2, generation.wrapping_sub(1));
    assert_eq!(doc.absorb_expand_event(late, 0), Absorbed::Discarded);
    assert_eq!(doc.file_list().len(), 3);

    let report = expanded("C:\\t\\b.zip", 2, generation);
    assert_eq!(doc.absorb_expand_event(report, 0), Absorbed::Applied { awaited: false });
    assert_eq!(doc.file_list().len(), 4);
    assert_eq!(index(&doc), Some(0));

    doc.process_expand_results(
        vec![
            expanded("C:\\t\\c.zip", 1, generation),
            ContainerExpandEvent::AllDone { generation },
        ],
        0,
    );
    assert_eq!(doc.file_list().len(), 4);
    assert!(!doc.file_list().has_pending());
    assert_eq!(doc.expand_progress(), None);
    assert!(!doc.expanding);
}

#[test]
fn container_that_is_waited_for_is_entered() {
    let mut doc = test_document();
    let effects = open_with_queue(&mut doc, &["C:\\t\\b.zip"]);
    let (_, _) = asked(&effects).unwrap();
    doc.navigate_relative(-1);
    let effects = settle(&mut doc);
    assert_eq!(index(&doc), Some(1));
    assert!(doc.current_image().is_none());
    let generation = asked(&effects).map_or(doc.generation, |(_, g)| g);
    assert!(matches!(&doc.intent, Some((p, NavigationDirection::Backward)) if p == "C:\\t\\b.zip"));
    let report = expanded("C:\\t\\b.zip", 3, generation);
    doc.process_expand_results(vec![report], 0);
    settle(&mut doc);
    // 後方からの到着なので末尾の画像
    assert_eq!(index(&doc), Some(3));
    assert!(doc.current_image().is_some());
    assert!(doc.intent.is_none());
}

#[test]
fn failed_container_leaves_the_list() {
    let mut doc = test_document();
    let effects = open_with_queue(&mut doc, &["C:\\t\\b.zip"]);
    let (_, generation) = asked(&effects).unwrap();
    let report = ContainerExpandEvent::Expanded {
        container_path: "C:\\t\\b.zip".to_string(),
        result: ContainerResult::Error {
            path: "C:\\t\\b.zip".to_string(),
            error: "壊れている".to_string(),
        },
        generation,
    };
    doc.process_expand_results(vec![report], 0);
    assert_eq!(doc.file_list().len(), 1);
    let effects = settle(&mut doc);
    let told = effects.iter().any(|e| {
        matches!(e, Effect::Event(DocumentEvent::Error(err))
            if err.message() == "C:\\t\\b.zip: 壊れている")
    });
    assert!(told);
}

#[test]
fn pending_containers_are_expanded_one_by_one_on_demand() {
    let mut doc = test_document();
    open_with_queue(&mut doc, &["C:\\t\\b.zip", "C:\\t\\c.zip"]);
    let bytes = zip_bytes(2);
    let mut rounds = 0;
    while let Some((i, path)) = doc.next_pending_sync() {
        let result = read_zip(&path, Ok(&bytes));
        doc.apply_sync(i, &path, result, 0);
        rounds += 1;
    }
    doc.finish_sync();
    assert_eq!(rounds, 2);
    assert_eq!(doc.file_list().len(), 5);
    assert!(!doc.file_list().has_pending());
}

#[test]
fn nothing_to_open_is_an_error() {
    let mut doc = test_document();
    let empty = doc.open_containers(Vec::new(), &Vec::new(), &Vec::new(), 0).unwrap_err();
    assert!(matches!(&empty, OpenError::NoImages));
    assert_eq!(empty.message(true), "コンテナ内に画像ファイルが存在しない");
    assert_eq!(empty.message(false), "画像ファイルが存在しない");

    let broken = vec![read_zip("C:\\t\\x.zip", Ok(b"junk"))];
    let failed = doc.open_containers(broken, &Vec::new(), &Vec::new(), 0).unwrap_err();
    assert_eq!(
        failed.message(true),
        "全てのコンテナの読み込みに失敗:\nC:\\t\\x.zip: ZIPバッファの読み取りに失敗"
    );
    assert!(failed.message(false).starts_with("読み込みに失敗:\n"));
}

#[test]
fn failures_stand_on_lines() {
    let failure = |p: &str, e: &str| Failure { path: p.to_string(), error: e.to_string() };
    assert_eq!(list_failures(&vec![failure("a", "x"), failure("b", "y")]), "a: x\nb: y");
    assert_eq!(list_failures(&Vec::new()), "");
}

#[test]
fn opening_a_file_lists_its_folder() {
    let mut doc = test_document();
    assert!(matches!(doc.open_kind("C:\\d\\b.png"), OpenKind::Folder(f) if f == "C:\\d"));
    assert!(matches!(doc.open_kind("C:\\d\\b.zip"), OpenKind::Container));
    assert!(matches!(doc.open_kind("C:\\d\\b.pdf"), OpenKind::Container));
    assert!(matches!(doc.open_kind("C:\\d\\b.gvbm"), OpenKind::Bookmark));
    assert!(matches!(doc.open_kind("C:\\"), OpenKind::Nowhere));
    let entry = |n: &str| FolderEntry {
        path: format!("C:\\d\\{n}"),
        is_file: true,
        metadata: meta(),
    };
    let listing = FolderListing::Entries(vec![entry("c.png"), entry("b.png"), entry("x.txt")]);
    assert!(doc.open("C:\\d\\c.png", listing));
    settle(&mut doc);
    assert_eq!(names(&doc), vec!["b.png", "c.png"]);
    assert_eq!(doc.current_path().unwrap(), "C:\\d\\c.png");
    assert!(!doc.open("C:\\e\\c.png", FolderListing::Unreadable));
    assert_eq!(doc.file_list().len(), 0);
}

#[test]
fn opening_one_file_needs_its_metadata() {
    let mut doc = test_document();
    doc.open_single("C:\\d\\c.png", meta()).unwrap();
    settle(&mut doc);
    assert_eq!(names(&doc), vec!["c.png"]);
    assert!(doc.open_single("C:\\d\\gone.png", None).is_err());
}

#[test]
fn inputs_are_gathered_by_kind() {
    let mut doc = test_document();
    assert_eq!(doc.candidate_kind("a.GVB"), CandidateKind::Bookmark);
    assert_eq!(doc.candidate_kind("a.pdf"), CandidateKind::Container);
    assert_eq!(doc.candidate_kind("a.7z"), CandidateKind::Container);
    assert_eq!(doc.candidate_kind("a.JPEG"), CandidateKind::Image);
    assert_eq!(doc.candidate_kind("a.exe"), CandidateKind::Other);
    let candidate = |p: &str, nested: bool| Candidate {
        path: p.to_string(),
        metadata: meta(),
        nested,
    };
    let mut gathered = doc.gather(&vec![
        candidate("C:\\10.zip", false),
        candidate("C:\\2.zip", false),
        candidate("C:\\f\\a.zip", true),
        candidate("C:\\f\\a.png", true),
        candidate("C:\\b.gvbm", false),
        candidate("C:\\n.txt", false),
        Candidate { path: "C:\\gone.png".to_string(), metadata: None, nested: false },
    ]);
    assert_eq!(names(&doc), vec!["a.png"]);
    assert_eq!(gathered.bookmarks, vec!["C:\\b.gvbm"]);
    let entries = vec![
        FileSource::File("C:\\g\\x.png".to_string()),
        FileSource::File("C:\\g\\gone.png".to_string()),
        FileSource::ArchiveEntry {
            archive: "C:\\3.zip".to_string(),
            entry: "p.png".to_string(),
            on_demand: false,
        },
        FileSource::PendingContainer { container_path: "C:\\2.ZIP".to_string() },
    ];
    doc.gather_bookmark(&mut gathered, &entries, &vec![meta(), None, None, None]);
    assert_eq!(names(&doc), vec!["a.png", "x.png"]);
    let order = containers_to_open(gathered);
    assert_eq!(order.len(), 5);
    assert!(order[..2].iter().all(|p| p.to_lowercase() == "c:\\2.zip"));
    assert_eq!(order[2..], ["C:\\3.zip", "C:\\10.zip", "C:\\f\\a.zip"]);
    let none = Gathered { toplevel: Vec::new(), folder: Vec::new(), bookmarks: Vec::new() };
    assert!(containers_to_open(none).is_empty());
}

#[test]
fn several_inputs_are_opened_at_once() {
    let mut doc = test_document();
    open_folder(&mut doc, 2);
    let candidate = |p: &str, nested: bool| Candidate {
        path: p.to_string(),
        metadata: meta(),
        nested,
    };
    let candidates = vec![
        candidate("C:\\10.zip", false),
        candidate("C:\\f\\b.png", true),
        candidate("C:\\f\\a.zip", true),
        candidate("C:\\list.gvbm", false),
    ];
    let bookmark = ReadBookmark {
        entries: vec![
            FileSource::File("C:\\g\\c.png".to_string()),
            FileSource::PendingContainer { container_path: "C:\\9.zip".to_string() },
        ],
        lookup: vec![meta(), None],
    };
    let containers = doc.open_multiple(&candidates, &vec![bookmark]);
    assert_eq!(containers, ["C:\\9.zip", "C:\\10.zip", "C:\\f\\a.zip"]);
    assert_eq!(names(&doc), vec!["b.png", "c.png"]);
    assert_eq!(index(&doc), None);
    let first = read_zip(&containers[0], Ok(&zip_bytes(1)));
    let rest = containers[1..].to_vec();
    doc.open_gathered(vec![first], &rest, &vec![meta(), meta()], 0).unwrap();
    assert_eq!(doc.file_list().len(), 5);
    assert_eq!(index(&doc), Some(0));
    assert!(doc.file_list().has_pending());
}

#[test]
fn bookmarks_are_opened_by_their_containers() {
    let file = || FileSource::File("C:\\a.png".to_string());
    let page = |p: &str, i: u32| FileSource::PdfPage { pdf_path: p.to_string(), page_index: i };
    assert!(matches!(plan_bookmark(&vec![file()], &vec![false]), BookmarkPlan::Files));
    let pages = vec![page("C:\\a.pdf", 0), file(), page("C:\\a.pdf", 1), page("C:\\b.pdf", 0)];
    let plan = plan_bookmark(&pages, &vec![true, false, true, false]);
    assert!(matches!(plan, BookmarkPlan::Containers(p) if p == vec!["C:\\a.pdf"]));
    let plan = plan_bookmark(&pages, &vec![false; 4]);
    assert!(matches!(plan, BookmarkPlan::Missing));
}

#[test]
fn bookmark_position_is_restored() {
    let mut doc = test_document();
    let results = vec![pages_counted("C:\\a.pdf", Ok(5), 1000)];
    doc.open_containers(results, &Vec::new(), &Vec::new(), 0).unwrap();
    settle(&mut doc);
    let page = |i: u32| FileSource::PdfPage { pdf_path: "C:\\a.pdf".to_string(), page_index: i };
    let data = BookmarkData { entries: vec![page(0), page(3)], index: 1 };
    doc.restore_bookmark_position(&data);
    assert_eq!(index(&doc), Some(3));
    // 見つからないときはリストの範囲に収めた番号
    let data = BookmarkData { entries: vec![page(0), page(9)], index: 1 };
    doc.restore_bookmark_position(&data);
    assert_eq!(index(&doc), Some(1));

    let files = BookmarkData {
        entries: vec![
            FileSource::File("C:\\x.png".to_string()),
            FileSource::File("C:\\gone.png".to_string()),
            FileSource::File("C:\\y.png".to_string()),
        ],
        index: 2,
    };
    doc.open_bookmark_files(&files, &vec![meta(), None, meta()]);
    assert_eq!(names(&doc), vec!["x.png", "y.png"]);
    assert_eq!(index(&doc), Some(1));
}

#[test]
fn containers_are_read_by_their_kind() {
    let mgr = archives();
    assert_eq!(read_plan("a.PDF", &mgr), ReadPlan::CountPages);
    assert_eq!(read_plan("a.cbz", &mgr), ReadPlan::ListInMemory);
    assert_eq!(read_plan("a.rar", &mgr), ReadPlan::Extract);
    assert_eq!(temp_folder_name(12, 3400), "gv_archive_12_3400");
    let missing = read_zip("a.zip", Err("x".to_string()));
    assert!(matches!(missing, ContainerResult::Error { error, .. }
        if error == "アーカイブ読み込み失敗: x"));
    assert!(matches!(no_folder("a.rar", "x"), ContainerResult::Error { error, .. }
        if error == "一時ディレクトリ作成失敗: x"));
    assert!(matches!(pages_counted("a.pdf", Err("x".to_string()), 0),
        ContainerResult::Error { error, .. } if error == "x"));
    let (nothing, remove) = extracted("a.rar", "C:\\t", Ok(Vec::new()));
    assert!(remove && matches!(nothing, ContainerResult::TempExtracted { .. }));
    let (failed, remove) = extracted("a.rar", "C:\\t", Err("x".to_string()));
    assert!(remove && matches!(failed, ContainerResult::Error { .. }));
}

#[test]
fn container_entries_tell_their_origin() {
    let pages = build_container_entries(&pages_counted("C:\\a.pdf", Ok(100), 9), 77);
    assert_eq!(pages.len(), 100);
    assert_eq!(pages[0].file_name, "Page 001");
    assert_eq!(pages[41].file_name, "Page 042");
    assert_eq!(pages[99].file_name, "Page 100");
    assert_eq!((pages[0].file_size, pages[0].modified), (9, 77));

    let bytes = zip_bytes(1);
    let members = build_container_entries(&read_zip("C:\\a.zip", Ok(&bytes)), 77);
    assert_eq!(members[0].path, "C:\\a.zip");
    assert!(matches!(&members[0].source, FileSource::ArchiveEntry { on_demand: true, .. }));
    assert_eq!(members[0].file_size, 3);

    let entry = |name: &str, metadata| ExtractedEntry {
        path: format!("C:\\t\\{name}"),
        entry_name: format!("dir/{name}"),
        metadata,
    };
    let (result, remove) =
        extracted("a.rar", "C:\\t", Ok(vec![entry("1.png", meta()), entry("2.png", None)]));
    assert!(!remove);
    let files = build_container_entries(&result, 77);
    assert_eq!(files.len(), 1);
    assert_eq!(files[0].file_name, "1.png");
    assert_eq!(files[0].modified, 0);
}

#[test]
fn extracted_folders_are_removed_with_the_document() {
    let mut doc = test_document();
    let entry = ExtractedEntry {
        path: "C:\\t\\1.png".to_string(),
        entry_name: "1.png".to_string(),
        metadata: meta(),
    };
    let (result, _) = extracted("C:\\a.rar", "C:\\t", Ok(vec![entry]));
    doc.open_containers(vec![result], &Vec::new(), &Vec::new(), 0).unwrap();
    settle(&mut doc);
    assert_eq!(doc.temp_dirs, vec!["C:\\t"]);
    doc.cleanup_archive_temp();
    let effects = settle(&mut doc);
    assert!(effects.iter().any(|e| matches!(e, Effect::RemoveFolder(d) if d == "C:\\t")));
    assert!(doc.temp_dirs.is_empty());
}

#[test]
fn undecodable_images_are_passed_over() {
    let mut doc = test_document();
    open_folder(&mut doc, 3);
    doc.navigate_relative(1);
    assert!(doc.take_effects().iter().any(|e| matches!(e, Effect::Load { index: 1 })));
    doc.image_decoded(Err("壊れている".to_string()));
    assert!(doc.current_image().is_none());
    let effects = doc.take_effects();
    let told = effects.iter().any(|e| {
        matches!(e, Effect::Event(DocumentEvent::Error(DocumentError::Undecodable { error, .. }))
            if error == "壊れている")
    });
    assert!(told);
    doc.navigate_first();
    settle(&mut doc);
    doc.navigate_relative(1);
    assert_eq!(index(&doc), Some(2));
    doc.reload();
    settle(&mut doc);
    assert_eq!(doc.current_path().unwrap(), "C:\\pics\\image_002.png");
}

#[test]
fn images_decoded_ahead_are_kept_or_shown() {
    let mut doc = test_document();
    open_folder(&mut doc, 3);
    let response = |index: usize, result, is_current_generation| PrefetchResponse {
        index,
        result,
        is_current_generation,
    };
    let grey = || DecodedImage { data: vec![9; 4], width: 1, height: 1 };
    let kept = doc.process_prefetch_responses(vec![
        response(1, Ok(white_pixel()), false),
        response(1, Ok(grey()), true),
        response(2, Err("x".to_string()), true),
        response(2, Ok(white_pixel()), true),
    ]);
    assert_eq!(kept.len(), 2);
    assert_eq!((kept[0].0, &kept[0].1.data), (1, &vec![9; 4]));
    assert_eq!((kept[1].0, &kept[1].1.data), (2, &vec![255; 4]));
    let effects = doc.take_effects();
    assert_eq!(effects.len(), 1);
    assert!(matches!(&effects[0], Effect::Event(DocumentEvent::Error(e)) if e.message() == "x"));
    doc.navigate_to(1);
    doc.take_effects();
    doc.image_cached(white_pixel());
    assert!(doc.current_image().is_some());
    assert!(doc.process_prefetch_responses(Vec::new()).is_empty());
}

#[test]
fn filters_apply_to_every_decoded_image() {
    let mut doc = test_document();
    doc.persistent_filter_mut().add_operation(FilterOperation::InvertColors);
    doc.persistent_filter_mut().toggle_enabled();
    open_folder(&mut doc, 2);
    assert_eq!(doc.current_image().unwrap().data, vec![0, 0, 0, 255]);
    doc.persistent_filter_mut().toggle_enabled();
    doc.on_persistent_filter_changed();
    let effects = settle(&mut doc);
    assert!(effects.iter().any(|e| matches!(e, Effect::DropCache)));
    assert_eq!(doc.current_image().unwrap().data, vec![255; 4]);
}

#[test]
fn edits_can_be_discarded() {
    let mut doc = test_document();
    open_folder(&mut doc, 1);
    let black = DecodedImage { data: vec![0, 0, 0, 255], width: 1, height: 1 };
    assert!(!doc.has_unsaved_edit());
    doc.apply_edit(black);
    assert!(doc.has_unsaved_edit());
    assert_eq!(doc.current_image().unwrap().data, vec![0, 0, 0, 255]);
    doc.discard_editing_session();
    assert!(!doc.has_unsaved_edit());
    doc.reload();
    settle(&mut doc);
    assert_eq!(doc.current_image().unwrap().data, vec![255; 4]);
}

#[test]
fn bytes_come_from_the_file_or_the_archive() {
    let mut doc = test_document();
    assert!(matches!(doc.read_file_data_current(), Err(LoadError::NothingSelected)));
    assert_eq!(LoadError::NothingSelected.message(), "ファイルが選択されていない");
    assert_eq!(LoadError::NotRendered.message(), "PDFページが未レンダリング");
    open_with_queue(&mut doc, &["C:\\t\\b.zip"]);
    let plan = doc.read_file_data_current().unwrap();
    assert!(matches!(plan, DataPlan::Entry { archive, entry }
        if archive == "C:\\t\\a.zip" && entry == "image_000.png"));
    let bytes = zip_bytes(1);
    let data = doc.entry_data("C:\\t\\a.zip", "image_000.png", true, &bytes).unwrap();
    assert_eq!(data, b"png");
    let data = doc.entry_data("C:\\t\\a.zip", "image_000.png", false, &bytes).unwrap();
    assert_eq!(data, b"png");
    assert!(matches!(
        data_plan(&doc.file_list().files()[1]),
        Err(LoadError::NotExpanded)
    ));
    let plain = FileInfo::from_path("C:\\x.png", &FileMetadata { size: 1, modified: 2 });
    assert!(matches!(data_plan(&plain), Ok(DataPlan::File(p)) if p == "C:\\x.png"));
}

#[test]
fn renamed_entry_keeps_its_place() {
    let mut doc = test_document();
    assert!(matches!(
        doc.rename_current_in_list("C:\\n.png", meta()),
        Err(RenameError::NothingSelected)
    ));
    open_folder(&mut doc, 2);
    doc.rename_current_in_list("C:\\pics\\z.png", meta()).unwrap();
    assert_eq!(names(&doc), vec!["z.png", "image_001.png"]);
    assert_eq!(index(&doc), Some(0));
    assert!(matches!(
        doc.rename_current_in_list("C:\\pics\\gone.png", None),
        Err(RenameError::List(ListError::NoMetadata(_)))
    ));
}

#[test]
fn removals_move_on_to_the_next_entry() {
    let mut doc = test_document();
    open_folder(&mut doc, 4);
    doc.navigate_to(1);
    doc.remove_current_from_list();
    assert_eq!(names(&doc), vec!["image_000.png", "image_002.png", "image_003.png"]);
    assert_eq!(index(&doc), Some(1));
    doc.mark_current();
    doc.remove_marked_from_list();
    assert_eq!(names(&doc), vec!["image_000.png", "image_003.png"]);
    settle(&mut doc);
}

#[test]
fn shuffles_keep_the_entries() {
    let mut doc = test_document();
    open_folder(&mut doc, 8);
    doc.navigate_to(5);
    doc.shuffle_all();
    let mut all = names(&doc).iter().map(|n| n.to_string()).collect::<Vec<String>>();
    all.sort();
    assert_eq!(all.len(), 8);
    assert_eq!(all[0], "image_000.png");
    assert_eq!(doc.current_path().unwrap(), "C:\\pics\\image_005.png");
}

#[test]
fn entries_ahead_are_decoded_nearest_first() {
    let range = CacheRange { forward: 4, backward: 2 };
    assert_eq!(prefetch_indices(5, 20, range), vec![6, 4, 7, 3, 8, 9]);
    assert_eq!(prefetch_indices(0, 3, range), vec![1, 2]);
    assert_eq!(prefetch_indices(2, 3, range), vec![1, 0]);
    let mut doc = test_document();
    let results = vec![pages_counted("C:\\a.pdf", Ok(4), 1)];
    doc.open_containers(results, &Vec::new(), &Vec::new(), 0).unwrap();
    let requests = prefetch_requests(0, doc.file_list().files(), range, &vec![1]);
    let wanted: Vec<usize> = requests.iter().map(|r| r.index).collect();
    assert_eq!(wanted, vec![2, 3]);
    assert_eq!(requests[0].pdf_page, Some(("C:\\a.pdf".to_string(), 2)));
    assert!(requests[0].archive_entry.is_none());
}

#[test]
fn paths_sort_by_the_numbers_in_their_names() {
    let sorted = sort_paths_natural(vec![
        "C:\\z\\10.png".to_string(),
        "C:\\a\\2.png".to_string(),
        "C:\\b\\IMG1.png".to_string(),
    ]);
    assert_eq!(sorted, vec!["C:\\a\\2.png", "C:\\z\\10.png", "C:\\b\\IMG1.png"]);
}

#[test]
fn inputs_below_others_are_left_out() {
    let inputs: Vec<String> = ["C:\\d\\x.png", "C:\\d", "C:\\e\\1.png", "C:/e/1.png", "C:\\dd"]
        .iter()
        .map(|p| p.to_string())
        .collect();
    assert_eq!(arrange_inputs(&inputs), vec!["C:\\e\\1.png", "C:\\d", "C:\\dd"]);
}

#[test]
fn folders_are_parted_into_files_and_folders() {
    let entry = |p: &str, is_file: bool, is_reparse_point: bool| ScannedEntry {
        path: p.to_string(),
        is_file,
        is_dir: !is_file,
        is_reparse_point,
    };
    let (files, folders) = arrange_folder(&vec![
        entry("C:\\10.png", true, false),
        entry("C:\\sub", false, false),
        entry("C:\\9.png", true, false),
        entry("C:\\link", false, true),
    ]);
    assert_eq!(files, vec!["C:\\9.png", "C:\\10.png"]);
    assert_eq!(folders, vec!["C:\\sub"]);
}

#[test]
fn states_are_found_by_place() {
    let mut states = ContainerStates::new();
    assert_eq!(states.progress(), None);
    states.set_all(&vec!["C:\\a.zip".to_string(), "C:\\b.zip".to_string()], ContainerState::Pending);
    states.set("C:/a.zip", ContainerState::Expanded);
    assert_eq!(states.get("C:\\a.zip"), Some(ContainerState::Expanded));
    assert_eq!(states.get("C:\\c.zip"), None);
    assert_eq!(states.progress(), Some((1, 2)));
    states.set("C:\\b.zip", ContainerState::Expanded);
    assert_eq!(states.progress(), None);
    states.clear();
    assert_eq!(states.get("C:\\a.zip"), None);
}

#[test]
fn cached_or_current_images_are_at_hand() {
    let mut doc = test_document();
    open_folder(&mut doc, 2);
    assert!(doc.is_cached(0, false));
    assert!(!doc.is_cached(1, false));
    assert!(doc.is_cached(1, true));
}

#[test]
fn the_first_container_is_read_at_once() {
    let paths: Vec<String> = ["a.zip", "b.zip", "c.zip"].map(String::from).to_vec();
    let (first, rest) = first_at_once(&paths);
    assert_eq!(first, ["a.zip"]);
    assert_eq!(rest, ["b.zip", "c.zip"]);
    let (first, rest) = first_at_once(&Vec::new());
    assert!(first.is_empty() && rest.is_empty());
}
