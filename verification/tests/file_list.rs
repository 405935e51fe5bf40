use std::cmp::Ordering;
use std::sync::Arc;

use gv::extension_registry::ExtensionRegistry;
use gv::file_info::{FileInfo, FileMetadata, FileSource};
use gv::file_list::groups::{compute_group_layout, group_key, GroupKey};
use gv::file_list::natural_sort::{shuffle_indices, SimpleRng};
use gv::file_list::navigation::{wrapped, NavigationDirection};
use gv::file_list::sort::SortOrder;
use gv::file_list::{FileList, FolderEntry, ListError};
use gv::paths::join;

fn test_registry() -> Arc<ExtensionRegistry> {
    Arc::new(ExtensionRegistry::new())
}

/// A folder of small files.
fn folder(dir: &str, names: &[&str]) -> Vec<FolderEntry> {
    names
        .iter()
        .map(|name| FolderEntry {
            path: join(dir, name),
            is_file: true,
            metadata: Some(FileMetadata { size: 5, modified: 0 }),
        })
        .collect()
}

/// An entry of an archive.
fn make_archive_file_info(archive: &str, entry: &str, file_name: &str) -> FileInfo {
    FileInfo {
        path: format!("/tmp/{file_name}"),
        file_name: file_name.to_string(),
        file_size: 100,
        modified: 0,
        marked: false,
        load_failed: false,
        source: FileSource::ArchiveEntry {
            archive: archive.to_string(),
            entry: entry.to_string(),
            on_demand: false,
        },
    }
}

/// A container that is not expanded yet.
fn make_pending_container_info(container_path: &str) -> FileInfo {
    FileInfo {
        path: container_path.to_string(),
        file_name: container_path.to_string(),
        file_size: 0,
        modified: 0,
        marked: false,
        load_failed: false,
        source: FileSource::PendingContainer { container_path: container_path.to_string() },
    }
}

/// An entry of any source, under a path that stands for it.
fn make_file_info_with_source(source: FileSource, size: u64, modified: i128) -> FileInfo {
    let path = match &source {
        FileSource::File(p) => p.clone(),
        FileSource::ArchiveEntry { archive, entry, .. } => format!("{archive}/{entry}"),
        FileSource::PdfPage { pdf_path, page_index } => {
            let (dir, _) = pdf_path.rsplit_once('/').unwrap();
            format!("{dir}/page{page_index}.png")
        }
        FileSource::PendingContainer { container_path } => container_path.clone(),
    };
    let file_name = path.rsplit('/').next().unwrap().to_string();
    FileInfo { path, file_name, file_size: size, modified, marked: false, load_failed: false, source }
}

#[test]
fn file_list_populate_filters_by_extension() {
    let dir = "C:\\gv_test_fl_populate";

    let mut fl = FileList::new(test_registry());
    fl.populate_from_folder(&folder(dir, &["a.jpg", "b.png", "c.txt", "d.bmp", "readme.md"]));

    assert_eq!(fl.len(), 3); // jpg, png, bmp
}

#[test]
fn file_list_natural_sort_order() {
    let dir = "C:\\gv_test_fl_natural";

    let mut fl = FileList::new(test_registry());
    fl.populate_from_folder(&folder(dir, &["img2.png", "img10.png", "img1.png"]));
    fl.sort(SortOrder::Natural);

    let names: Vec<&str> = fl.files().iter().map(|f| f.file_name.as_str()).collect();
    assert_eq!(names, vec!["img1.png", "img2.png", "img10.png"]);
}

#[test]
fn file_list_natural_sort_case_insensitive() {
    let dir = "C:\\gv_test_fl_natural_ci";

    let mut fl = FileList::new(test_registry());
    fl.populate_from_folder(&folder(dir, &["IMG1.png", "img2.png", "Img10.png"]));
    fl.sort(SortOrder::Natural);

    let names: Vec<&str> = fl.files().iter().map(|f| f.file_name.as_str()).collect();
    assert_eq!(names, vec!["IMG1.png", "img2.png", "Img10.png"]);
}

#[test]
fn file_list_navigate_relative_wraps_around() {
    let dir = "C:\\gv_test_fl_nav";

    let mut fl = FileList::new(test_registry());
    fl.populate_from_folder(&folder(dir, &["a.png", "b.png", "c.png"]));
    fl.navigate_to(0);

    // 先頭で後退 → 末尾へラップ
    assert!(fl.navigate_relative(-1));
    assert_eq!(fl.current_index(), Some(2));

    // 末尾で前進 → 先頭へラップ
    assert!(fl.navigate_relative(1));
    assert_eq!(fl.current_index(), Some(0));

    // 通常の相対移動
    fl.navigate_to(1);
    assert!(fl.navigate_relative(1));
    assert_eq!(fl.current_index(), Some(2));
}

#[test]
fn file_list_navigate_first_last() {
    let dir = "C:\\gv_test_fl_firstlast";

    let mut fl = FileList::new(test_registry());
    fl.populate_from_folder(&folder(dir, &["a.png", "b.png", "c.png"]));
    fl.navigate_to(1);

    fl.navigate_last();
    assert_eq!(fl.current_index(), Some(2));

    fl.navigate_first();
    assert_eq!(fl.current_index(), Some(0));
}

#[test]
fn file_list_set_current_by_path_found() {
    let dir = "C:\\gv_test_fl_setpath";

    let mut fl = FileList::new(test_registry());
    fl.populate_from_folder(&folder(dir, &["a.png", "b.png"]));

    assert!(fl.set_current_by_path(&join(dir, "b.png")));
    assert_eq!(fl.current().unwrap().file_name, "b.png");
}

#[test]
fn file_list_sort_preserves_current_position() {
    let dir = "C:\\gv_test_fl_sortpreserve";

    let mut fl = FileList::new(test_registry());
    fl.populate_from_folder(&folder(dir, &["c.png", "a.png", "b.png"]));
    fl.set_current_by_path(&join(dir, "b.png"));

    fl.sort(SortOrder::Name);
    // ソート後もb.pngが選択されている
    assert_eq!(fl.current().unwrap().file_name, "b.png");
}

#[test]
fn file_list_empty_list_navigation() {
    let mut fl = FileList::new(test_registry());
    assert!(!fl.navigate_relative(1));
    assert!(!fl.navigate_first());
    assert!(!fl.navigate_last());
    assert!(fl.current().is_none());
}

#[test]
fn file_list_mark_and_unmark() {
    let dir = "C:\\gv_test_fl_mark";

    let mut fl = FileList::new(test_registry());
    fl.populate_from_folder(&folder(dir, &["a.png", "b.png", "c.png"]));
    fl.navigate_to(0);

    // マーク設定
    fl.mark_at(1);
    assert!(fl.files()[1].marked);
    assert_eq!(fl.marked_count(), 1);

    // マーク解除
    fl.unmark_at(1);
    assert!(!fl.files()[1].marked);
    assert_eq!(fl.marked_count(), 0);
}

#[test]
fn file_list_invert_all_marks() {
    let dir = "C:\\gv_test_fl_invert";

    let mut fl = FileList::new(test_registry());
    fl.populate_from_folder(&folder(dir, &["a.png", "b.png", "c.png"]));
    fl.mark_at(0);

    fl.invert_all_marks();
    assert!(!fl.files()[0].marked);
    assert!(fl.files()[1].marked);
    assert!(fl.files()[2].marked);
    assert_eq!(fl.marked_count(), 2);
}

#[test]
fn file_list_invert_marks_to_here() {
    let dir = "C:\\gv_test_fl_invert_here";

    let mut fl = FileList::new(test_registry());
    fl.populate_from_folder(&folder(dir, &["a.png", "b.png", "c.png"]));
    fl.navigate_to(1);

    fl.invert_marks_to_here();
    // index 0, 1 が反転 (false→true)、index 2 は変化なし
    assert!(fl.files()[0].marked);
    assert!(fl.files()[1].marked);
    assert!(!fl.files()[2].marked);
}

#[test]
fn file_list_remove_at_adjusts_current_index() {
    let dir = "C:\\gv_test_fl_removeat";

    let mut fl = FileList::new(test_registry());
    fl.populate_from_folder(&folder(dir, &["a.png", "b.png", "c.png"]));
    fl.navigate_to(2); // 最後

    // 現在位置より前を削除 → indexデクリメント
    fl.remove_at(0);
    assert_eq!(fl.current_index(), Some(1));
    assert_eq!(fl.len(), 2);

    // 現在位置を削除 → クランプ
    fl.remove_at(1);
    assert_eq!(fl.current_index(), Some(0));
    assert_eq!(fl.len(), 1);
}

#[test]
fn file_list_remove_marked() {
    let dir = "C:\\gv_test_fl_removemarked";

    let mut fl = FileList::new(test_registry());
    fl.populate_from_folder(&folder(dir, &["a.png", "b.png", "c.png"]));
    fl.navigate_to(1);
    fl.mark_at(0);
    fl.mark_at(2);

    let removed = fl.remove_marked();
    assert_eq!(removed.len(), 2);
    assert_eq!(fl.len(), 1);
    // b.pngが残っている
    assert_eq!(fl.current().unwrap().file_name, "b.png");
}

#[test]
fn file_list_navigate_marks() {
    let dir = "C:\\gv_test_fl_navmark";

    let mut fl = FileList::new(test_registry());
    fl.populate_from_folder(&folder(dir, &["a.png", "b.png", "c.png", "d.png"]));
    fl.navigate_to(0);
    fl.mark_at(1);
    fl.mark_at(3);

    // 次のマーク
    assert!(fl.navigate_next_mark());
    assert_eq!(fl.current_index(), Some(1));

    assert!(fl.navigate_next_mark());
    assert_eq!(fl.current_index(), Some(3));

    // ラップアラウンド
    assert!(fl.navigate_next_mark());
    assert_eq!(fl.current_index(), Some(1));

    // 前のマーク
    assert!(fl.navigate_prev_mark());
    assert_eq!(fl.current_index(), Some(3));
}

#[test]
fn file_list_sorted_navigate_forward_backward() {
    let dir = "C:\\gv_test_fl_sortnav";
    // 自然順: a.png, b.png, c.png
    // サイズ順は同じ (全てdummy 5バイト) なので名前順で確認

    let mut fl = FileList::new(test_registry());
    fl.populate_from_folder(&folder(dir, &["c.png", "a.png", "b.png"]));
    // Natural sort: a.png(0), b.png(1), c.png(2)
    fl.navigate_to(0); // a.png

    // 自然順で次→ b.png
    assert!(fl.sorted_navigate(1, SortOrder::Natural));
    assert_eq!(fl.current().unwrap().file_name, "b.png");

    // 自然順で次→ c.png
    assert!(fl.sorted_navigate(1, SortOrder::Natural));
    assert_eq!(fl.current().unwrap().file_name, "c.png");

    // 自然順で次→ ラップアラウンドで a.png
    assert!(fl.sorted_navigate(1, SortOrder::Natural));
    assert_eq!(fl.current().unwrap().file_name, "a.png");

    // 自然順で前→ c.png
    assert!(fl.sorted_navigate(-1, SortOrder::Natural));
    assert_eq!(fl.current().unwrap().file_name, "c.png");
}

#[test]
fn file_list_navigate_marks_none_marked() {
    let dir = "C:\\gv_test_fl_navmark_none";

    let mut fl = FileList::new(test_registry());
    fl.populate_from_folder(&folder(dir, &["a.png", "b.png"]));
    fl.navigate_to(0);

    // マークなし → 移動しない
    assert!(!fl.navigate_next_mark());
    assert!(!fl.navigate_prev_mark());
}

#[test]
fn file_list_populate_single_creates_one_entry() {
    let dir = "C:\\gv_test_fl_single";

    let mut fl = FileList::new(test_registry());
    fl.populate_single(&join(dir, "target.png"), Some(FileMetadata { size: 5, modified: 0 })).unwrap();

    // フォルダ内の他のファイルはリストに含まれない
    assert_eq!(fl.len(), 1);
    assert_eq!(fl.current_index(), Some(0));
    assert_eq!(fl.current().unwrap().file_name, "target.png");
}

#[test]
fn file_list_sort_orders_by_logical_path_across_groups() {
    // 出現順とは無関係に、論理パス (アーカイブパス＋内部パス) で完全に並ぶ
    let registry = test_registry();
    let mut fl = FileList::new(registry);

    // 出現順は B, A だが、論理パス順では archive_a が先
    fl.push(make_archive_file_info("archive_b.zip", "x.png", "x.png"));
    fl.push(make_archive_file_info("archive_a.zip", "y.png", "y.png"));
    fl.push(make_archive_file_info("archive_a.zip", "z.png", "z.png"));

    fl.sort(SortOrder::Natural);

    let paths: Vec<String> = fl.files().iter().map(|f| f.source.display_path()).collect();
    assert_eq!(
        paths,
        vec![
            "archive_a.zip/y.png".to_string(),
            "archive_a.zip/z.png".to_string(),
            "archive_b.zip/x.png".to_string(),
        ]
    );
}

#[test]
fn file_list_shuffle_all_preserves_elements_and_position() {
    let dir = "C:\\gv_test_fl_shuffle_all";

    let mut fl = FileList::new(test_registry());
    fl.populate_from_folder(&folder(dir, &["a.png", "b.png", "c.png", "d.png", "e.png"]));
    fl.set_current_by_path(&join(dir, "c.png"));

    fl.shuffle_all();

    // 全要素が保持されている
    let mut names: Vec<String> = fl.files().iter().map(|f| f.file_name.clone()).collect();
    names.sort();
    assert_eq!(names, vec!["a.png", "b.png", "c.png", "d.png", "e.png"]);

    // 現在位置がc.pngを指している
    assert_eq!(fl.current().unwrap().file_name, "c.png");
}

#[test]
fn file_list_shuffle_groups_preserves_intra_group_order() {
    let registry = test_registry();
    let mut fl = FileList::new(registry);

    // グループA: a1, a2, a3(この順)
    fl.push(make_archive_file_info("archive_a.zip", "a1.png", "a1.png"));
    fl.push(make_archive_file_info("archive_a.zip", "a2.png", "a2.png"));
    fl.push(make_archive_file_info("archive_a.zip", "a3.png", "a3.png"));
    // グループB: b1, b2
    fl.push(make_archive_file_info("archive_b.zip", "b1.png", "b1.png"));
    fl.push(make_archive_file_info("archive_b.zip", "b2.png", "b2.png"));

    fl.navigate_to(0);
    fl.shuffle_groups();

    // 全要素が保持されている
    assert_eq!(fl.len(), 5);

    // グループ内の順序が保持されている
    // グループAの相対順序を確認
    let positions: Vec<usize> = fl.files()
        .iter()
        .enumerate()
        .filter(|(_, f)| f.file_name.starts_with('a'))
        .map(|(i, _)| i)
        .collect();
    assert_eq!(positions.len(), 3);
    // 連続している (隣接) かつ順序が保持
    assert_eq!(positions[1] - positions[0], 1);
    assert_eq!(positions[2] - positions[1], 1);
    let a_names: Vec<&str> = positions
        .iter()
        .map(|&i| fl.files()[i].file_name.as_str())
        .collect();
    assert_eq!(a_names, vec!["a1.png", "a2.png", "a3.png"]);

    // グループBの相対順序も保持
    let b_positions: Vec<usize> = fl.files()
        .iter()
        .enumerate()
        .filter(|(_, f)| f.file_name.starts_with('b'))
        .map(|(i, _)| i)
        .collect();
    assert_eq!(b_positions.len(), 2);
    assert_eq!(b_positions[1] - b_positions[0], 1);
    let b_names: Vec<&str> = b_positions
        .iter()
        .map(|&i| fl.files()[i].file_name.as_str())
        .collect();
    assert_eq!(b_names, vec!["b1.png", "b2.png"]);
}

#[test]
fn file_list_sorted_navigate_empty_list() {
    let mut fl = FileList::new(test_registry());
    // current_index = None, files = empty
    assert!(!fl.sorted_navigate(1, SortOrder::Natural));
    assert!(!fl.sorted_navigate(-1, SortOrder::Name));
}

#[test]
fn file_list_sorted_navigate_single_element() {
    let dir = "C:\\gv_test_fl_sortnav_single";

    let mut fl = FileList::new(test_registry());
    fl.populate_from_folder(&folder(dir, &["only.png"]));
    fl.navigate_to(0);

    // 1要素のリストでは移動先 = 自分なのでfalse
    assert!(!fl.sorted_navigate(1, SortOrder::Natural));
    assert!(!fl.sorted_navigate(-1, SortOrder::Natural));
}

#[test]
fn file_list_navigate_folder_three_groups() {
    // 3つのグループ: A(2件), B(1件), C(2件)
    let registry = test_registry();
    let mut fl = FileList::new(registry);

    fl.push(make_archive_file_info("archive_a.zip", "a1.png", "a1.png"));
    fl.push(make_archive_file_info("archive_a.zip", "a2.png", "a2.png"));
    fl.push(make_archive_file_info("archive_b.zip", "b1.png", "b1.png"));
    fl.push(make_archive_file_info("archive_c.zip", "c1.png", "c1.png"));
    fl.push(make_archive_file_info("archive_c.zip", "c2.png", "c2.png"));

    // グループAの2番目から次のフォルダへ
    fl.navigate_to(1); // a2.png
    assert!(fl.navigate_next_folder());
    assert_eq!(fl.current_index(), Some(2)); // b1.png(グループBの先頭)

    // グループBから次のフォルダへ
    assert!(fl.navigate_next_folder());
    assert_eq!(fl.current_index(), Some(3)); // c1.png(グループCの先頭)

    // グループCの末尾から次のフォルダへ → 先頭グループAへラップアラウンド
    assert!(fl.navigate_next_folder());
    assert_eq!(fl.current_index(), Some(0)); // a1.png(グループAの先頭)

    // グループAから前のフォルダへ → 末尾グループCへラップアラウンド
    assert!(fl.navigate_prev_folder());
    assert_eq!(fl.current_index(), Some(3)); // c1.png(グループCの先頭)

    // グループCから前のフォルダへ
    assert!(fl.navigate_prev_folder());
    assert_eq!(fl.current_index(), Some(2)); // b1.png(グループBの先頭)

    // グループBから前のフォルダへ
    assert!(fl.navigate_prev_folder());
    assert_eq!(fl.current_index(), Some(0)); // a1.png(グループAの先頭)
}

#[test]
fn file_list_navigate_folder_single_group() {
    // グループが1つだけの場合
    let registry = test_registry();
    let mut fl = FileList::new(registry);

    fl.push(make_archive_file_info("only.zip", "x1.png", "x1.png"));
    fl.push(make_archive_file_info("only.zip", "x2.png", "x2.png"));
    fl.navigate_to(0);

    // 前後どちらにもグループがない
    assert!(!fl.navigate_next_folder());
    assert!(!fl.navigate_prev_folder());
}

#[test]
fn file_list_navigate_folder_empty_list() {
    let mut fl = FileList::new(test_registry());
    assert!(!fl.navigate_next_folder());
    assert!(!fl.navigate_prev_folder());
}

#[test]
fn file_list_navigate_prev_folder_from_middle_of_group() {
    // グループ内の途中から前のフォルダに移動すると、前グループの先頭に行く
    let registry = test_registry();
    let mut fl = FileList::new(registry);

    fl.push(make_archive_file_info("archive_a.zip", "a1.png", "a1.png"));
    fl.push(make_archive_file_info("archive_a.zip", "a2.png", "a2.png"));
    fl.push(make_archive_file_info("archive_a.zip", "a3.png", "a3.png"));
    fl.push(make_archive_file_info("archive_b.zip", "b1.png", "b1.png"));
    fl.push(make_archive_file_info("archive_b.zip", "b2.png", "b2.png"));
    fl.push(make_archive_file_info("archive_b.zip", "b3.png", "b3.png"));

    // グループBの途中 (b2.png) から前のフォルダへ
    fl.navigate_to(4); // b2.png
    assert!(fl.navigate_prev_folder());
    assert_eq!(fl.current_index(), Some(0)); // a1.png(グループAの先頭)
}

#[test]
fn file_list_navigate_relative_skips_failed() {
    let registry = test_registry();
    let mut fl = FileList::new(registry);

    fl.push(make_archive_file_info("a.zip", "a.png", "a.png"));
    fl.push(make_archive_file_info("a.zip", "b.png", "b.png"));
    fl.push(make_archive_file_info("a.zip", "c.png", "c.png"));
    fl.navigate_to(0);

    // b.pngをfailed状態にする
    fl.mark_failed(1);

    // 前進: a→b(failed)→c
    assert!(fl.navigate_relative(1));
    assert_eq!(fl.current_index(), Some(2)); // bをスキップしてcに到達
}

#[test]
fn file_list_navigate_relative_all_failed() {
    let registry = test_registry();
    let mut fl = FileList::new(registry);

    fl.push(make_archive_file_info("a.zip", "a.png", "a.png"));
    fl.push(make_archive_file_info("a.zip", "b.png", "b.png"));
    fl.navigate_to(0);

    // 全てfailedにする
    fl.mark_failed(0);
    fl.mark_failed(1);

    // 移動先がないのでfalse
    assert!(!fl.navigate_relative(1));
}

#[test]
fn file_list_expand_container_at_forward_places_current_at_first() {
    let registry = test_registry();
    let mut fl = FileList::new(registry);
    // [a.zip 展開済] [pending.zip] [c.zip 展開済]
    fl.push(make_archive_file_info("a.zip", "a1.png", "a1.png"));
    fl.push(make_pending_container_info("pending.zip"));
    fl.push(make_archive_file_info("c.zip", "c1.png", "c1.png"));
    fl.navigate_to(1); // PendingContainer 上

    let entries = vec![
        make_archive_file_info("pending.zip", "p1.png", "p1.png"),
        make_archive_file_info("pending.zip", "p2.png", "p2.png"),
        make_archive_file_info("pending.zip", "p3.png", "p3.png"),
    ];
    fl.expand_container_sorted(1, entries, NavigationDirection::Forward);

    assert_eq!(fl.len(), 5);
    // 全体は論理パス順で再ソートされる (a.zip, c.zip, pending.zip)
    // Forward なので展開エントリの先頭 p1.png が現在位置として復元される
    assert_eq!(fl.current().unwrap().file_name, "p1.png");
    assert_eq!(fl.current_index(), Some(2));
}

#[test]
fn file_list_expand_container_at_backward_places_current_at_last() {
    let registry = test_registry();
    let mut fl = FileList::new(registry);
    fl.push(make_archive_file_info("a.zip", "a1.png", "a1.png"));
    fl.push(make_pending_container_info("pending.zip"));
    fl.push(make_archive_file_info("c.zip", "c1.png", "c1.png"));
    fl.navigate_to(1); // PendingContainer 上

    let entries = vec![
        make_archive_file_info("pending.zip", "p1.png", "p1.png"),
        make_archive_file_info("pending.zip", "p2.png", "p2.png"),
        make_archive_file_info("pending.zip", "p3.png", "p3.png"),
    ];
    fl.expand_container_sorted(1, entries, NavigationDirection::Backward);

    assert_eq!(fl.len(), 5);
    // Backward なので展開エントリの末尾 p3.png が現在位置として復元される
    assert_eq!(fl.current().unwrap().file_name, "p3.png");
    assert_eq!(fl.current_index(), Some(4));
}

#[test]
fn file_list_expand_container_at_before_current_keeps_current_file() {
    let registry = test_registry();
    let mut fl = FileList::new(registry);
    fl.push(make_pending_container_info("pending.zip"));
    fl.push(make_archive_file_info("c.zip", "c1.png", "c1.png"));
    fl.push(make_archive_file_info("c.zip", "c2.png", "c2.png"));
    fl.navigate_to(2); // c2.png

    let entries = vec![
        make_archive_file_info("pending.zip", "p1.png", "p1.png"),
        make_archive_file_info("pending.zip", "p2.png", "p2.png"),
        make_archive_file_info("pending.zip", "p3.png", "p3.png"),
    ];
    // current_index は c2.png (展開位置の外)。direction は使われない
    fl.expand_container_sorted(0, entries, NavigationDirection::Forward);

    assert_eq!(fl.len(), 5);
    // 全体再ソート後 (c.zip < pending.zip) でも現在ファイル c2.png が再ソート後の位置に復元される
    assert_eq!(fl.current().unwrap().file_name, "c2.png");
    assert_eq!(fl.current_index(), Some(1));
}

#[test]
fn file_list_sort_logical_path_orders_mixed_sources() {
    // 通常ファイル (フォルダ違い・サブフォルダ違い)、アーカイブエントリ、PDF ページが混在しても
    // 論理パス順で並ぶことを確認する
    let registry = test_registry();
    let mut fl = FileList::new(registry);
    let now = 0;

    // 出現順はあえて論理パス順とは異なるようにする
    fl.push(make_file_info_with_source(
        FileSource::PdfPage {
            pdf_path: "/folder_b/doc.pdf".to_string(),
            page_index: 0,
        },
        100,
        now,
    ));
    fl.push(make_file_info_with_source(
        FileSource::File("/folder_a/sub/img2.png".to_string()),
        100,
        now,
    ));
    fl.push(make_file_info_with_source(
        FileSource::ArchiveEntry {
            archive: "/folder_b/archive.zip".to_string(),
            entry: "inner.png".to_string(),
            on_demand: false,
        },
        100,
        now,
    ));
    fl.push(make_file_info_with_source(
        FileSource::File("/folder_a/img1.png".to_string()),
        100,
        now,
    ));

    fl.sort(SortOrder::Natural);

    let paths: Vec<String> = fl.files().iter().map(|f| f.source.display_path()).collect();
    assert_eq!(
        paths,
        vec![
            "/folder_a/img1.png".to_string(),
            "/folder_a/sub/img2.png".to_string(),
            "/folder_b/archive.zip/inner.png".to_string(),
            "/folder_b/doc.pdf/Page 1".to_string(),
        ]
    );
}

#[test]
fn file_list_sort_size_uses_logical_path_as_tiebreaker() {
    // Size 順は値が主キー、同値時に論理パスをタイブレーカーとする
    let registry = test_registry();
    let mut fl = FileList::new(registry);
    let now = 0;

    fl.push(make_file_info_with_source(
        FileSource::File("/x/c.png".to_string()),
        100,
        now,
    ));
    fl.push(make_file_info_with_source(
        FileSource::File("/x/b.png".to_string()),
        100,
        now,
    ));
    fl.push(make_file_info_with_source(
        FileSource::File("/x/z.png".to_string()),
        50,
        now,
    ));

    fl.sort(SortOrder::Size);

    let paths: Vec<String> = fl.files().iter().map(|f| f.source.display_path()).collect();
    assert_eq!(
        paths,
        vec![
            "/x/z.png".to_string(), // size=50 が最先頭
            "/x/b.png".to_string(), // size=100 同値内はパス順 b < c
            "/x/c.png".to_string(),
        ]
    );
}

#[test]
fn file_list_sort_date_uses_logical_path_as_tiebreaker() {
    // Date 順も同値時に論理パスをタイブレーカーとする
    let registry = test_registry();
    let mut fl = FileList::new(registry);
    let t_old = 0;
    let t_new = t_old + 100_000_000_000;

    fl.push(make_file_info_with_source(
        FileSource::File("/x/c.png".to_string()),
        100,
        t_old,
    ));
    fl.push(make_file_info_with_source(
        FileSource::File("/x/b.png".to_string()),
        100,
        t_old,
    ));
    fl.push(make_file_info_with_source(
        FileSource::File("/x/a.png".to_string()),
        100,
        t_new,
    ));

    fl.sort(SortOrder::Date);

    let paths: Vec<String> = fl.files().iter().map(|f| f.source.display_path()).collect();
    assert_eq!(
        paths,
        vec![
            "/x/b.png".to_string(), // 古い同値内ではパス順 b < c
            "/x/c.png".to_string(),
            "/x/a.png".to_string(), // 新しいので末尾
        ]
    );
}

#[test]
fn shuffle_groups_handles_disjoint_groups() {
    // 論理パス順で同一グループのファイルがサブフォルダ要素を挟んで分断される配列に対しても、
    // shuffle_groups がグループ単位で集約しグループ内の出現順を維持することを確認する
    let registry = test_registry();
    let mut fl = FileList::new(registry);
    let now = 0;

    // 論理パス順では a/a.png → a/m/x.png → a/z.png となり、
    // group_a の 2 ファイルが group_a/m を挟んで分断される
    fl.push(make_file_info_with_source(
        FileSource::File("/a/a.png".to_string()),
        100,
        now,
    ));
    fl.push(make_file_info_with_source(
        FileSource::File("/a/m/x.png".to_string()),
        100,
        now,
    ));
    fl.push(make_file_info_with_source(
        FileSource::File("/a/z.png".to_string()),
        100,
        now,
    ));

    fl.shuffle_groups();

    assert_eq!(fl.len(), 3);

    // 全要素が保持されていることを確認
    let mut paths: Vec<String> = fl.files().iter().map(|f| f.source.display_path()).collect();
    paths.sort();
    assert_eq!(
        paths,
        vec![
            "/a/a.png".to_string(),
            "/a/m/x.png".to_string(),
            "/a/z.png".to_string(),
        ]
    );

    // group_a (a.png と z.png) がリスト上で連続し、相対順序が維持されている
    let a_pos = fl.files()
        .iter()
        .position(|f| f.path == "/a/a.png")
        .unwrap();
    let z_pos = fl.files()
        .iter()
        .position(|f| f.path == "/a/z.png")
        .unwrap();
    assert!(a_pos < z_pos);
    assert_eq!(z_pos - a_pos, 1, "group_a のファイルが連続していない");
}

#[test]
fn navigate_folder_handles_disjoint_groups() {
    // 同一グループが分断される配列でも navigate_prev_folder/navigate_next_folder が
    // グループ間ジャンプとして機能する
    let registry = test_registry();
    let mut fl = FileList::new(registry);
    let now = 0;

    // 論理パス順: /a/a.png(0,group_a), /a/m/x.png(1,group_a/m), /a/z.png(2,group_a), /b/c.png(3,group_b)
    fl.push(make_file_info_with_source(
        FileSource::File("/a/a.png".to_string()),
        100,
        now,
    ));
    fl.push(make_file_info_with_source(
        FileSource::File("/a/m/x.png".to_string()),
        100,
        now,
    ));
    fl.push(make_file_info_with_source(
        FileSource::File("/a/z.png".to_string()),
        100,
        now,
    ));
    fl.push(make_file_info_with_source(
        FileSource::File("/b/c.png".to_string()),
        100,
        now,
    ));

    // /a/a.png から → 次のグループ (group_a/m) の先頭 (index=1)
    fl.navigate_to(0);
    assert!(fl.navigate_next_folder());
    assert_eq!(fl.current_index(), Some(1));

    // /a/m/x.png から → 次のグループ (group_b) の先頭 (index=3)
    assert!(fl.navigate_next_folder());
    assert_eq!(fl.current_index(), Some(3));

    // /b/c.png から → 先頭グループ (group_a) へラップアラウンド (index=0)
    assert!(fl.navigate_next_folder());
    assert_eq!(fl.current_index(), Some(0));

    // 分断されたグループの後半 (/a/z.png) からも、所属グループの 1 つ後 (group_a/m) へ
    fl.navigate_to(2);
    assert!(fl.navigate_next_folder());
    assert_eq!(fl.current_index(), Some(1));

    // 逆方向: /a/m/x.png (group_a/m) から prev → 前のグループ group_a の先頭 (index=0)
    fl.navigate_to(1);
    assert!(fl.navigate_prev_folder());
    assert_eq!(fl.current_index(), Some(0));
}

#[test]
fn expand_container_at_resorts_in_size_order() {
    // Size 順でソート中にコンテナ展開が起きると、展開後も全体が Size 順 (同値時パス順) で並ぶ
    let registry = test_registry();
    let mut fl = FileList::new(registry);
    let now = 0;

    fl.push(make_file_info_with_source(
        FileSource::File("/a.png".to_string()),
        100,
        now,
    ));
    fl.push(make_file_info_with_source(
        FileSource::File("/b.png".to_string()),
        300,
        now,
    ));
    fl.push(make_file_info_with_source(
        FileSource::PendingContainer {
            container_path: "/pending.zip".to_string(),
        },
        0,
        now,
    ));
    fl.push(make_file_info_with_source(
        FileSource::File("/c.png".to_string()),
        200,
        now,
    ));

    fl.sort(SortOrder::Size);
    // 期待初期順: pending(0), a(100), c(200), b(300)
    let pending_index = fl.files()
        .iter()
        .position(|f| matches!(f.source, FileSource::PendingContainer { .. }))
        .unwrap();
    fl.navigate_to(pending_index);

    let entries = vec![
        make_file_info_with_source(
            FileSource::ArchiveEntry {
                archive: "/pending.zip".to_string(),
                entry: "entry1.png".to_string(),
                on_demand: false,
            },
            150,
            now,
        ),
        make_file_info_with_source(
            FileSource::ArchiveEntry {
                archive: "/pending.zip".to_string(),
                entry: "entry2.png".to_string(),
                on_demand: false,
            },
            250,
            now,
        ),
    ];

    fl.expand_container_sorted(pending_index, entries, NavigationDirection::Forward);

    // 展開後 Size 順: a(100), entry1(150), c(200), entry2(250), b(300)
    let sizes: Vec<u64> = fl.files().iter().map(|f| f.file_size).collect();
    assert_eq!(sizes, vec![100, 150, 200, 250, 300]);

    // Forward なので展開エントリ先頭 entry1.png が現在位置として復元される
    assert_eq!(
        fl.current().unwrap().source.display_path(),
        "/pending.zip/entry1.png"
    );
}

#[test]
fn update_marked_paths_moves_to_dest_dir() {
    let src_dir = "C:\\src";
    let dest_dir = "C:\\dest";
    let mut fl = FileList::new(test_registry());
    fl.populate_from_folder(&folder(src_dir, &["a.png", "b.png", "c.png"]));
    fl.navigate_to(1); // b.png を選択

    // a.png と c.png をマーク
    fl.mark_at(0);
    fl.mark_at(2);

    let found = || Some(FileMetadata { size: 5, modified: 0 });
    fl.update_marked_paths(dest_dir, &vec![found(), None, found()]).unwrap();

    // マーク済みファイルのパスが更新されている
    let marked: Vec<&FileInfo> = fl.files().iter().filter(|f| f.marked).collect();
    assert_eq!(marked.len(), 2);
    for f in &marked {
        assert!(f.path.starts_with(dest_dir));
    }

    // 非マークファイル (b.png) はsrc_dirのまま
    let unmarked: Vec<&FileInfo> = fl.files().iter().filter(|f| !f.marked).collect();
    assert_eq!(unmarked.len(), 1);
    assert_eq!(unmarked[0].file_name, "b.png");
    assert!(unmarked[0].path.starts_with(src_dir));

    // 現在位置がb.pngを指している
    assert_eq!(fl.current().unwrap().file_name, "b.png");
}

fn list_of(names: &[&str]) -> FileList {
    let mut fl = FileList::new(test_registry());
    fl.populate_from_folder(&folder("C:\\d", names));
    fl
}

fn names_of(fl: &FileList) -> Vec<&str> {
    fl.files().iter().map(|f| f.file_name.as_str()).collect()
}

#[test]
fn sorting_twice_is_sorting_once() {
    let mut fl = list_of(&["b.png", "A.png", "a10.png", "a9.png"]);
    fl.sort(SortOrder::Name);
    let once: Vec<String> = names_of(&fl).iter().map(|n| n.to_string()).collect();
    assert_eq!(once, vec!["A.png", "a10.png", "a9.png", "b.png"]);
    fl.sort(SortOrder::Name);
    assert_eq!(names_of(&fl), once);
    fl.sort(SortOrder::NameNoCase);
    assert_eq!(names_of(&fl), vec!["A.png", "a10.png", "a9.png", "b.png"]);
    fl.sort(SortOrder::Natural);
    assert_eq!(names_of(&fl), vec!["A.png", "a9.png", "a10.png", "b.png"]);
}

#[test]
fn orders_compare_by_their_keys() {
    let a = make_file_info_with_source(FileSource::File("/x/a2.png".to_string()), 5, 9);
    let b = make_file_info_with_source(FileSource::File("/x/A10.png".to_string()), 7, 8);
    assert_eq!(SortOrder::Name.compare(&a, &b), Ordering::Greater);
    assert_eq!(SortOrder::NameNoCase.compare(&a, &b), Ordering::Greater);
    assert_eq!(SortOrder::Natural.compare(&a, &b), Ordering::Less);
    assert_eq!(SortOrder::Size.compare(&a, &b), Ordering::Less);
    assert_eq!(SortOrder::Date.compare(&a, &b), Ordering::Greater);
    assert_eq!(SortOrder::Name.compare(&a, &a), Ordering::Equal);
}

#[test]
fn generator_steps_are_fixed_by_the_seed() {
    let mut rng = SimpleRng::from_seed(0);
    assert_eq!(rng.state, 1);
    assert_eq!(rng.step(), 0x4082_2041);
    for bound in 1..50 {
        assert!(rng.next_usize(bound) < bound);
    }
    assert_eq!(rng.next_usize(0), 0);
    assert_ne!(SimpleRng::new().state, 0);
}

#[test]
fn shuffles_with_one_seed_agree() {
    let mut first = SimpleRng::from_seed(42);
    let mut second = SimpleRng::from_seed(42);
    let order = shuffle_indices(20, &mut first);
    assert_eq!(order, shuffle_indices(20, &mut second));
    let mut sorted = order.clone();
    sorted.sort();
    assert_eq!(sorted, (0..20).collect::<Vec<usize>>());

    let mut fl = list_of(&["a.png", "b.png", "c.png", "d.png"]);
    fl.navigate_to(2);
    fl.shuffle_all_with(&mut first);
    assert_eq!(fl.current().unwrap().file_name, "c.png");
    fl.shuffle_groups_with(&mut first);
    assert_eq!(fl.current().unwrap().file_name, "c.png");
}

#[test]
fn positions_wrap_around() {
    assert_eq!(wrapped(0, -1, 3), 2);
    assert_eq!(wrapped(2, 1, 3), 0);
    assert_eq!(wrapped(1, isize::MAX, 3), 2);
    assert_eq!(wrapped(1, isize::MIN, 3), 2);
    let mut fl = list_of(&["a.png", "b.png", "c.png"]);
    fl.navigate_to(1);
    fl.navigate_relative(5);
    fl.navigate_relative(-5);
    assert_eq!(fl.current_index(), Some(1));
}

#[test]
fn groups_are_folders_and_containers() {
    let plain = make_file_info_with_source(FileSource::File("/a/x.png".to_string()), 1, 0);
    assert!(matches!(group_key(&plain), GroupKey::Folder(_)));
    let files = vec![
        make_archive_file_info("b.zip", "1", "1"),
        plain,
        make_archive_file_info("b.zip", "2", "2"),
    ];
    let (leaders, group_of) = compute_group_layout(&files);
    assert_eq!(leaders, vec![0, 1]);
    assert_eq!(group_of, vec![0, 1, 0]);
}

#[test]
fn marks_inverted_twice_are_unchanged() {
    let mut fl = list_of(&["a.png", "b.png", "c.png"]);
    fl.mark_at(1);
    fl.invert_all_marks();
    assert_eq!(fl.marked_indices(), vec![0, 2]);
    fl.invert_all_marks();
    assert_eq!(fl.marked_indices(), vec![1]);
    fl.mark_at(99);
    assert_eq!(fl.marked_count(), 1);
}

#[test]
fn failed_marks_can_be_cleared() {
    let mut fl = list_of(&["a.png", "b.png"]);
    fl.navigate_to(0);
    fl.mark_failed(1);
    assert!(!fl.navigate_relative(1));
    fl.clear_failed();
    assert!(fl.navigate_relative(1));
}

#[test]
fn entries_are_updated_in_place() {
    let mut fl = list_of(&["a.png", "b.png"]);
    fl.navigate_to(1);
    let meta = || Some(FileMetadata { size: 9, modified: 3 });
    fl.update_file_at(0, "D:\\n.png", meta()).unwrap();
    assert_eq!(fl.files()[0].path, "D:\\n.png");
    assert_eq!(fl.files()[0].file_size, 9);
    assert_eq!(fl.current_index(), Some(1));
    let e = fl.update_file_at(5, "D:\\n.png", meta()).unwrap_err();
    assert_eq!(e.message(), "インデックス範囲外: 5");
    let e = fl.update_file_at(0, "D:\\gone.png", None).unwrap_err();
    assert!(matches!(&e, ListError::NoMetadata(p) if p == "D:\\gone.png"));
    assert_eq!(e.message(), "メタデータ取得失敗: D:\\gone.png");
    fl.mark_at(1);
    assert!(fl.update_marked_paths("E:\\", &vec![None, None]).is_err());
}

#[test]
fn placeholders_are_found() {
    let mut fl = FileList::new(test_registry());
    assert!(!fl.has_pending());
    fl.push(make_archive_file_info("a.zip", "1", "1"));
    fl.push(make_pending_container_info("b.zip"));
    assert!(fl.has_pending());
    assert!(fl.is_pending_at(1));
    assert!(!fl.is_pending_at(0));
    assert!(!fl.is_pending_at(9));
    assert_eq!(fl.pending_container_path_at(1).unwrap(), "b.zip");
    assert_eq!(fl.pending_container_path_at(0), None);
    fl.clear();
    assert_eq!(fl.len(), 0);
}

#[test]
fn names_without_known_extension_are_left_out() {
    let mut registry = ExtensionRegistry::new();
    assert!(!registry.is_image_extension("a.tga"));
    registry.register_image("tga");
    assert!(registry.is_image_extension("A.tga"));
    assert!(!registry.is_archive_extension("a.lzh"));
    registry.register_archive("lzh");
    assert!(registry.is_archive_extension("a.LZH"));
    let mut fl = FileList::new(Arc::new(registry));
    let mut entries = folder("C:\\d", &["a.tga", "b.txt", "c.png"]);
    entries[2].is_file = false;
    fl.populate_from_folder(&entries);
    assert_eq!(names_of(&fl), vec!["a.tga"]);
}

#[test]
fn ordered_moves_are_undone() {
    let mut fl = list_of(&["a10.png", "b.png", "a9.png", "A1.png", "a01.png"]);
    for order in [SortOrder::Name, SortOrder::NameNoCase, SortOrder::Natural] {
        for start in 0..5 {
            for steps in [1, 2, 7] {
                fl.navigate_to(start);
                fl.sorted_navigate(steps, order);
                fl.sorted_navigate(-steps, order);
                assert_eq!(fl.current_index(), Some(start));
            }
        }
    }
}

#[test]
fn group_shuffle_keeps_every_entry() {
    let mut fl = FileList::new(test_registry());
    for path in ["/a/a.png", "/a/m/x.png", "/a/z.png", "/b/1.png", "/a/a.png"] {
        fl.push(make_file_info_with_source(FileSource::File(path.to_string()), 1, 0));
    }
    let mut before: Vec<String> = fl.files().iter().map(|f| f.path.clone()).collect();
    before.sort();
    fl.shuffle_groups_with(&mut SimpleRng::from_seed(7));
    let mut after: Vec<String> = fl.files().iter().map(|f| f.path.clone()).collect();
    after.sort();
    assert_eq!(before, after);
}

#[test]
fn moves_between_marks_are_undone() {
    let mut fl = list_of(&["a.png", "b.png", "c.png", "d.png", "e.png"]);
    for i in [0, 2, 3] {
        fl.mark_at(i);
    }
    for i in [0, 2, 3] {
        fl.navigate_to(i);
        assert!(fl.navigate_next_mark());
        assert_ne!(fl.current_index(), Some(i));
        assert!(fl.navigate_prev_mark());
        assert_eq!(fl.current_index(), Some(i));
        assert!(fl.navigate_prev_mark());
        assert!(fl.navigate_next_mark());
        assert_eq!(fl.current_index(), Some(i));
    }
}
