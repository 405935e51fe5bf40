use std::sync::Arc;

use gv::extension_registry::ExtensionRegistry;
use gv::file_info::{FileInfo, FileMetadata, FileSource};
use gv::file_list::navigation::NavigationDirection;
use gv::file_list::sort::SortOrder;
use gv::file_list::{FileList, FolderEntry};
use gv::paths::join;

fn test_registry() -> Arc<ExtensionRegistry> {
    Arc::new(ExtensionRegistry::new())
}

/// A folder of small files.
fn folder(dir: &str, names: &[&str]) -> Vec<FolderEntry> {
    names
        .iter()
        .map(|name| FolderEntry {
            path: join(dir, name),
            is_file: true,
            metadata: Some(FileMetadata { size: 5, modified: 0 }),
        })
        .collect()
}

/// An entry of an archive.
fn make_archive_file_info(archive: &str, entry: &str, file_name: &str) -> FileInfo {
    FileInfo {
        path: format!("/tmp/{file_name}"),
        file_name: file_name.to_string(),
        file_size: 100,
        modified: 0,
        marked: false,
        load_failed: false,
        source: FileSource::ArchiveEntry {
            archive: archive.to_string(),
            entry: entry.to_string(),
            on_demand: false,
        },
    }
}

/// A container that is not expanded yet.
fn make_pending_container_info(container_path: &str) -> FileInfo {
    FileInfo {
        path: container_path.to_string(),
        file_name: container_path.to_string(),
        file_size: 0,
        modified: 0,
        marked: false,
        load_failed: false,
        source: FileSource::PendingContainer { container_path: container_path.to_string() },
    }
}

/// An entry of any source, under a path that stands for it.
fn make_file_info_with_source(source: FileSource, size: u64, modified: i128) -> FileInfo {
    let path = match &source {
        FileSource::File(p) => p.clone(),
        FileSource::ArchiveEntry { archive, entry, .. } => format!("{archive}/{entry}"),
        FileSource::PdfPage { pdf_path, page_index } => {
            let (dir, _) = pdf_path.rsplit_once('/').unwrap();
            format!("{dir}/page{page_index}.png")
        }
        FileSource::PendingContainer { container_path } => container_path.clone(),
    };
    let file_name = path.rsplit('/').next().unwrap().to_string();
    FileInfo { path, file_name, file_size: size, modified, marked: false, load_failed: false, source }
}

#[test]
fn mod_populate_filters_by_extension() {
    let dir = "C:\\gv_test_fl_populate";

    let mut fl = FileList::new(test_registry());
    fl.populate_from_folder(&folder(dir, &["a.jpg", "b.png", "c.txt", "d.bmp", "readme.md"]));

    assert_eq!(fl.len(), 3); // jpg, png, bmp
}

#[test]
fn mod_natural_sort_order() {
    let dir = "C:\\gv_test_fl_natural";

    let mut fl = FileList::new(test_registry());
    fl.populate_from_folder(&folder(dir, &["img2.png", "img10.png", "img1.png"]));
    fl.sort(SortOrder::Natural);

    let names: Vec<&str> = fl.files().iter().map(|f| f.file_name.as_str()).collect();
    assert_eq!(names, vec!["img1.png", "img2.png", "img10.png"]);
}

#[test]
fn mod_natural_sort_case_insensitive() {
    let dir = "C:\\gv_test_fl_natural_ci";

    let mut fl = FileList::new(test_registry());
    fl.populate_from_folder(&folder(dir, &["IMG1.png", "img2.png", "Img10.png"]));
    fl.sort(SortOrder::Natural);

    let names: Vec<&str> = fl.files().iter().map(|f| f.file_name.as_str()).collect();
    assert_eq!(names, vec!["IMG1.png", "img2.png", "Img10.png"]);
}

#[test]
fn mod_navigate_relative_wraps_around() {
    let dir = "C:\\gv_test_fl_nav";

    let mut fl = FileList::new(test_registry());
    fl.populate_from_folder(&folder(dir, &["a.png", "b.png", "c.png"]));
    fl.navigate_to(0);

    // 先頭で後退 → 末尾へラップ
    assert!(fl.navigate_relative(-1));
    assert_eq!(fl.current_index(), Some(2));

    // 末尾で前進 → 先頭へラップ
    assert!(fl.navigate_relative(1));
    assert_eq!(fl.current_index(), Some(0));

    // 通常の相対移動
    fl.navigate_to(1);
    assert!(fl.navigate_relative(1));
    assert_eq!(fl.current_index(), Some(2));
}

#[test]
fn mod_set_current_by_path_found() {
    let dir = "C:\\gv_test_fl_setpath";

    let mut fl = FileList::new(test_registry());
    fl.populate_from_folder(&folder(dir, &["a.png", "b.png"]));

    assert!(fl.set_current_by_path(&join(dir, "b.png")));
    assert_eq!(fl.current().unwrap().file_name, "b.png");
}

#[test]
fn mod_sort_preserves_current_position() {
    let dir = "C:\\gv_test_fl_sortpreserve";

    let mut fl = FileList::new(test_registry());
    fl.populate_from_folder(&folder(dir, &["c.png", "a.png", "b.png"]));
    fl.set_current_by_path(&join(dir, "b.png"));

    fl.sort(SortOrder::Name);
    // ソート後もb.pngが選択されている
    assert_eq!(fl.current().unwrap().file_name, "b.png");
}

#[test]
fn mod_empty_list_navigation() {
    let mut fl = FileList::new(test_registry());
    assert!(!fl.navigate_relative(1));
    assert!(!fl.navigate_first());
    assert!(!fl.navigate_last());
    assert!(fl.current().is_none());
}

#[test]
fn mod_mark_and_unmark() {
    let dir = "C:\\gv_test_fl_mark";

    let mut fl = FileList::new(test_registry());
    fl.populate_from_folder(&folder(dir, &["a.png", "b.png", "c.png"]));
    fl.navigate_to(0);

    // マーク設定
    fl.mark_at(1);
    assert!(fl.files()[1].marked);
    assert_eq!(fl.marked_count(), 1);

    // マーク解除
    fl.unmark_at(1);
    assert!(!fl.files()[1].marked);
    assert_eq!(fl.marked_count(), 0);
}

#[test]
fn mod_invert_all_marks() {
    let dir = "C:\\gv_test_fl_invert";

    let mut fl = FileList::new(test_registry());
    fl.populate_from_folder(&folder(dir, &["a.png", "b.png", "c.png"]));
    fl.mark_at(0);

    fl.invert_all_marks();
    assert!(!fl.files()[0].marked);
    assert!(fl.files()[1].marked);
    assert!(fl.files()[2].marked);
    assert_eq!(fl.marked_count(), 2);
}

#[test]
fn mod_invert_marks_to_here() {
    let dir = "C:\\gv_test_fl_invert_here";

    let mut fl = FileList::new(test_registry());
    fl.populate_from_folder(&folder(dir, &["a.png", "b.png", "c.png"]));
    fl.navigate_to(1);

    fl.invert_marks_to_here();
    // index 0, 1 が反転 (false→true)、index 2 は変化なし
    assert!(fl.files()[0].marked);
    assert!(fl.files()[1].marked);
    assert!(!fl.files()[2].marked);
}

#[test]
fn mod_remove_at_adjusts_current_index() {
    let dir = "C:\\gv_test_fl_removeat";

    let mut fl = FileList::new(test_registry());
    fl.populate_from_folder(&folder(dir, &["a.png", "b.png", "c.png"]));
    fl.navigate_to(2); // 最後

    // 現在位置より前を削除 → indexデクリメント
    fl.remove_at(0);
    assert_eq!(fl.current_index(), Some(1));
    assert_eq!(fl.len(), 2);

    // 現在位置を削除 → クランプ
    fl.remove_at(1);
    assert_eq!(fl.current_index(), Some(0));
    assert_eq!(fl.len(), 1);
}

#[test]
fn mod_remove_marked() {
    let dir = "C:\\gv_test_fl_removemarked";

    let mut fl = FileList::new(test_registry());
    fl.populate_from_folder(&folder(dir, &["a.png", "b.png", "c.png"]));
    fl.navigate_to(1);
    fl.mark_at(0);
    fl.mark_at(2);

    let removed = fl.remove_marked();
    assert_eq!(removed.len(), 2);
    assert_eq!(fl.len(), 1);
    // b.pngが残っている
    assert_eq!(fl.current().unwrap().file_name, "b.png");
}

#[test]
fn mod_navigate_marks() {
    let dir = "C:\\gv_test_fl_navmark";

    let mut fl = FileList::new(test_registry());
    fl.populate_from_folder(&folder(dir, &["a.png", "b.png", "c.png", "d.png"]));
    fl.navigate_to(0);
    fl.mark_at(1);
    fl.mark_at(3);

    // 次のマーク
    assert!(fl.navigate_next_mark());
    assert_eq!(fl.current_index(), Some(1));

    assert!(fl.navigate_next_mark());
    assert_eq!(fl.current_index(), Some(3));

    // ラップアラウンド
    assert!(fl.navigate_next_mark());
    assert_eq!(fl.current_index(), Some(1));

    // 前のマーク
    assert!(fl.navigate_prev_mark());
    assert_eq!(fl.current_index(), Some(3));
}

#[test]
fn mod_sorted_navigate_forward_backward() {
    let dir = "C:\\gv_test_fl_sortnav";
    // 自然順: a.png, b.png, c.png
    // サイズ順は同じ (全てdummy 5バイト) なので名前順で確認

    let mut fl = FileList::new(test_registry());
    fl.populate_from_folder(&folder(dir, &["c.png", "a.png", "b.png"]));
    // Natural sort: a.png(0), b.png(1), c.png(2)
    fl.navigate_to(0); // a.png

    // 自然順で次→ b.png
    assert!(fl.sorted_navigate(1, SortOrder::Natural));
    assert_eq!(fl.current().unwrap().file_name, "b.png");

    // 自然順で次→ c.png
    assert!(fl.sorted_navigate(1, SortOrder::Natural));
    assert_eq!(fl.current().unwrap().file_name, "c.png");

    // 自然順で次→ ラップアラウンドで a.png
    assert!(fl.sorted_navigate(1, SortOrder::Natural));
    assert_eq!(fl.current().unwrap().file_name, "a.png");

    // 自然順で前→ c.png
    assert!(fl.sorted_navigate(-1, SortOrder::Natural));
    assert_eq!(fl.current().unwrap().file_name, "c.png");
}

#[test]
fn mod_navigate_marks_none_marked() {
    let dir = "C:\\gv_test_fl_navmark_none";

    let mut fl = FileList::new(test_registry());
    fl.populate_from_folder(&folder(dir, &["a.png", "b.png"]));
    fl.navigate_to(0);

    // マークなし → 移動しない
    assert!(!fl.navigate_next_mark());
    assert!(!fl.navigate_prev_mark());
}

#[test]
fn mod_populate_single_creates_one_entry() {
    let dir = "C:\\gv_test_fl_single";

    let mut fl = FileList::new(test_registry());
    fl.populate_single(&join(dir, "target.png"), Some(FileMetadata { size: 5, modified: 0 })).unwrap();

    // フォルダ内の他のファイルはリストに含まれない
    assert_eq!(fl.len(), 1);
    assert_eq!(fl.current_index(), Some(0));
    assert_eq!(fl.current().unwrap().file_name, "target.png");
}

#[test]
fn mod_sort_orders_by_logical_path_across_groups() {
    // 出現順とは無関係に、論理パス (アーカイブパス＋内部パス) で完全に並ぶ
    let registry = test_registry();
    let mut fl = FileList::new(registry);

    // 出現順は B, A だが、論理パス順では archive_a が先
    fl.push(make_archive_file_info("archive_b.zip", "x.png", "x.png"));
    fl.push(make_archive_file_info("archive_a.zip", "y.png", "y.png"));
    fl.push(make_archive_file_info("archive_a.zip", "z.png", "z.png"));

    fl.sort(SortOrder::Natural);

    let paths: Vec<String> = fl.files().iter().map(|f| f.source.display_path()).collect();
    assert_eq!(
        paths,
        vec![
            "archive_a.zip/y.png".to_string(),
            "archive_a.zip/z.png".to_string(),
            "archive_b.zip/x.png".to_string(),
        ]
    );
}

#[test]
fn mod_shuffle_all_preserves_elements_and_position() {
    let dir = "C:\\gv_test_fl_shuffle_all";

    let mut fl = FileList::new(test_registry());
    fl.populate_from_folder(&folder(dir, &["a.png", "b.png", "c.png", "d.png", "e.png"]));
    fl.set_current_by_path(&join(dir, "c.png"));

    fl.shuffle_all();

    // 全要素が保持されている
    let mut names: Vec<String> = fl.files().iter().map(|f| f.file_name.clone()).collect();
    names.sort();
    assert_eq!(names, vec!["a.png", "b.png", "c.png", "d.png", "e.png"]);

    // 現在位置がc.pngを指している
    assert_eq!(fl.current().unwrap().file_name, "c.png");
}

#[test]
fn mod_shuffle_groups_preserves_intra_group_order() {
    let registry = test_registry();
    let mut fl = FileList::new(registry);

    // グループA: a1, a2, a3(この順)
    fl.push(make_archive_file_info("archive_a.zip", "a1.png", "a1.png"));
    fl.push(make_archive_file_info("archive_a.zip", "a2.png", "a2.png"));
    fl.push(make_archive_file_info("archive_a.zip", "a3.png", "a3.png"));
    // グループB: b1, b2
    fl.push(make_archive_file_info("archive_b.zip", "b1.png", "b1.png"));
    fl.push(make_archive_file_info("archive_b.zip", "b2.png", "b2.png"));

    fl.navigate_to(0);
    fl.shuffle_groups();

    // 全要素が保持されている
    assert_eq!(fl.len(), 5);

    // グループ内の順序が保持されている
    // グループAの相対順序を確認
    let positions: Vec<usize> = fl.files()
        .iter()
        .enumerate()
        .filter(|(_, f)| f.file_name.starts_with('a'))
        .map(|(i, _)| i)
        .collect();
    assert_eq!(positions.len(), 3);
    // 連続している (隣接) かつ順序が保持
    assert_eq!(positions[1] - positions[0], 1);
    assert_eq!(positions[2] - positions[1], 1);
    let a_names: Vec<&str> = positions
        .iter()
        .map(|&i| fl.files()[i].file_name.as_str())
        .collect();
    assert_eq!(a_names, vec!["a1.png", "a2.png", "a3.png"]);

    // グループBの相対順序も保持
    let b_positions: Vec<usize> = fl.files()
        .iter()
        .enumerate()
        .filter(|(_, f)| f.file_name.starts_with('b'))
        .map(|(i, _)| i)
        .collect();
    assert_eq!(b_positions.len(), 2);
    assert_eq!(b_positions[1] - b_positions[0], 1);
    let b_names: Vec<&str> = b_positions
        .iter()
        .map(|&i| fl.files()[i].file_name.as_str())
        .collect();
    assert_eq!(b_names, vec!["b1.png", "b2.png"]);
}

#[test]
fn mod_sorted_navigate_empty_list() {
    let mut fl = FileList::new(test_registry());
    // current_index = None, files = empty
    assert!(!fl.sorted_navigate(1, SortOrder::Natural));
    assert!(!fl.sorted_navigate(-1, SortOrder::Name));
}

#[test]
fn mod_sorted_navigate_single_element() {
    let dir = "C:\\gv_test_fl_sortnav_single";

    let mut fl = FileList::new(test_registry());
    fl.populate_from_folder(&folder(dir, &["only.png"]));
    fl.navigate_to(0);

    // 1要素のリストでは移動先 = 自分なのでfalse
    assert!(!fl.sorted_navigate(1, SortOrder::Natural));
    assert!(!fl.sorted_navigate(-1, SortOrder::Natural));
}

#[test]
fn mod_navigate_folder_three_groups() {
    // 3つのグループ: A(2件), B(1件), C(2件)
    let registry = test_registry();
    let mut fl = FileList::new(registry);

    fl.push(make_archive_file_info("archive_a.zip", "a1.png", "a1.png"));
    fl.push(make_archive_file_info("archive_a.zip", "a2.png", "a2.png"));
    fl.push(make_archive_file_info("archive_b.zip", "b1.png", "b1.png"));
    fl.push(make_archive_file_info("archive_c.zip", "c1.png", "c1.png"));
    fl.push(make_archive_file_info("archive_c.zip", "c2.png", "c2.png"));

    // グループAの2番目から次のフォルダへ
    fl.navigate_to(1); // a2.png
    assert!(fl.navigate_next_folder());
    assert_eq!(fl.current_index(), Some(2)); // b1.png(グループBの先頭)

    // グループBから次のフォルダへ
    assert!(fl.navigate_next_folder());
    assert_eq!(fl.current_index(), Some(3)); // c1.png(グループCの先頭)

    // グループCの末尾から次のフォルダへ → 先頭グループAへラップアラウンド
    assert!(fl.navigate_next_folder());
    assert_eq!(fl.current_index(), Some(0)); // a1.png(グループAの先頭)

    // グループAから前のフォルダへ → 末尾グループCへラップアラウンド
    assert!(fl.navigate_prev_folder());
    assert_eq!(fl.current_index(), Some(3)); // c1.png(グループCの先頭)

    // グループCから前のフォルダへ
    assert!(fl.navigate_prev_folder());
    assert_eq!(fl.current_index(), Some(2)); // b1.png(グループBの先頭)

    // グループBから前のフォルダへ
    assert!(fl.navigate_prev_folder());
    assert_eq!(fl.current_index(), Some(0)); // a1.png(グループAの先頭)
}

#[test]
fn mod_navigate_folder_single_group() {
    // グループが1つだけの場合
    let registry = test_registry();
    let mut fl = FileList::new(registry);

    fl.push(make_archive_file_info("only.zip", "x1.png", "x1.png"));
    fl.push(make_archive_file_info("only.zip", "x2.png", "x2.png"));
    fl.navigate_to(0);

    // 前後どちらにもグループがない
    assert!(!fl.navigate_next_folder());
    assert!(!fl.navigate_prev_folder());
}

#[test]
fn mod_navigate_folder_empty_list() {
    let mut fl = FileList::new(test_registry());
    assert!(!fl.navigate_next_folder());
    assert!(!fl.navigate_prev_folder());
}

#[test]
fn mod_navigate_prev_folder_from_middle_of_group() {
    // グループ内の途中から前のフォルダに移動すると、前グループの先頭に行く
    let registry = test_registry();
    let mut fl = FileList::new(registry);

    fl.push(make_archive_file_info("archive_a.zip", "a1.png", "a1.png"));
    fl.push(make_archive_file_info("archive_a.zip", "a2.png", "a2.png"));
    fl.push(make_archive_file_info("archive_a.zip", "a3.png", "a3.png"));
    fl.push(make_archive_file_info("archive_b.zip", "b1.png", "b1.png"));
    fl.push(make_archive_file_info("archive_b.zip", "b2.png", "b2.png"));
    fl.push(make_archive_file_info("archive_b.zip", "b3.png", "b3.png"));

    // グループBの途中 (b2.png) から前のフォルダへ
    fl.navigate_to(4); // b2.png
    assert!(fl.navigate_prev_folder());
    assert_eq!(fl.current_index(), Some(0)); // a1.png(グループAの先頭)
}

#[test]
fn mod_navigate_relative_skips_failed() {
    let registry = test_registry();
    let mut fl = FileList::new(registry);

    fl.push(make_archive_file_info("a.zip", "a.png", "a.png"));
    fl.push(make_archive_file_info("a.zip", "b.png", "b.png"));
    fl.push(make_archive_file_info("a.zip", "c.png", "c.png"));
    fl.navigate_to(0);

    // b.pngをfailed状態にする
    fl.mark_failed(1);

    // 前進: a→b(failed)→c
    assert!(fl.navigate_relative(1));
    assert_eq!(fl.current_index(), Some(2)); // bをスキップしてcに到達
}

#[test]
fn mod_navigate_relative_all_failed() {
    let registry = test_registry();
    let mut fl = FileList::new(registry);

    fl.push(make_archive_file_info("a.zip", "a.png", "a.png"));
    fl.push(make_archive_file_info("a.zip", "b.png", "b.png"));
    fl.navigate_to(0);

    // 全てfailedにする
    fl.mark_failed(0);
    fl.mark_failed(1);

    // 移動先がないのでfalse
    assert!(!fl.navigate_relative(1));
}

#[test]
fn mod_expand_container_at_forward_places_current_at_first() {
    let registry = test_registry();
    let mut fl = FileList::new(registry);
    // [a.zip 展開済] [pending.zip] [c.zip 展開済]
    fl.push(make_archive_file_info("a.zip", "a1.png", "a1.png"));
    fl.push(make_pending_container_info("pending.zip"));
    fl.push(make_archive_file_info("c.zip", "c1.png", "c1.png"));
    fl.navigate_to(1); // PendingContainer 上

    let entries = vec![
        make_archive_file_info("pending.zip", "p1.png", "p1.png"),
        make_archive_file_info("pending.zip", "p2.png", "p2.png"),
        make_archive_file_info("pending.zip", "p3.png", "p3.png"),
    ];
    fl.expand_container_at(1, entries, NavigationDirection::Forward);

    assert_eq!(fl.len(), 5);
    // プレースホルダ位置に展開エントリが挿入され、全体順序は維持される
    let names: Vec<&str> = fl.files().iter().map(|f| f.file_name.as_str()).collect();
    assert_eq!(
        names,
        vec!["a1.png", "p1.png", "p2.png", "p3.png", "c1.png"]
    );
    // Forward なので展開エントリの先頭 p1.png が現在位置となる
    assert_eq!(fl.current().unwrap().file_name, "p1.png");
    assert_eq!(fl.current_index(), Some(1));
}

#[test]
fn mod_expand_container_at_backward_places_current_at_last() {
    let registry = test_registry();
    let mut fl = FileList::new(registry);
    fl.push(make_archive_file_info("a.zip", "a1.png", "a1.png"));
    fl.push(make_pending_container_info("pending.zip"));
    fl.push(make_archive_file_info("c.zip", "c1.png", "c1.png"));
    fl.navigate_to(1); // PendingContainer 上

    let entries = vec![
        make_archive_file_info("pending.zip", "p1.png", "p1.png"),
        make_archive_file_info("pending.zip", "p2.png", "p2.png"),
        make_archive_file_info("pending.zip", "p3.png", "p3.png"),
    ];
    fl.expand_container_at(1, entries, NavigationDirection::Backward);

    assert_eq!(fl.len(), 5);
    let names: Vec<&str> = fl.files().iter().map(|f| f.file_name.as_str()).collect();
    assert_eq!(
        names,
        vec!["a1.png", "p1.png", "p2.png", "p3.png", "c1.png"]
    );
    // Backward なので展開エントリの末尾 p3.png が現在位置となる
    assert_eq!(fl.current().unwrap().file_name, "p3.png");
    assert_eq!(fl.current_index(), Some(3));
}

#[test]
fn mod_expand_container_at_before_current_keeps_current_file() {
    let registry = test_registry();
    let mut fl = FileList::new(registry);
    fl.push(make_pending_container_info("pending.zip"));
    fl.push(make_archive_file_info("c.zip", "c1.png", "c1.png"));
    fl.push(make_archive_file_info("c.zip", "c2.png", "c2.png"));
    fl.navigate_to(2); // c2.png

    let entries = vec![
        make_archive_file_info("pending.zip", "p1.png", "p1.png"),
        make_archive_file_info("pending.zip", "p2.png", "p2.png"),
        make_archive_file_info("pending.zip", "p3.png", "p3.png"),
    ];
    // current_index は c2.png (展開位置の外)。direction は使われない
    fl.expand_container_at(0, entries, NavigationDirection::Forward);

    assert_eq!(fl.len(), 5);
    // プレースホルダ位置に展開エントリが挿入され、それ以降の既存ファイルが entries_len - 1 だけずれる
    let names: Vec<&str> = fl.files().iter().map(|f| f.file_name.as_str()).collect();
    assert_eq!(
        names,
        vec!["p1.png", "p2.png", "p3.png", "c1.png", "c2.png"]
    );
    // 現在ファイル c2.png は維持され、index は 2 → 4 にずれる (削除1個・挿入3個)
    assert_eq!(fl.current().unwrap().file_name, "c2.png");
    assert_eq!(fl.current_index(), Some(4));
}

#[test]
fn mod_sort_logical_path_orders_mixed_sources() {
    // 通常ファイル (フォルダ違い・サブフォルダ違い)、アーカイブエントリ、PDF ページが混在しても
    // 論理パス順で並ぶことを確認する
    let registry = test_registry();
    let mut fl = FileList::new(registry);
    let now = 0;

    // 出現順はあえて論理パス順とは異なるようにする
    fl.push(make_file_info_with_source(
        FileSource::PdfPage {
            pdf_path: "/folder_b/doc.pdf".to_string(),
            page_index: 0,
        },
        100,
        now,
    ));
    fl.push(make_file_info_with_source(
        FileSource::File("/folder_a/sub/img2.png".to_string()),
        100,
        now,
    ));
    fl.push(make_file_info_with_source(
        FileSource::ArchiveEntry {
            archive: "/folder_b/archive.zip".to_string(),
            entry: "inner.png".to_string(),
            on_demand: false,
        },
        100,
        now,
    ));
    fl.push(make_file_info_with_source(
        FileSource::File("/folder_a/img1.png".to_string()),
        100,
        now,
    ));

    fl.sort(SortOrder::Natural);

    let paths: Vec<String> = fl.files().iter().map(|f| f.source.display_path()).collect();
    assert_eq!(
        paths,
        vec![
            "/folder_a/img1.png".to_string(),
            "/folder_a/sub/img2.png".to_string(),
            "/folder_b/archive.zip/inner.png".to_string(),
            "/folder_b/doc.pdf/Page 1".to_string(),
        ]
    );
}

#[test]
fn mod_sort_size_uses_logical_path_as_tiebreaker() {
    // Size 順は値が主キー、同値時に論理パスをタイブレーカーとする
    let registry = test_registry();
    let mut fl = FileList::new(registry);
    let now = 0;

    fl.push(make_file_info_with_source(
        FileSource::File("/x/c.png".to_string()),
        100,
        now,
    ));
    fl.push(make_file_info_with_source(
        FileSource::File("/x/b.png".to_string()),
        100,
        now,
    ));
    fl.push(make_file_info_with_source(
        FileSource::File("/x/a.png".to_string()),
        100,
        now,
    ));

    fl.sort(SortOrder::Size);

    let names: Vec<&str> = fl.files().iter().map(|f| f.file_name.as_str()).collect();
    assert_eq!(names, vec!["a.png", "b.png", "c.png"]);
}

#[test]
fn mod_sort_date_uses_logical_path_as_tiebreaker() {
    // Date 順は値が主キー、同値時に論理パスをタイブレーカーとする
    let registry = test_registry();
    let mut fl = FileList::new(registry);
    let epoch = 0;
    let future = epoch + 100_000_000_000;

    fl.push(make_file_info_with_source(
        FileSource::File("/x/c.png".to_string()),
        100,
        future,
    ));
    fl.push(make_file_info_with_source(
        FileSource::File("/x/b.png".to_string()),
        100,
        epoch,
    ));
    fl.push(make_file_info_with_source(
        FileSource::File("/x/a.png".to_string()),
        100,
        epoch,
    ));

    fl.sort(SortOrder::Date);

    let names: Vec<&str> = fl.files().iter().map(|f| f.file_name.as_str()).collect();
    // epoch と epoch (a, b が同じ日時) → a, b の論理パス順
    // その後 future → c
    assert_eq!(names, vec!["a.png", "b.png", "c.png"]);
}
