use std::sync::Arc;

use gv::archive::ArchiveManager;
use gv::document::open::{Candidate, FolderListing};
use gv::document::types::{DocumentError, DocumentEvent, Effect};
use gv::document::Document;
use gv::export::ExportFormat;
use gv::extension_registry::ExtensionRegistry;
use gv::file_info::{FileInfo, FileMetadata, FileSource};
use gv::file_list::sort::SortOrder;
use gv::file_list::FolderEntry;
use gv::filter::color::ToneCurve;
use gv::image::{DecodedImage, ImageMetadata};
use gv::persistent_filter::{FilterKind, FilterOperation};
use gv::selection::PixelRect;
use gv::window::action::{task_of, Action, Move, Request, SlideChange, Task};
use gv::window::dialogs::{
    after_update, check_for_update, shell_outcome, shell_question, BoxKind, UpdateInfo,
    UpdateOutcome,
};
use gv::window::edit::{block_size, byte_or, offset_value};
use gv::window::events::{became_selected, changed_items, fit_label};
use gv::window::files::{
    action_copy_file, action_move_file, get_cache_budget, open_choice, reveal_argument,
    OpenChoice, TransferKind,
};
use gv::window::messages::{
    on_set_cursor, CursorShape, HandleKind, HitTestResult, Route, VK_ESCAPE, WM_COMMAND,
    WM_DOCUMENT_EVENT, WM_KEYDOWN, WM_LBUTTONDOWN, WM_MOUSEMOVE, WM_MOUSEWHEEL, WM_PAINT,
    WM_SIZE, WM_SYSKEYDOWN, WM_TIMER,
};
use gv::window::title::{error_title, format_with_commas, show_image_info};
use gv::window::{AppWindow, Command};

fn meta() -> Option<FileMetadata> {
    Some(FileMetadata { size: 2048, modified: 0 })
}

fn picture() -> DecodedImage {
    DecodedImage { data: vec![10, 20, 30, 255, 40, 50, 60, 255], width: 2, height: 1 }
}

/// Carries out the document's effects.
fn settle(w: &mut AppWindow) -> Vec<DocumentEvent> {
    let mut events = Vec::new();
    loop {
        let effects = w.document.take_effects();
        if effects.is_empty() {
            return events;
        }
        for e in effects {
            match e {
                Effect::Load { .. } => w.document.image_decoded(Ok(picture())),
                Effect::Event(event) => events.push(event),
                _ => {}
            }
        }
    }
}

/// A window on some images.
fn window(count: usize) -> AppWindow {
    let registry = Arc::new(ExtensionRegistry::new());
    let manager = ArchiveManager::new(Arc::clone(&registry));
    let document = Document::new(registry, manager, SortOrder::Natural);
    let mut w = AppWindow::new(document, false, 3000, true);
    let candidates = (0..count)
        .map(|i| Candidate {
            path: format!("C:\\p\\{i}.png"),
            metadata: meta(),
            nested: true,
        })
        .collect();
    let _ = w.document.gather(&candidates);
    let _ = w.document.finish_open(Vec::new());
    settle(&mut w);
    w
}

fn index(w: &AppWindow) -> Option<usize> {
    w.document.file_list().current_index()
}

fn run(w: &mut AppWindow, action: Action) -> Vec<Command> {
    w.execute_action(action);
    settle(w);
    w.take_commands()
}

#[test]
fn actions_stand_for_tasks() {
    assert_eq!(task_of(Action::Navigate50Back), Task::Move(Move::By(-50)));
    assert_eq!(task_of(Action::SlideshowFaster), Task::Slide(SlideChange::Adjust(-500)));
    assert_eq!(task_of(Action::OpenFile), Task::AskGuarded(Request::OpenFile));
    assert_eq!(task_of(Action::Resize), Task::AskOfImage(Request::Resize));
    assert_eq!(task_of(Action::PFilterGamma), Task::RemoveOrAsk(FilterKind::Gamma));
}

#[test]
fn moves_change_the_document() {
    let mut w = window(10);
    let commands = run(&mut w, Action::Navigate5Forward);
    assert_eq!(index(&w), Some(5));
    assert!(matches!(commands[..], [Command::ProcessEvents]));
    run(&mut w, Action::NavigateLast);
    assert_eq!(index(&w), Some(9));
    run(&mut w, Action::NavigateForward);
    assert_eq!(index(&w), Some(0));
    run(&mut w, Action::MarkSet);
    run(&mut w, Action::NavigateLast);
    run(&mut w, Action::NavigateNextMark);
    assert_eq!(index(&w), Some(0));
    run(&mut w, Action::RemoveFromList);
    assert_eq!(w.document.file_list().len(), 9);
}

#[test]
fn slideshow_runs_to_the_end_and_again() {
    let mut w = window(3);
    let commands = run(&mut w, Action::SlideshowToggle);
    assert!(matches!(commands[..], [Command::SetTimer(3000)]));
    w.on_slideshow_timer();
    w.on_slideshow_timer();
    assert_eq!(index(&w), Some(2));
    w.on_slideshow_timer();
    assert_eq!(index(&w), Some(0));
    w.slideshow.repeat = false;
    w.on_slideshow_timer();
    w.on_slideshow_timer();
    w.take_commands();
    w.on_slideshow_timer();
    assert!(!w.slideshow.active);
    assert!(matches!(w.take_commands()[..], [Command::KillTimer]));
    assert_eq!(index(&w), Some(2));
}

#[test]
fn other_actions_stop_the_slideshow() {
    let mut w = window(3);
    run(&mut w, Action::SlideshowToggle);
    let commands = run(&mut w, Action::NavigateForward);
    assert!(!w.slideshow.active);
    assert!(matches!(commands[..], [Command::KillTimer, Command::ProcessEvents]));
    let mut alone = window(1);
    assert!(run(&mut alone, Action::SlideshowToggle).is_empty());
}

#[test]
fn slideshow_interval_stays_in_bounds() {
    let mut w = window(3);
    run(&mut w, Action::SlideshowSlower);
    assert_eq!(w.slideshow.interval_ms, 3500);
    run(&mut w, Action::SlideshowFaster);
    assert_eq!(w.slideshow.interval_ms, 3000);
    for _ in 0..20 {
        run(&mut w, Action::SlideshowFaster);
    }
    assert_eq!(w.slideshow.interval_ms, 500);
    w.adjust_slideshow_interval(i32::MAX);
    assert_eq!(w.slideshow.interval_ms, 30000);
}

#[test]
fn toggles_undo_themselves() {
    let mut w = window(2);
    let enter = run(&mut w, Action::ToggleFullscreen);
    assert!(matches!(
        enter[..],
        [Command::Fullscreen { enter: true, on_top: false }, Command::ShowMenu(false)]
    ));
    assert!(run(&mut w, Action::ToggleMaximize).is_empty());
    let leave = run(&mut w, Action::ToggleFullscreen);
    assert!(matches!(
        leave[..],
        [
            Command::Fullscreen { enter: false, .. },
            Command::ShowCursor,
            Command::ShowMenu(true)
        ]
    ));
    assert!(!w.fullscreen);
    let commands = run(&mut w, Action::ToggleAlwaysOnTop);
    assert!(matches!(commands[..], [Command::TopMost(true)]));
    let commands = run(&mut w, Action::ToggleMenuBar);
    assert!(matches!(commands[..], [Command::ShowMenu(false)]));
}

#[test]
fn panel_follows_the_list() {
    let mut w = window(2);
    let commands = run(&mut w, Action::ToggleFileList);
    assert!(matches!(
        commands[..],
        [
            Command::TogglePanel,
            Command::PanelCount(2),
            Command::PanelSelect(0),
            Command::RefreshCached,
            Command::RepaintNow
        ]
    ));
    let commands = run(&mut w, Action::MarkSet);
    assert!(matches!(commands[..], [Command::ProcessEvents, Command::PanelItem(0)]));
    w.on_item_selected(0);
    assert_eq!(index(&w), Some(0));
    w.on_item_selected(-1);
    assert_eq!(index(&w), Some(0));
    assert_eq!(w.cached_indices(&vec![1, 7]), vec![0, 1]);
    assert_eq!(changed_items(&vec![1, 2], &vec![2, 5]), vec![1, 5]);
    assert!(became_selected(8, 0, 2));
    assert!(!became_selected(8, 2, 2));
    assert_eq!(fit_label(vec![65, 66, 67], 3), vec![65, 66, 0]);
    assert_eq!(fit_label(vec![65], 3), vec![65, 0]);
}

#[test]
fn events_reach_the_window() {
    let mut w = window(3);
    w.execute_action(Action::SlideshowToggle);
    w.take_commands();
    w.process_document_events(vec![
        DocumentEvent::ImageReady,
        DocumentEvent::FileListChanged,
        DocumentEvent::NavigationChanged { index: 1 },
        DocumentEvent::NavigationChanged { index: 2 },
        DocumentEvent::Error(DocumentError::Other("x".to_string())),
    ]);
    assert!(!w.slideshow.active);
    assert!(matches!(
        w.take_commands()[..],
        [
            Command::Invalidate,
            Command::KillTimer,
            Command::ShowError(_),
            Command::PanelCount(3),
            Command::UpdateTitle,
            Command::UpdateTitle,
            Command::PanelSelect(2)
        ]
    ));
}

#[test]
fn edits_show_the_result() {
    let mut w = window(1);
    let commands = run(&mut w, Action::InvertColors);
    assert!(!commands.is_empty());
    assert_eq!(w.document.current_image().unwrap().data[..4], [245, 235, 225, 255]);
    assert!(w.document.has_unsaved_edit());
    run(&mut w, Action::InvertColors);
    assert_eq!(w.document.current_image().unwrap().data, picture().data);
    run(&mut w, Action::Rotate90CW);
    assert_eq!(w.document.current_image().unwrap().height, 2);
    run(&mut w, Action::Rotate90CCW);
    w.selection = Some(PixelRect { x: 1, y: 0, width: 1, height: 1 });
    w.action_fill(1, 2, 3);
    assert_eq!(
        w.document.current_image().unwrap().data,
        vec![10, 20, 30, 255, 1, 2, 3, 255]
    );
    run(&mut w, Action::Crop);
    assert!(w.selection.is_none());
    assert_eq!(w.document.current_image().unwrap().data, vec![1, 2, 3, 255]);
    let curve = ToneCurve { values: vec![9; 256] };
    w.action_tone(&curve);
    assert_eq!(w.document.current_image().unwrap().data, vec![9, 9, 9, 255]);
    w.replace_image(picture());
    w.action_mosaic(2);
    assert_eq!(w.document.current_image().unwrap().data[..3], [25, 35, 45]);
    w.action_gaussian_blur(1);
    w.action_unsharp_mask(1);
    assert_eq!(w.document.current_image().unwrap().data[..3], [25, 35, 45]);
    w.guard_unsaved_edit();
    assert!(!w.document.has_unsaved_edit());
}

#[test]
fn filters_for_every_image_are_switched() {
    let mut w = window(1);
    run(&mut w, Action::PFilterToggle);
    run(&mut w, Action::PFilterInvertColors);
    assert_eq!(w.document.current_image().unwrap().data[0], 245);
    run(&mut w, Action::PFilterInvertColors);
    assert_eq!(w.document.current_image().unwrap().data[0], 10);
    let commands = run(&mut w, Action::PFilterGaussianBlur);
    assert!(matches!(commands[..], [Command::AskFilter(FilterKind::GaussianBlur)]));
    w.add_persistent_filter(FilterOperation::GaussianBlur { radius: 2 });
    settle(&mut w);
    let states = w.update_menu_checks(true, false);
    assert_eq!(states.len(), 26);
    let state = |a: Action| states.iter().find(|s| s.action == a).unwrap();
    assert!(state(Action::PFilterGaussianBlur).checked);
    assert_eq!(state(Action::PFilterGaussianBlur).enabled, Some(true));
    assert!(!state(Action::PFilterBlur).checked);
    assert!(state(Action::ToggleMargin).checked);
    assert!(!state(Action::ToggleFullscreen).checked);
    run(&mut w, Action::PFilterGaussianBlur);
    assert!(w.document.persistent_filter().operations().is_empty());
}

#[test]
fn requests_need_an_image_where_they_edit() {
    let mut empty = window(0);
    assert!(run(&mut empty, Action::ExportPng).is_empty());
    assert!(run(&mut empty, Action::ZoomIn).is_empty());
    let commands = run(&mut empty, Action::ShowHelp);
    assert!(matches!(commands[..], [Command::Ask(Request::ShowHelp)]));
    let mut w = window(1);
    let commands = run(&mut w, Action::ExportPng);
    assert!(matches!(commands[..], [Command::Ask(Request::ExportPng)]));
    let commands = run(&mut w, Action::ZoomIn);
    assert!(matches!(commands[..], [Command::View(_), Command::Invalidate]));
}

#[test]
fn pages_are_counted_from_one() {
    let mut w = window(4);
    assert_eq!(w.offered_page(), Some((1, 4)));
    w.navigate_to_page(3);
    assert_eq!(index(&w), Some(2));
    w.navigate_to_page(0);
    assert_eq!(index(&w), Some(0));
    w.navigate_to_page(99);
    assert_eq!(index(&w), Some(3));
    assert_eq!(window(0).offered_page(), None);
}

#[test]
fn messages_are_routed() {
    let mut w = window(1);
    assert_eq!(w.wnd_proc(WM_PAINT, 0, 0), Route::Paint);
    assert_eq!(w.wnd_proc(WM_SIZE, 0, 0x0258_0320), Route::Resize { width: 800, height: 600 });
    assert_eq!(w.wnd_proc(WM_SIZE, 0, 0), Route::ResizeToClient);
    assert_eq!(w.wnd_proc(WM_KEYDOWN, 0x41, 0), Route::Key { vk: 0x41, system: false });
    assert_eq!(w.wnd_proc(WM_SYSKEYDOWN, 0x41, 0), Route::Key { vk: 0x41, system: true });
    assert_eq!(w.wnd_proc(WM_MOUSEWHEEL, 0x0078_0000, 0), Route::Wheel { up: true });
    assert_eq!(w.wnd_proc(WM_MOUSEWHEEL, 0xff88_0000, 0), Route::Wheel { up: false });
    assert_eq!(w.wnd_proc(WM_LBUTTONDOWN, 0, 0xffff_fffe), Route::LeftDown { x: -2, y: -1 });
    assert_eq!(
        w.wnd_proc(WM_MOUSEMOVE, 0, 5),
        Route::MouseMove { x: 5, y: 0, wake_cursor: false }
    );
    assert_eq!(w.wnd_proc(WM_TIMER, 2, 0), Route::SlideshowTimer);
    assert_eq!(w.wnd_proc(WM_TIMER, 9, 0), Route::Default);
    assert_eq!(w.wnd_proc(WM_COMMAND, 7, 0), Route::MenuItem(7));
    assert_eq!(w.wnd_proc(WM_COMMAND, 7, 1), Route::Ignore);
    assert_eq!(w.wnd_proc(WM_DOCUMENT_EVENT, 0, 0), Route::DocumentEvent);
    assert_eq!(w.wnd_proc(0x9999, 0, 0), Route::Default);
    w.dragging = true;
    w.selection = Some(PixelRect { x: 0, y: 0, width: 1, height: 1 });
    assert_eq!(w.wnd_proc(WM_KEYDOWN, VK_ESCAPE as u64, 0), Route::CancelDrag);
    w.cancel_drag();
    assert!(!w.dragging && w.selection.is_none());
    assert!(matches!(w.take_commands()[..], [Command::Invalidate, Command::UpdateTitle]));
}

#[test]
fn keys_without_actions_are_left_to_the_system() {
    let mut w = window(2);
    assert!(w.on_key(Some(Action::NavigateForward), true));
    assert_eq!(index(&w), Some(1));
    assert!(w.on_key(None, false));
    assert!(!w.on_key(None, true));
    w.take_commands();
    w.on_wheel(Some(Action::NavigateBack));
    assert_eq!(index(&w), Some(0));
    assert!(matches!(w.take_commands()[..], [Command::ProcessEvents, Command::RepaintNow]));
    w.on_wheel(None);
    assert!(w.take_commands().is_empty());
}

#[test]
fn mouse_takes_the_shape_of_the_handle() {
    assert_eq!(on_set_cursor(HitTestResult::Inside), Some(CursorShape::SizeAll));
    assert_eq!(on_set_cursor(HitTestResult::Outside), None);
    let shape = |k: HandleKind| on_set_cursor(HitTestResult::Handle(k)).unwrap();
    assert_eq!(shape(HandleKind::TopLeft), shape(HandleKind::BottomRight));
    assert_eq!(shape(HandleKind::Left), CursorShape::SizeWe);
}

#[test]
fn title_tells_the_entry_and_its_place() {
    let mut w = window(3);
    assert_eq!(w.title("1.2"), "C:\\p\\0.png [1/3] - ぐらびゅ");
    w.selection = Some(PixelRect { x: -1, y: 2, width: 30, height: 40 });
    assert_eq!(w.title("1.2"), "C:\\p\\0.png [1/3] 選択: (-1, 2) 30×40 - ぐらびゅ");
    assert_eq!(window(0).title("1.2"), "ぐらびゅ v1.2");
    assert_eq!(error_title("x"), "ぐらびゅ - エラー: x");
}

#[test]
fn title_tells_the_expansion() {
    let mut w = window(0);
    let rest = vec!["C:\\a.zip".to_string(), "C:\\b.zip".to_string()];
    w.document
        .open_containers(Vec::new(), &rest, &vec![meta(), meta()], 0)
        .unwrap();
    assert_eq!(w.title(""), "読み込み中: C:\\a.zip [1/2] 読込: 0/2 - ぐらびゅ");
}

#[test]
fn information_is_listed() {
    assert_eq!(format_with_commas(0), "0");
    assert_eq!(format_with_commas(999), "999");
    assert_eq!(format_with_commas(1000), "1,000");
    assert_eq!(format_with_commas(u64::MAX), "18,446,744,073,709,551,615");
    let info = FileInfo::from_path(
        "C:\\a.png",
        &FileMetadata { size: 5 * 1024 * 1024 + 1000, modified: 0 },
    );
    assert_eq!(show_image_info(&info, None, None), "パス: C:\\a.png\n\nファイルサイズ: 5,120 KiB");
    let shown = ImageMetadata {
        width: 3,
        height: 4,
        format: "PNG".to_string(),
        comments: vec!["c".to_string()],
        exif: vec![("カメラ".to_string(), "X".to_string())],
    };
    assert_eq!(
        show_image_info(&info, Some((3, 4)), Some(&shown)),
        "パス: C:\\a.png\n\nファイルサイズ: 5,120 KiB\n\n画像サイズ: 3 x 4\n\nフォーマット: PNG\n\n\
         c\n\n\n\n--- EXIF ---\n\nカメラ: X"
    );
}

#[test]
fn entries_are_moved_and_copied_by_their_origin() {
    let file = FileSource::File("C:\\d\\a.png".to_string());
    let (kind, dialog) = action_move_file(&file).unwrap();
    assert_eq!(kind, TransferKind::MoveFile);
    assert_eq!(dialog.default_name, "a.png");
    assert_eq!(dialog.initial_dir.as_deref(), Some("C:\\d"));
    assert_eq!(dialog.title.as_deref(), Some("ファイルを移動"));
    let entry = |on_demand: bool| FileSource::ArchiveEntry {
        archive: "C:\\z.zip".to_string(),
        entry: "p/1.png".to_string(),
        on_demand,
    };
    assert_eq!(action_move_file(&entry(true)).unwrap().0, TransferKind::WriteEntry);
    assert_eq!(action_move_file(&entry(false)).unwrap().0, TransferKind::CopyFile);
    let page = FileSource::PdfPage { pdf_path: "C:\\d.pdf".to_string(), page_index: 0 };
    assert!(action_move_file(&page).is_none());
    let (kind, dialog) = action_copy_file(&entry(true));
    assert_eq!(kind, TransferKind::WriteEntry);
    assert_eq!(dialog.default_name, "z_1.png");
    assert_eq!(dialog.ok_button_label.as_deref(), Some("複製"));
    assert_eq!(action_copy_file(&page).0, TransferKind::CopyFile);
    assert_eq!(reveal_argument(&entry(true)), "/select,C:\\z.zip");
}

#[test]
fn marked_entries_are_listed() {
    let mut w = window(3);
    assert_eq!(w.action_marked_copy_names(), None);
    assert!(w.marked_folder().is_none());
    run(&mut w, Action::MarkSet);
    run(&mut w, Action::MarkSet);
    assert_eq!(w.marked_paths(), vec!["C:\\p\\0.png", "C:\\p\\1.png"]);
    assert_eq!(w.action_marked_copy_names().unwrap(), "C:\\p\\0.png\r\nC:\\p\\1.png");
    assert_eq!(w.marked_folder().unwrap().unwrap(), "C:\\p");
    assert!(w.may_delete());
    assert_eq!(w.action_delete_file().unwrap(), "C:\\p\\2.png");
    let dialog = w.export_image(ExportFormat::Jpg).unwrap();
    assert_eq!(dialog.default_name, "2.jpg");
    assert!(window(0).export_image(ExportFormat::Jpg).is_none());
}

#[test]
fn inputs_are_opened_by_number_and_kind() {
    assert_eq!(open_choice(0, false), OpenChoice::Nothing);
    assert_eq!(open_choice(2, true), OpenChoice::Multiple);
    assert_eq!(open_choice(1, true), OpenChoice::Folder);
    assert_eq!(open_choice(1, false), OpenChoice::Single);
    assert_eq!(get_cache_budget(Some(1001)), 500);
    assert_eq!(get_cache_budget(None), 256 * 1024 * 1024);
}

#[test]
fn dialog_values_fall_back() {
    assert_eq!(byte_or("200", 7), 200);
    assert_eq!(byte_or("256", 7), 7);
    assert_eq!(byte_or("", 7), 7);
    assert_eq!(block_size("0"), 1);
    assert_eq!(block_size("x"), 10);
    assert_eq!(block_size("25"), 25);
    assert_eq!(offset_value("-200"), -128);
    assert_eq!(offset_value("+17"), 17);
    assert_eq!(offset_value("-17"), -17);
    assert_eq!(offset_value("--1"), 0);
    assert_eq!(offset_value("999"), 128);
}

#[test]
fn updates_are_asked_for() {
    let info = |is_newer: bool| UpdateInfo {
        current_version: "1.0".to_string(),
        latest_version: "1.1".to_string(),
        is_newer,
    };
    let question = check_for_update(&Ok(info(true)));
    assert_eq!(question.kind, BoxKind::Question);
    assert_eq!(question.text, "v1.1 が利用可能です (現在: v1.0)。\n更新しますか？");
    assert_eq!(check_for_update(&Ok(info(false))).text, "最新バージョンです (v1.0)");
    assert_eq!(check_for_update(&Err("x".to_string())).text, "更新の確認に失敗しました:\nx");
    assert!(matches!(after_update(&Ok(true)), UpdateOutcome::Exit));
    assert!(matches!(after_update(&Ok(false)), UpdateOutcome::Stay));
    assert!(matches!(after_update(&Err("x".to_string())), UpdateOutcome::Failed(b)
        if b.text == "更新に失敗しました:\nx"));
    assert_eq!(shell_question(true).kind, BoxKind::Question);
    assert_eq!(shell_outcome(false, &Ok(())).text, "シェル統合を解除しました。");
    assert_eq!(
        shell_outcome(true, &Err("x".to_string())).text,
        "シェル統合の登録に失敗しました:\nx"
    );
}

#[test]
fn closing_all_empties_the_window() {
    let mut w = window(2);
    run(&mut w, Action::CloseAll);
    assert_eq!(w.document.file_list().len(), 0);
    assert!(w.document.current_image().is_none());
    let entry = FolderEntry { path: "C:\\d\\a.png".to_string(), is_file: true, metadata: meta() };
    assert!(w.document.open("C:\\d\\a.png", FolderListing::Entries(vec![entry])));
    settle(&mut w);
    assert_eq!(w.title(""), "C:\\d\\a.png [1/1] - ぐらびゅ");
}

#[test]
fn guard_keeps_the_selection_of_a_saved_image() {
    let mut w = window(2);
    let rect = PixelRect { x: 0, y: 0, width: 1, height: 1 };
    w.selection = Some(rect);
    w.guard_unsaved_edit();
    assert_eq!(w.selection, Some(rect));
    w.leave_image();
    assert_eq!(w.selection, None);
    run(&mut w, Action::InvertColors);
    w.selection = Some(rect);
    assert!(w.document.has_unsaved_edit());
    w.guard_unsaved_edit();
    assert!(!w.document.has_unsaved_edit());
    assert_eq!(w.selection, None);
}
