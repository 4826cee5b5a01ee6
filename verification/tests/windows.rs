use text_snap::popup::{
    clipboard_error, clipboard_text, now_ms, on_read_request, on_window_event, place_near_cursor,
    prevents_exit, show_popup_with, write_clipboard, LastFrame, ReadAction, Step, WindowEvent, WorkArea,
};
use text_snap::selection::{Failure, Snapshot};
use text_snap::toast::{
    position_bottom_right, show, show_startup, NoticeStep, StartupToast, TOAST_LABEL,
};
use text_snap::tray::{build_tray, on_menu, on_tray_icon, IconEvent, MenuEntry, TrayAction};
use text_snap::config::Config;

const SCREEN: WorkArea = WorkArea { left: 0, top: 0, right: 1920, bottom: 1040 };

fn snapshot(text: &str) -> Result<Snapshot, Failure> {
    Ok(Snapshot {
        text: text.to_string(),
        process: "Code.exe".to_string(),
        control: "Edit".to_string(),
        class: "C".to_string(),
    })
}

fn failure(message: &str) -> Result<Snapshot, Failure> {
    Err(Failure {
        message: message.to_string(),
        process: String::new(),
        control: String::new(),
        class: String::new(),
    })
}

#[test]
fn the_window_goes_below_the_cursor() {
    assert_eq!(place_near_cursor(960, 300, Some((560, 440)), Some(SCREEN)), (680, 318));
    assert_eq!(place_near_cursor(960, 300, Some((561, 440)), Some(SCREEN)), (680, 318));
}

#[test]
fn the_window_keeps_away_from_the_sides() {
    assert_eq!(place_near_cursor(10, 300, Some((560, 440)), Some(SCREEN)), (8, 318));
    assert_eq!(place_near_cursor(1900, 300, Some((560, 440)), Some(SCREEN)), (1352, 318));
}

#[test]
fn the_window_flips_above_the_cursor() {
    assert_eq!(place_near_cursor(960, 574, Some((560, 440)), Some(SCREEN)), (680, 592));
    assert_eq!(place_near_cursor(960, 575, Some((560, 440)), Some(SCREEN)), (680, 127));
    assert_eq!(place_near_cursor(960, 800, Some((560, 440)), Some(SCREEN)), (680, 352));
}

#[test]
fn a_window_without_room_starts_at_the_top() {
    assert_eq!(place_near_cursor(960, 300, Some((560, 1000)), Some(SCREEN)), (680, 8));
    assert_eq!(place_near_cursor(960, 300, Some((3000, 440)), Some(SCREEN)), (-1088, 318));
}

#[test]
fn the_window_on_a_second_screen() {
    let area = WorkArea { left: -1280, top: -200, right: 0, bottom: 800 };
    assert_eq!(place_near_cursor(-1279, -190, Some((560, 440)), Some(area)), (-1272, -172));
    assert_eq!(place_near_cursor(-5, 790, Some((560, 440)), Some(area)), (-568, 342));
}

#[test]
fn the_window_without_a_screen_or_a_size() {
    assert_eq!(place_near_cursor(100, 100, Some((200, 100)), None), (0, 118));
    assert_eq!(place_near_cursor(100, 100, None, None), (-180, 118));
    assert_eq!(place_near_cursor(100, 100, Some((0, 100)), None), (-180, 118));
    assert_eq!(place_near_cursor(100, 100, Some((200, 0)), None), (-180, 118));
    assert_eq!(
        place_near_cursor(i32::MIN, i32::MAX, None, None),
        (-2147483928, 2147483665)
    );
    assert_eq!(place_near_cursor(0, 0, Some((u32::MAX, 1)), None), (0, 18));
    assert_eq!(place_near_cursor(0, 0, Some((0x8000_0000, 1)), None), (1073741824, 18));
}

#[test]
fn losing_the_focus_hides_the_window() {
    let lost = WindowEvent::Focused(false);
    assert!(on_window_event("main", lost, Some(1000), 1300, true));
    assert!(!on_window_event("main", lost, Some(1000), 1299, true));
    assert!(!on_window_event("main", lost, Some(1000), 1000, true));
    assert!(!on_window_event("main", lost, Some(1000), 900, true));
    assert!(on_window_event("main", lost, None, 0, true));
    assert!(!on_window_event("main", lost, Some(0), 5000, false));
    assert!(!on_window_event("main", WindowEvent::Focused(true), Some(0), 5000, true));
    assert!(!on_window_event("main", WindowEvent::Other, Some(0), 5000, true));
}

#[test]
fn the_settings_window_stays() {
    for label in ["settings", "toast", "", "Main"] {
        assert!(!on_window_event(label, WindowEvent::Focused(false), Some(0), 5000, true));
    }
}

#[test]
fn the_clock() {
    assert_eq!(now_ms(None), 0);
    assert_eq!(now_ms(Some(1_790_000_000_123)), 1_790_000_000_123);
    assert_eq!(now_ms(Some(u64::MAX as u128 + 6)), 5);
}

#[test]
fn only_an_exit_with_a_code_is_meant() {
    assert!(prevents_exit(None));
    assert!(!prevents_exit(Some(0)));
}

#[test]
fn asking_again_hides_the_window() {
    assert_eq!(on_read_request(Some(false)), ReadAction::Read);
    assert_eq!(on_read_request(Some(true)), ReadAction::Hide);
    assert_eq!(on_read_request(None), ReadAction::Ignore);
}

#[test]
fn what_was_read_is_copied() {
    assert_eq!(clipboard_text(&snapshot("x\ty")), Some("x\ty".to_string()));
    assert_eq!(clipboard_text(&failure("no")), None);
    assert_eq!(write_clipboard("x"), Ok(()));
    assert_eq!(write_clipboard(" "), Ok(()));
    assert_eq!(write_clipboard(""), Err("内容为空".to_string()));
    assert_eq!(clipboard_error("denied"), "写剪贴板失败：denied");
}

#[test]
fn the_window_says_whether_the_text_was_copied() {
    let copied = show_popup_with(snapshot("x"), Some(Ok(())));
    assert!(copied.frame.auto_copied);
    assert_eq!(copied.frame.event(), "ready");
    assert_eq!(copied.frame.outcome.unwrap().text, "x");
    assert_eq!(copied.complaint, None);

    let refused = show_popup_with(snapshot("x"), Some(Err("denied".to_string())));
    assert!(!refused.frame.auto_copied);
    assert_eq!(refused.complaint.as_deref(), Some("自动复制失败：denied"));
    assert!(refused.steps.contains(&Step::Show));

    let failed = show_popup_with(failure("no text"), None);
    assert!(!failed.frame.auto_copied);
    assert_eq!(failed.frame.event(), "failed");
    assert_eq!(failed.frame.outcome.unwrap_err().message, "no text");
    assert_eq!(failed.complaint, None);
}

#[test]
fn the_frame_comes_before_the_window() {
    assert_eq!(
        show_popup_with(failure(""), None).steps,
        vec![Step::Keep, Step::Send, Step::Place, Step::Show, Step::Stamp, Step::Focus]
    );
}

#[test]
fn the_notice_goes_to_the_corner() {
    assert_eq!(position_bottom_right(Some(SCREEN), Some((360, 116))), Some((1542, 906)));
    assert_eq!(position_bottom_right(None, Some((360, 116))), None);
    assert_eq!(position_bottom_right(Some(SCREEN), None), None);
    assert_eq!(TOAST_LABEL, "toast");
}

#[test]
fn the_notice_tells_the_shortcut() {
    let text = show("Alt+Q").text;
    assert_eq!(text.app_name, "text-snap 划词助手");
    assert_eq!(text.title, "已在后台运行");
    assert_eq!(text.body, "按 Alt+Q 读取选中文本，右键托盘图标打开菜单。");
}

#[test]
fn the_notice_shows_new_text_and_goes() {
    assert_eq!(
        show("Alt+Q").steps,
        vec![
            NoticeStep::Send,
            NoticeStep::Place,
            NoticeStep::Show,
            NoticeStep::Report,
            NoticeStep::HideAfter(5000),
        ]
    );
}

#[test]
fn the_latest_frame_is_kept() {
    let mut last = LastFrame::new();
    assert!(last.last_selection().is_none());
    last.keep(show_popup_with(failure("no text"), None).frame);
    last.keep(show_popup_with(snapshot("x"), Some(Ok(()))).frame);
    for _ in 0..2 {
        let frame = last.last_selection().unwrap();
        assert_eq!(frame.event(), "ready");
        assert_eq!(frame.outcome.unwrap().text, "x");
        assert!(frame.auto_copied);
    }
}

#[test]
fn the_notice_at_startup() {
    let mut cfg = Config::default();
    assert!(matches!(show_startup(&cfg, Ok(())), StartupToast::Show { delay_ms: 600 }));
    match show_startup(&cfg, Err("no window".to_string())) {
        StartupToast::Report(line) => assert_eq!(
            line,
            "创建通知窗口失败：no window（本次运行不显示启动提示，其余功能不受影响）"
        ),
        _ => panic!("a failure is reported"),
    }
    cfg.show_startup_toast = false;
    assert!(matches!(show_startup(&cfg, Ok(())), StartupToast::Skip));
}

#[test]
fn every_line_of_the_menu_does_something() {
    let mut actions: Vec<TrayAction> = Vec::new();
    for line in build_tray() {
        if let MenuEntry::Item { id, label } = line {
            assert!(!label.is_empty());
            let action = on_menu(id);
            assert_ne!(action, TrayAction::Ignore);
            assert!(!actions.contains(&action));
            actions.push(action);
        }
    }
    assert_eq!(
        actions,
        vec![
            TrayAction::Read,
            TrayAction::Settings,
            TrayAction::OpenDir,
            TrayAction::ToggleEditors,
            TrayAction::Quit,
        ]
    );
    assert!(matches!(build_tray()[3], MenuEntry::Separator));
    assert_eq!(on_menu("other"), TrayAction::Ignore);
}

#[test]
fn a_click_on_the_icon_reads() {
    assert_eq!(on_tray_icon(IconEvent::LeftUp), TrayAction::Read);
    assert_eq!(on_tray_icon(IconEvent::Other), TrayAction::Ignore);
}
