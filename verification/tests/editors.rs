use text_snap::minimize::{
    command_for, decide, is_candidate, process_matches, target_windows, toggle, toggle_editors,
    Action, ToggleResult, WindowCommand, WindowInfo,
};

fn window(handle: isize, visible: bool, title_len: i32, pid: u32, image: Option<&str>) -> WindowInfo {
    WindowInfo { handle, visible, title_len, pid, image: image.map(str::to_string) }
}

#[test]
fn editors_are_known_by_their_file_name() {
    assert!(process_matches(Some("C:\\Users\\me\\Code.exe")));
    assert!(process_matches(Some("C:/VS/DEVENV.EXE")));
    assert!(process_matches(Some("code.exe")));
    assert!(!process_matches(Some("C:\\code.exe\\other.exe")));
    assert!(!process_matches(Some("C:\\barcode.exe")));
    assert!(!process_matches(Some("")));
    assert!(!process_matches(None));
}

#[test]
fn only_visible_windows_with_a_title_take_part() {
    let code = Some("C:\\Code.exe");
    let windows = vec![
        window(1, true, 5, 10, code),
        window(2, false, 5, 10, code),
        window(3, true, 0, 10, code),
        window(4, true, -1, 10, code),
        window(5, true, 5, 0, code),
        window(6, true, 5, 10, Some("C:\\chrome.exe")),
        window(7, true, 5, 10, None),
        window(8, true, 1, 11, Some("D:\\devenv.exe")),
    ];
    assert_eq!(target_windows(&windows), vec![1, 8]);
    assert_eq!(target_windows(&Vec::new()), Vec::<isize>::new());
    assert!(is_candidate(true, 1, 1));
    assert!(!is_candidate(true, 1, 0));
}

#[test]
fn one_open_window_is_enough_to_minimize() {
    assert_eq!(decide(&vec![]), Action::Nothing);
    assert_eq!(decide(&vec![true, false, true]), Action::Minimized);
    assert_eq!(decide(&vec![true, true]), Action::Restored);
}

#[test]
fn no_command_activates_a_window() {
    assert_eq!(
        command_for(Action::Minimized),
        Some(WindowCommand::MinimizeWithoutActivating)
    );
    assert_eq!(command_for(Action::Restored), Some(WindowCommand::ShowWithoutActivating));
    assert_eq!(command_for(Action::Nothing), None);
}

#[test]
fn windows_that_did_not_move_are_counted() {
    let result = toggle(&vec![false, true, false], &vec![true, true, false]);
    assert_eq!(result.action, Action::Minimized);
    assert_eq!((result.count, result.failed), (3, 1));

    let result = toggle(&vec![true, true], &vec![true, false]);
    assert_eq!(result.action, Action::Restored);
    assert_eq!((result.count, result.failed), (2, 1));

    let result = toggle(&vec![], &vec![]);
    assert_eq!(result.action, Action::Nothing);
    assert_eq!((result.count, result.failed), (0, 0));
}

#[test]
fn obedient_windows_go_and_come_back() {
    let open = vec![false, true];
    let away = vec![true, true];
    let back = vec![false, false];
    let first = toggle(&open, &away);
    assert_eq!((first.action, first.failed), (Action::Minimized, 0));
    let second = toggle(&away, &back);
    assert_eq!((second.action, second.failed), (Action::Restored, 0));
    assert_eq!(decide(&back), Action::Minimized);
}

#[test]
fn the_log_tells_what_happened() {
    let line = |action: Action, count: usize, failed: usize| {
        toggle_editors(&ToggleResult { action, count, failed })
    };
    assert_eq!(line(Action::Nothing, 0, 0), "没有检测到 VS Code / Visual Studio 窗口");
    assert_eq!(line(Action::Minimized, 2, 0), "已最小化 2 个编辑器窗口");
    assert_eq!(
        line(Action::Restored, 12, 10),
        "已还原 12 个编辑器窗口（10/12 个没成功：目标程序可能以管理员运行，本程序也需要管理员权限才能控制它）"
    );
}

#[test]
fn what_follows_a_failure() {
    let next = |before: &Vec<bool>, after: &Vec<bool>| (decide(before), decide(after));
    let open = vec![false, false];
    let shut = vec![true, true];
    let mixed = vec![true, false];
    assert_eq!(next(&open, &mixed), (Action::Minimized, Action::Minimized));
    assert_eq!(next(&shut, &mixed), (Action::Restored, Action::Minimized));
    assert_eq!(next(&shut, &shut), (Action::Restored, Action::Restored));
}
