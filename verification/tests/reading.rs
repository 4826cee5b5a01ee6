use text_snap::selection::{
    exe_name, explain, is_shell_chrome, probe, Failure, Phase, Probe, Reader, Reply, Selection,
    Snapshot, MAX_ANCESTORS,
};

fn ranges(texts: &[Option<&str>]) -> Selection {
    Selection::Ranges(texts.iter().map(|text| text.map(str::to_string)).collect())
}

fn probed(texts: &[Option<&str>]) -> Option<String> {
    match probe(&ranges(texts)) {
        Probe::Text(text) => Some(text),
        Probe::Empty => None,
        Probe::Missing => panic!("there is a text interface"),
    }
}

/// A reader that knows the element with the focus.
fn looking(class: &str) -> Reader {
    let mut reader = Reader::new(77);
    reader.read();
    assert!(matches!(reader.waits_for(), Phase::Client));
    reader.reply(Reply::Client(Ok(())));
    assert!(matches!(reader.waits_for(), Phase::Focus));
    reader.reply(Reply::Focus(Ok(Some(5))));
    assert!(matches!(reader.waits_for(), Phase::Describe { pid: 5 }));
    reader.reply(Reply::Description {
        image: Some("C:\\Code.exe".to_string()),
        control: Some("Edit".to_string()),
        class: Some(class.to_string()),
    });
    reader
}

fn outcome(reader: &mut Reader) -> Result<Snapshot, Failure> {
    match reader.outcome() {
        Some(outcome) => outcome,
        None => panic!("the reading is not over"),
    }
}

/// Looks at the levels one after the other; there are no others above them.
fn climb(reader: &mut Reader, levels: Vec<Selection>) -> usize {
    let mut looked: usize = 0;
    for level in levels {
        if !matches!(reader.waits_for(), Phase::Look { .. }) {
            break;
        }
        looked += 1;
        reader.reply(Reply::Selection(level));
        reader.reply(Reply::Parent(true));
    }
    looked
}

#[test]
fn one_range_is_read_as_it_is() {
    let text = "  fn main() {\r\n\tprintln!();\n}\n\n";
    assert_eq!(probed(&[Some(text)]), Some(text.to_string()));
}

#[test]
fn ranges_go_on_lines_of_their_own() {
    assert_eq!(probed(&[Some("a"), Some("b")]), Some("a\nb".to_string()));
    assert_eq!(probed(&[Some("a\n"), Some("b")]), Some("a\nb".to_string()));
    assert_eq!(
        probed(&[None, Some(""), Some("a"), None, Some(""), Some("b"), Some("c\n")]),
        Some("a\nb\nc\n".to_string())
    );
    assert_eq!(probed(&[Some(" "), Some("b")]), Some(" \nb".to_string()));
}

#[test]
fn blank_text_is_no_text() {
    assert_eq!(probed(&[]), None);
    assert_eq!(probed(&[None]), None);
    assert_eq!(probed(&[Some("")]), None);
    assert_eq!(probed(&[Some(" \t\r\n\u{3000}"), Some("\u{a0}")]), None);
    assert!(matches!(probe(&Selection::NoRanges), Probe::Empty));
    assert!(matches!(probe(&Selection::NoPattern), Probe::Missing));
}

#[test]
fn the_taskbar_is_recognized() {
    for class in ["Shell_TrayWnd", "xTrayNotifyWndx", "SystemTray.Frame", "TaskListThumbnailWnd"] {
        assert!(is_shell_chrome(class));
    }
    for class in ["", "Chrome_WidgetWin_1", "shell_traywnd", "SystemTra"] {
        assert!(!is_shell_chrome(class));
    }
}

#[test]
fn the_three_reasons_are_told_apart() {
    assert_eq!(
        explain("Pane", "Shell_TrayWnd", true),
        "焦点落在任务栏/托盘区域上了（控件类型 Pane，类名 Shell_TrayWnd），那里没有可读的文本。\n\
         用托盘图标触发读取时很容易这样。\n\
         回到要划词的程序、重新选中一段文字，再按一次快捷键。"
    );
    assert_eq!(
        explain("Edit", "Scintilla", true),
        "焦点元素支持 UI Automation 文本模式，但当前没有选中任何文本（控件类型 Edit，类名 Scintilla）。\n\
         先选中一段文字，再按快捷键。"
    );
    assert_eq!(
        explain("Button", "", false),
        "这个控件没有暴露 UI Automation 文本模式（TextPattern），读不到选中文本（控件类型 Button，类名 ）。\n\
         常见原因：\n\
         · 该程序未开启无障碍支持 —— VS Code 需要 editor.accessibilitySupport 生效\n\
         · 目标程序以管理员身份运行，权限高于本程序（UIPI 拦截）\n\
         · 焦点不在可编辑的文本区域上"
    );
}

#[test]
fn programs_are_named_by_their_file() {
    assert_eq!(exe_name(5, Some("C:\\a\\Code.exe")), "Code.exe");
    assert_eq!(exe_name(0, Some("C:\\a\\Code.exe")), "");
    assert_eq!(exe_name(5, None), "");
}

#[test]
fn text_on_the_focused_element() {
    let mut reader = looking("Scintilla");
    reader.reply(Reply::Selection(ranges(&[Some("hello")])));
    let snapshot = match outcome(&mut reader) {
        Ok(snapshot) => snapshot,
        Err(failure) => panic!("{}", failure.message),
    };
    assert_eq!(snapshot.text, "hello");
    assert_eq!(snapshot.process, "Code.exe");
    assert_eq!(snapshot.control, "Edit");
    assert_eq!(snapshot.class, "Scintilla");
}

#[test]
fn the_nearest_text_wins() {
    let mut reader = looking("Scintilla");
    let looked = climb(
        &mut reader,
        vec![
            Selection::NoPattern,
            ranges(&[Some(" ")]),
            ranges(&[Some("near")]),
            ranges(&[Some("far")]),
        ],
    );
    assert_eq!(looked, 3);
    assert_eq!(outcome(&mut reader).unwrap().text, "near");
}

#[test]
fn the_climb_ends() {
    let mut levels: Vec<Selection> = Vec::new();
    for _ in 0..MAX_ANCESTORS + 1 {
        levels.push(Selection::NoPattern);
    }
    levels.push(ranges(&[Some("too far")]));
    let mut reader = looking("Scintilla");
    assert_eq!(climb(&mut reader, levels), 7);
    let failure = outcome(&mut reader).unwrap_err();
    assert_eq!(failure.message, explain("Edit", "Scintilla", false));
    assert_eq!(failure.process, "Code.exe");
    assert_eq!(failure.control, "Edit");
    assert_eq!(failure.class, "Scintilla");
}

#[test]
fn the_last_level_still_counts() {
    let mut levels: Vec<Selection> = Vec::new();
    for _ in 0..MAX_ANCESTORS {
        levels.push(Selection::NoRanges);
    }
    levels.push(ranges(&[Some("just in reach")]));
    let mut reader = looking("Scintilla");
    assert_eq!(climb(&mut reader, levels), 7);
    assert_eq!(outcome(&mut reader).unwrap().text, "just in reach");
}

#[test]
fn the_top_of_the_tree_ends_the_climb() {
    let mut reader = looking("Scintilla");
    reader.reply(Reply::Selection(Selection::NoRanges));
    assert!(matches!(reader.waits_for(), Phase::Climb { .. }));
    reader.reply(Reply::Parent(true));
    reader.reply(Reply::Selection(Selection::NoPattern));
    reader.reply(Reply::Parent(false));
    assert_eq!(outcome(&mut reader).unwrap_err().message, explain("Edit", "Scintilla", true));
}

#[test]
fn no_client() {
    let mut reader = Reader::new(77);
    reader.read();
    reader.reply(Reply::Client(Err("0x8000".to_string())));
    let failure = outcome(&mut reader).unwrap_err();
    assert_eq!(failure.message, "初始化 UI Automation 客户端失败：0x8000");
    assert_eq!((failure.process, failure.control, failure.class), Default::default());
    reader.read();
    assert!(matches!(reader.waits_for(), Phase::Client));
}

#[test]
fn no_focus() {
    let mut reader = Reader::new(77);
    reader.reply(Reply::Client(Ok(())));
    reader.reply(Reply::Focus(Err("gone".to_string())));
    let failure = outcome(&mut reader).unwrap_err();
    assert_eq!(failure.message, "取不到当前焦点元素：gone");
    assert_eq!(failure.process, "");
}

#[test]
fn the_focus_is_on_our_own_window() {
    let mut reader = Reader::new(77);
    reader.reply(Reply::Client(Ok(())));
    reader.reply(Reply::Focus(Ok(Some(77))));
    assert!(matches!(reader.waits_for(), Phase::OwnWindow { pid: 77 }));
    reader.reply(Reply::Image(Some("C:\\text-snap.exe".to_string())));
    let failure = outcome(&mut reader).unwrap_err();
    assert_eq!(
        failure.message,
        "焦点还在 text-snap 自己的窗口上。请先回到要划词的程序，再按一次快捷键。"
    );
    assert_eq!(failure.process, "text-snap.exe");
    assert_eq!((failure.control, failure.class), Default::default());
}

#[test]
fn an_unknown_process_has_no_name() {
    let mut reader = Reader::new(77);
    reader.reply(Reply::Client(Ok(())));
    reader.reply(Reply::Focus(Ok(None)));
    assert!(matches!(reader.waits_for(), Phase::Describe { pid: 0 }));
    reader.reply(Reply::Description { image: None, control: None, class: None });
    reader.reply(Reply::Selection(ranges(&[Some("x")])));
    let snapshot = outcome(&mut reader).unwrap();
    assert_eq!((snapshot.process, snapshot.control, snapshot.class), Default::default());
}

#[test]
fn the_client_is_made_once() {
    let mut reader = looking("Scintilla");
    reader.reply(Reply::Selection(ranges(&[Some("x")])));
    assert!(outcome(&mut reader).is_ok());
    assert!(matches!(reader.waits_for(), Phase::Focus));
    reader.read();
    assert!(matches!(reader.waits_for(), Phase::Focus));
}

#[test]
fn a_reply_out_of_turn_is_ignored() {
    let mut reader = Reader::new(77);
    reader.reply(Reply::Parent(true));
    assert!(matches!(reader.waits_for(), Phase::Client));
    assert!(reader.outcome().is_none());
    let mut reader = looking("Scintilla");
    reader.reply(Reply::Focus(Ok(Some(1))));
    assert!(matches!(reader.waits_for(), Phase::Look { level: 0, saw: false, .. }));
}
