use text_snap::config::Config;
use text_snap::files::{build_filename, save_text, timestamp, FileNames, LocalTime};
use text_snap::selection::{Failure, Snapshot};
use text_snap::settings::{enter, Refusal};
use text_snap::ui::{
    log_line, open_dir, reading_line, registration_line, settings_line, startup_line, UiInfo,
};

const TIME: LocalTime =
    LocalTime { year: 2026, month: 9, day: 22, hour: 21, minute: 10, second: 5 };

fn name(content: &str, kind: &str) -> String {
    build_filename(content, kind, "S").candidate()
}

fn nth(names: &mut FileNames, n: u64) -> String {
    while names.number() < n {
        assert_eq!(names.settle(true), None);
    }
    names.candidate()
}

#[test]
fn times_are_written_with_fixed_width() {
    assert_eq!(timestamp(&TIME), "20260922_211005");
    let early = LocalTime { year: 7, month: 1, day: 2, hour: 3, minute: 4, second: 5 };
    assert_eq!(timestamp(&early), "00070102_030405");
}

#[test]
fn names_begin_with_the_time() {
    let names = build_filename("划词助手 test", "txt", &timestamp(&TIME));
    assert_eq!(names.candidate(), "20260922_211005_划词助手 test.txt");
}

#[test]
fn the_first_filled_line_gives_the_name() {
    assert_eq!(name("\r\n  \n\t hello world \nmore", "txt"), "S_hello world.txt");
    assert_eq!(name("one\rtwo\nthree", "txt"), "S_onetwo.txt");
    assert_eq!(name("last", "txt"), "S_last.txt");
}

#[test]
fn names_hold_at_most_twenty_characters() {
    assert_eq!(name("abcdefghijklmnopqrstuvwxyz", "txt"), "S_abcdefghijklmnopqrst.txt");
    assert_eq!(
        name("一二三四五六七八九十一二三四五六七八九十一", "txt"),
        "S_一二三四五六七八九十一二三四五六七八九十.txt"
    );
    assert_eq!(name("a/b:cdefghijklmnopqrstuvwxyz", "txt"), "S_abcdefghijklmnopqrst.txt");
    assert_eq!(name("abcdefghijklmnopqrs t", "txt"), "S_abcdefghijklmnopqrs.txt");
}

#[test]
fn names_hold_no_forbidden_characters() {
    assert_eq!(name("a\\b/c:d*e?f\"g<h>i|j\u{7}k\u{9f}l", "txt"), "S_abcdefghijkl.txt");
    assert_eq!(name("***\nsecond", "txt"), "S_snapshot.txt");
    assert_eq!(name("?? a ??", "txt"), "S_a.txt");
}

#[test]
fn the_kind_gives_the_extension() {
    assert_eq!(name("x", "md"), "S_x.md");
    assert_eq!(name("x", "txt"), "S_x.txt");
    assert_eq!(name("x", "MD"), "S_x.txt");
    assert_eq!(name("x", ""), "S_x.txt");
}

#[test]
fn saving_overwrites_nothing() {
    let mut dir: Vec<(String, Vec<u8>)> = vec![("S_x_3.txt".to_string(), vec![1])];
    let mut used: Vec<String> = Vec::new();
    for content in ["x", "x\ny", "x\nz"] {
        let mut job = save_text(content, "txt", "S").unwrap();
        let name = loop {
            let candidate = job.names.candidate();
            let exists = dir.iter().any(|(name, _)| *name == candidate);
            if let Some(name) = job.names.settle(exists) {
                break name;
            }
        };
        used.push(name.clone());
        dir.push((name, job.bytes));
    }
    assert_eq!(used, vec!["S_x.txt", "S_x_2.txt", "S_x_4.txt"]);
    assert_eq!(dir[0], ("S_x_3.txt".to_string(), vec![1]));
    assert_eq!(dir[1].1, b"\xEF\xBB\xBFx".to_vec());
    assert_eq!(dir[3].1, b"\xEF\xBB\xBFx\nz".to_vec());
}

#[test]
fn names_in_use_get_a_number() {
    let mut names = build_filename("x", "txt", "S");
    let mut seen: Vec<String> = vec![names.candidate()];
    assert_eq!(nth(&mut names, 2), "S_x_2.txt");
    assert_eq!(nth(&mut names, 3), "S_x_3.txt");
    assert_eq!(nth(&mut names, 10), "S_x_10.txt");
    for _ in 0..200 {
        assert_eq!(names.settle(true), None);
        let candidate = names.candidate();
        assert!(!seen.contains(&candidate));
        seen.push(candidate);
    }
}

#[test]
fn plain_texts_start_with_the_mark() {
    let job = save_text("划词\r\n", "txt", "S").unwrap();
    assert_eq!(&job.bytes[..3], &[0xef, 0xbb, 0xbf]);
    assert_eq!(String::from_utf8(job.bytes[3..].to_vec()).unwrap(), "划词\r\n");
    assert_eq!(job.names.candidate(), "S_划词.txt");
}

#[test]
fn markdown_has_no_mark() {
    let job = save_text("# 划词", "md", "S").unwrap();
    assert_eq!(job.bytes, "# 划词".as_bytes().to_vec());
    assert_eq!(job.names.candidate(), "S_# 划词.md");
}

#[test]
fn blank_texts_are_not_saved() {
    for content in ["", "  ", "\r\n\t\u{3000}"] {
        assert_eq!(save_text(content, "txt", "S").unwrap_err(), "内容为空，没什么可保存的");
    }
}

#[test]
fn the_settings_as_they_are_shown() {
    let mut cfg = Config::default();
    cfg.minimize_hotkey = Some("  ".to_string());
    let info = UiInfo::build(&cfg, "/docs/text-snap".to_string(), true);
    assert_eq!(info.hotkey, "Ctrl+Shift+A");
    assert_eq!(info.minimize_hotkey, "");
    assert!(info.show_startup_toast);
    assert_eq!(info.save_dir, "/docs/text-snap");
    assert_eq!(info.save_dir_raw, "");
    assert!(!info.save_dir_custom);
    assert!(info.save_dir_exists);

    cfg.minimize_hotkey = Some(" Ctrl+M ".to_string());
    cfg.save_dir = Some(" /x ".to_string());
    let info = UiInfo::build(&cfg, "/x".to_string(), false);
    assert_eq!(info.minimize_hotkey, "Ctrl+M");
    assert_eq!(info.save_dir_raw, " /x ");
    assert!(info.save_dir_custom);
    assert!(!info.save_dir_exists);

    cfg.save_dir = Some("  ".to_string());
    assert!(!UiInfo::build(&cfg, String::new(), false).save_dir_custom);
}

#[test]
fn entering_what_is_shown_changes_nothing() {
    let cfg = enter(" Alt+Q", "Alt+W ", "", true);
    let info = UiInfo::build(&cfg, "/docs/text-snap".to_string(), true);
    let again = enter(
        &info.hotkey,
        &info.minimize_hotkey,
        &info.save_dir_raw,
        info.show_startup_toast,
    );
    assert_eq!(again.hotkey, cfg.hotkey);
    assert_eq!(again.minimize_hotkey, cfg.minimize_hotkey);
    assert_eq!(again.save_dir, None);
    assert_eq!(again.show_startup_toast, cfg.show_startup_toast);
}

#[test]
fn a_directory_to_open() {
    assert_eq!(open_dir("  C:\\texts\t"), Ok("C:\\texts"));
    assert_eq!(open_dir(" \n"), Err("路径为空".to_string()));
    assert_eq!(open_dir(""), Err("路径为空".to_string()));
}

#[test]
fn the_lines_of_the_log() {
    let mut cfg = Config::default();
    assert_eq!(startup_line("/c.json", &cfg), "── 启动 ──  配置 /c.json  快捷键 Ctrl+Shift+A");
    assert_eq!(
        registration_line(&cfg, &Ok(())),
        "全局快捷键已注册：读取 [Ctrl+Shift+A]，最小化/还原 [Ctrl+Shift+D]"
    );
    let refusal = Refusal { text: "Alt+Q".to_string(), message: "被占用".to_string() };
    assert_eq!(registration_line(&cfg, &Err(refusal)), "快捷键 [Alt+Q] 注册失败：被占用");
    assert_eq!(
        settings_line(&cfg),
        "设置已更新：读取 [Ctrl+Shift+A]，最小化/还原 [Ctrl+Shift+D]，保存目录 [<默认>]，启动提示 [开]"
    );
    cfg.minimize_hotkey = None;
    cfg.save_dir = Some("/x".to_string());
    cfg.show_startup_toast = false;
    assert_eq!(
        registration_line(&cfg, &Ok(())),
        "全局快捷键已注册：读取 [Ctrl+Shift+A]，最小化/还原 [未设置]"
    );
    assert_eq!(
        settings_line(&cfg),
        "设置已更新：读取 [Ctrl+Shift+A]，最小化/还原 [<未设置>]，保存目录 [/x]，启动提示 [关]"
    );
    assert_eq!(log_line("20260922_211005", "x"), "[20260922_211005] x\n");
}

#[test]
fn readings_in_the_log() {
    let read = Ok(Snapshot {
        text: "划词ab".to_string(),
        process: "Code.exe".to_string(),
        control: String::new(),
        class: String::new(),
    });
    assert_eq!(reading_line(&read), "读取成功：Code.exe / 4 字符");
    let failed = Err(Failure {
        message: "为什么".to_string(),
        process: String::new(),
        control: String::new(),
        class: String::new(),
    });
    assert_eq!(reading_line(&failed), "读取失败：为什么");
}
