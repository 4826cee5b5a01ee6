use text_snap::config::Config;
use text_snap::settings::{
    apply_settings, enter, is_clash, on_shortcut, register_shortcuts, Effect, Registration, SettingsChange, Slot,
};
use text_snap::shortcut::{parse_shortcut, Code, Shortcut};
use text_snap::tray::TrayAction;

fn shortcut(text: &str) -> Shortcut {
    match parse_shortcut(text) {
        Ok(shortcut) => shortcut,
        Err(error) => panic!("{}", error.message()),
    }
}

fn config(hotkey: &str, minimize: Option<&str>) -> Config {
    Config {
        hotkey: hotkey.to_string(),
        minimize_hotkey: minimize.map(str::to_string),
        save_dir: None,
        show_startup_toast: true,
    }
}

/// A system in which some keys are held by other programs.
struct System {
    taken: Vec<Code>,
    disk_full: bool,
    held: Vec<(Slot, Shortcut)>,
    written: Option<String>,
    asked: usize,
}

impl System {
    fn new(taken: Vec<Code>) -> System {
        System { taken, disk_full: false, held: Vec::new(), written: None, asked: 0 }
    }

    fn perform(&mut self, effect: Effect, next: Option<&Config>) -> Result<(), String> {
        self.asked += 1;
        match effect {
            Effect::UnregisterAll => {
                self.held.clear();
                Ok(())
            }
            Effect::Register { slot, shortcut } => {
                if self.taken.contains(&shortcut.key) {
                    Err("busy".to_string())
                } else {
                    self.held.push((slot, shortcut));
                    Ok(())
                }
            }
            Effect::WriteConfig => {
                if self.disk_full {
                    Err("disk full".to_string())
                } else {
                    self.written = next.map(|cfg| cfg.hotkey.clone());
                    Ok(())
                }
            }
            Effect::Finish => panic!("nothing is left to do"),
        }
    }

    fn register(&mut self, mut registration: Registration) -> Result<(), String> {
        while registration.effect() != Effect::Finish {
            let reply = self.perform(registration.effect(), None);
            registration.reply(reply);
        }
        registration.result().unwrap().map_err(|refusal| refusal.message)
    }

    fn change(&mut self, mut change: SettingsChange) -> SettingsChange {
        while change.effect() != Effect::Finish {
            let reply = self.perform(change.effect(), Some(change.next_config()));
            change = change.reply(reply);
        }
        change
    }
}

fn started(cfg: &Config, taken: Vec<Code>) -> System {
    let mut system = System::new(Vec::new());
    assert_eq!(system.register(register_shortcuts(cfg)), Ok(()));
    system.taken = taken;
    system
}

#[test]
fn registers_both_shortcuts() {
    let cfg = config("Ctrl+Shift+A", Some("Ctrl+Shift+D"));
    let system = started(&cfg, Vec::new());
    assert_eq!(
        system.held,
        vec![(Slot::Read, shortcut("Ctrl+Shift+A")), (Slot::Minimize, shortcut("Ctrl+Shift+D"))]
    );
}

#[test]
fn a_blank_shortcut_is_not_registered() {
    let system = started(&config("Ctrl+Shift+A", Some("  ")), Vec::new());
    assert_eq!(system.held, vec![(Slot::Read, shortcut("Ctrl+Shift+A"))]);
    let system = started(&config("Ctrl+Shift+A", None), Vec::new());
    assert_eq!(system.held.len(), 1);
}

#[test]
fn registration_can_fail_in_four_ways() {
    let mut system = System::new(vec![Code::KeyX]);
    let mut complain = |hotkey: &str, minimize: &str| {
        system.register(register_shortcuts(&config(hotkey, Some(minimize)))).unwrap_err()
    };
    assert_eq!(
        complain("Ctrl+", "Ctrl+D"),
        "读取快捷键「Ctrl+」无效：快捷键缺少主键，例如 Ctrl+Shift+A"
    );
    assert_eq!(complain("Ctrl+X", "Ctrl+D"), "「Ctrl+X」注册失败，可能已被别的程序占用：busy");
    assert_eq!(
        complain("Ctrl+A", " Ctrl+Foo "),
        "最小化/还原快捷键「Ctrl+Foo」无效：认不出的按键：FOO"
    );
    assert_eq!(complain("Ctrl+A", "Alt+X"), "「Alt+X」注册失败，可能已被别的程序占用：busy");
}

#[test]
fn what_is_entered_is_trimmed() {
    let cfg = enter(" Alt+Q ", "  ", "\t", false);
    assert_eq!(cfg.hotkey, "Alt+Q");
    assert_eq!(cfg.minimize_hotkey, None);
    assert_eq!(cfg.save_dir, None);
    assert!(!cfg.show_startup_toast);
    let cfg = enter("Alt+Q", " Alt+W", "D:\\texts ", true);
    assert_eq!(cfg.minimize_hotkey.as_deref(), Some("Alt+W"));
    assert_eq!(cfg.save_dir.as_deref(), Some("D:\\texts"));
    assert!(cfg.show_startup_toast);
}

#[test]
fn a_change_takes_effect() {
    let previous = Config::default();
    let mut system = started(&previous, Vec::new());
    let change = system.change(apply_settings(&previous, "Alt+Q", "", "D:\\x", false));
    assert_eq!(change.result(), Some(Ok(())));
    assert_eq!(change.in_force().hotkey, "Alt+Q");
    assert_eq!(change.in_force().save_dir.as_deref(), Some("D:\\x"));
    assert_eq!(system.written.as_deref(), Some("Alt+Q"));
    assert_eq!(system.held, vec![(Slot::Read, shortcut("Alt+Q"))]);
}

fn assert_undone(change: &SettingsChange, system: &System) {
    assert_eq!(change.in_force().hotkey, "Ctrl+Shift+A");
    assert_eq!(system.written, None);
    assert_eq!(
        system.held,
        vec![(Slot::Read, shortcut("Ctrl+Shift+A")), (Slot::Minimize, shortcut("Ctrl+Shift+D"))]
    );
}

#[test]
fn a_shortcut_in_use_elsewhere_is_rolled_back() {
    let previous = Config::default();
    let mut system = started(&previous, vec![Code::KeyQ]);
    let change = system.change(apply_settings(&previous, "Alt+Q", "Alt+W", "", true));
    assert_eq!(
        change.result(),
        Some(Err("「Alt+Q」注册失败，可能已被别的程序占用：busy".to_string()))
    );
    assert_undone(&change, &system);

    let mut system = started(&previous, vec![Code::KeyW]);
    let change = system.change(apply_settings(&previous, "Alt+Q", "Alt+W", "", true));
    assert_eq!(
        change.result(),
        Some(Err("「Alt+W」注册失败，可能已被别的程序占用：busy".to_string()))
    );
    assert_undone(&change, &system);
}

#[test]
fn a_shortcut_that_makes_no_sense_is_rolled_back() {
    let previous = Config::default();
    let mut system = started(&previous, Vec::new());
    let change = system.change(apply_settings(&previous, "Q", "Alt+W", "", true));
    assert_eq!(
        change.result(),
        Some(Err(
            "读取快捷键「Q」无效：快捷键至少要有一个修饰键（Ctrl / Shift / Alt / Win），否则会抢走正常输入"
                .to_string()
        ))
    );
    assert_undone(&change, &system);
}

#[test]
fn settings_that_cannot_be_written_are_rolled_back() {
    let previous = Config::default();
    let mut system = started(&previous, Vec::new());
    system.disk_full = true;
    system.asked = 0;
    let change = system.change(apply_settings(&previous, "Alt+Q", "Alt+W", "", true));
    assert_eq!(change.result(), Some(Err("写配置文件失败：disk full".to_string())));
    assert_undone(&change, &system);
    assert_eq!(system.asked, 7);
}

#[test]
fn one_shortcut_for_both_purposes_is_refused() {
    let previous = Config::default();
    let mut system = started(&previous, Vec::new());
    system.asked = 0;
    let change = system.change(apply_settings(&previous, "Alt+Q", " alt+q ", "", true));
    assert_eq!(
        change.result(),
        Some(Err("「读取选中文本」和「最小化/还原编辑器」不能使用同一个快捷键".to_string()))
    );
    assert_eq!(system.asked, 0);
    assert_undone(&change, &system);
    assert!(is_clash(&config("Alt+Q", Some("ALT+q"))));
    assert!(!is_clash(&config("Alt+Q", Some("Alt+W"))));
    assert!(!is_clash(&config("", Some(" "))));
}

#[test]
fn a_failed_rollback_reports_the_first_error() {
    let previous = Config::default();
    let mut system = started(&previous, vec![Code::KeyQ, Code::KeyA]);
    let change = system.change(apply_settings(&previous, "Alt+Q", "", "", true));
    assert_eq!(
        change.result(),
        Some(Err("「Alt+Q」注册失败，可能已被别的程序占用：busy".to_string()))
    );
    assert_eq!(change.in_force().hotkey, "Ctrl+Shift+A");
    assert_eq!(system.held, Vec::new());
}

#[test]
fn a_change_under_way_has_no_result() {
    let previous = Config::default();
    let change = apply_settings(&previous, "Alt+Q", "", "", true);
    assert_eq!(change.effect(), Effect::UnregisterAll);
    assert_eq!(change.result(), None);
    assert_eq!(change.in_force().hotkey, "Ctrl+Shift+A");
    assert!(register_shortcuts(&previous).result().is_none());
}

#[test]
fn the_defaults_can_be_registered() {
    let cfg = Config::default();
    assert!(!is_clash(&cfg));
    assert_eq!(started(&cfg, Vec::new()).held.len(), 2);
}

#[test]
fn only_a_press_counts() {
    assert_eq!(on_shortcut(Slot::Read, true), TrayAction::Read);
    assert_eq!(on_shortcut(Slot::Minimize, true), TrayAction::ToggleEditors);
    assert_eq!(on_shortcut(Slot::Read, false), TrayAction::Ignore);
    assert_eq!(on_shortcut(Slot::Minimize, false), TrayAction::Ignore);
}

#[test]
fn a_shortcut_taken_at_startup_can_be_changed() {
    let previous = Config::default();
    let mut system = System::new(vec![Code::KeyA]);
    let mut registration = register_shortcuts(&previous);
    while registration.effect() != Effect::Finish {
        let reply = system.perform(registration.effect(), None);
        registration.reply(reply);
    }
    let refusal = registration.result().unwrap().unwrap_err();
    assert_eq!(refusal.text, "Ctrl+Shift+A");
    assert_eq!(refusal.message, "「Ctrl+Shift+A」注册失败，可能已被别的程序占用：busy");
    assert_eq!(system.held, Vec::new());

    let change = system.change(apply_settings(&previous, "Alt+Q", "", "", true));
    assert_eq!(change.result(), Some(Ok(())));
    assert_eq!(system.held, vec![(Slot::Read, shortcut("Alt+Q"))]);
}
