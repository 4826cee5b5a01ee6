use std::path::PathBuf;
use text_snap::config::{
    dir, fill, load, path, resolve_save_dir, settings_to_show, Base, Config, Location,
};

fn to_path(location: Location<PathBuf>) -> PathBuf {
    let mut path = match location.base {
        Base::System(path) => path,
        Base::Written(text) => PathBuf::from(text),
    };
    for name in location.names {
        path.push(name);
    }
    path
}

fn config(minimize_hotkey: Option<&str>, save_dir: Option<&str>) -> Config {
    Config {
        hotkey: "Alt+Q".to_string(),
        minimize_hotkey: minimize_hotkey.map(str::to_string),
        save_dir: save_dir.map(str::to_string),
        show_startup_toast: false,
    }
}

fn own_dir() -> Location<PathBuf> {
    dir(Some(PathBuf::from("/data")), PathBuf::from("/tmp"))
}

#[test]
fn the_defaults() {
    let cfg = Config::default();
    assert_eq!(cfg.hotkey, "Ctrl+Shift+A");
    assert_eq!(cfg.minimize_hotkey.as_deref(), Some("Ctrl+Shift+D"));
    assert_eq!(cfg.save_dir, None);
    assert!(cfg.show_startup_toast);
}

#[test]
fn a_blank_shortcut_is_none() {
    assert_eq!(config(None, None).minimize_spec(), None);
    assert_eq!(config(Some(""), None).minimize_spec(), None);
    assert_eq!(config(Some(" \t"), None).minimize_spec(), None);
    assert_eq!(config(Some(" Ctrl+M "), None).minimize_spec(), Some("Ctrl+M"));
    assert_eq!(fill("  "), None);
    assert_eq!(fill(" x y "), Some("x y"));
}

#[test]
fn where_the_settings_are() {
    let data = Some(PathBuf::from("/data"));
    assert_eq!(to_path(dir(data.clone(), PathBuf::from("/tmp"))), PathBuf::from("/data/text-snap"));
    assert_eq!(to_path(dir(None, PathBuf::from("/tmp"))), PathBuf::from("/tmp/text-snap"));
    assert_eq!(
        to_path(path(data, PathBuf::from("/tmp"))),
        PathBuf::from("/data/text-snap/config.json")
    );
}

#[test]
fn where_texts_are_saved() {
    let documents = Some(PathBuf::from("/docs"));
    let written = config(None, Some("  /my texts "));
    assert_eq!(
        to_path(resolve_save_dir(&written, documents.clone(), own_dir())),
        PathBuf::from("/my texts")
    );
    for save_dir in [None, Some(""), Some("  ")] {
        let cfg = config(None, save_dir);
        assert_eq!(
            to_path(resolve_save_dir(&cfg, documents.clone(), own_dir())),
            PathBuf::from("/docs/text-snap")
        );
        assert_eq!(
            to_path(resolve_save_dir(&cfg, None, own_dir())),
            PathBuf::from("/data/text-snap/saved")
        );
    }
}

#[test]
fn settings_that_can_be_read_are_kept() {
    let loaded = load(Some(config(None, Some("/x"))));
    assert_eq!(loaded.config.hotkey, "Alt+Q");
    assert_eq!(loaded.config.save_dir.as_deref(), Some("/x"));
    assert!(!loaded.write);
}

#[test]
fn the_defaults_are_written_out_for_want_of_settings() {
    let loaded = load(None);
    assert_eq!(loaded.config.hotkey, "Ctrl+Shift+A");
    assert!(loaded.write);
}

#[test]
fn the_settings_window_shows_what_is_on_file() {
    let in_force = Config::default();
    let hotkey = |label: &str, on_file: Option<Config>| {
        settings_to_show(label, on_file, &in_force).hotkey
    };
    assert_eq!(hotkey("settings", Some(config(None, None))), "Alt+Q");
    assert_eq!(hotkey("settings", None), "Ctrl+Shift+A");
    assert_eq!(hotkey("main", Some(config(None, None))), "Ctrl+Shift+A");
}

#[test]
fn a_copy_of_the_settings_is_the_same() {
    let cfg = config(Some("Ctrl+M"), Some("/x"));
    let copy = cfg.clone();
    assert_eq!(copy.hotkey, cfg.hotkey);
    assert_eq!(copy.minimize_hotkey, cfg.minimize_hotkey);
    assert_eq!(copy.save_dir, cfg.save_dir);
    assert_eq!(copy.show_startup_toast, cfg.show_startup_toast);
}
