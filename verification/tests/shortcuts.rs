use text_snap::shortcut::{
    parse_code, parse_shortcut, Code, Modifiers, Shortcut, ShortcutError,
};

fn modifiers(control: bool, shift: bool, alt: bool, meta: bool) -> Modifiers {
    Modifiers { control, shift, alt, meta }
}

fn read(text: &str) -> Shortcut {
    match parse_shortcut(text) {
        Ok(shortcut) => shortcut,
        Err(error) => panic!("{}: {}", text, error.message()),
    }
}

fn complaint(text: &str) -> String {
    match parse_shortcut(text) {
        Ok(_) => panic!("{} is a shortcut", text),
        Err(error) => error.message(),
    }
}

#[test]
fn reads_the_documented_shortcuts() {
    assert_eq!(
        read("Ctrl+Shift+A"),
        Shortcut { modifiers: modifiers(true, true, false, false), key: Code::KeyA }
    );
    assert_eq!(
        read("Alt+Q"),
        Shortcut { modifiers: modifiers(false, false, true, false), key: Code::KeyQ }
    );
    assert_eq!(
        read("Ctrl+Alt+F12"),
        Shortcut { modifiers: modifiers(true, false, true, false), key: Code::F12 }
    );
    assert_eq!(
        read("Ctrl+Shift+Space"),
        Shortcut { modifiers: modifiers(true, true, false, false), key: Code::Space }
    );
}

#[test]
fn knows_all_names_of_modifiers() {
    for name in ["Ctrl", "Control"] {
        assert_eq!(read(&format!("{}+1", name)).modifiers, modifiers(true, false, false, false));
    }
    assert_eq!(read("shift+1").modifiers, modifiers(false, true, false, false));
    assert_eq!(read("ALT+1").modifiers, modifiers(false, false, true, false));
    for name in ["Win", "Super", "Meta", "Cmd"] {
        assert_eq!(read(&format!("{}+1", name)).modifiers, modifiers(false, false, false, true));
    }
}

#[test]
fn knows_all_names_of_keys() {
    let table = [
        ("A", Code::KeyA), ("B", Code::KeyB), ("C", Code::KeyC), ("D", Code::KeyD),
        ("E", Code::KeyE), ("F", Code::KeyF), ("G", Code::KeyG), ("H", Code::KeyH),
        ("I", Code::KeyI), ("J", Code::KeyJ), ("K", Code::KeyK), ("L", Code::KeyL),
        ("M", Code::KeyM), ("N", Code::KeyN), ("O", Code::KeyO), ("P", Code::KeyP),
        ("Q", Code::KeyQ), ("R", Code::KeyR), ("S", Code::KeyS), ("T", Code::KeyT),
        ("U", Code::KeyU), ("V", Code::KeyV), ("W", Code::KeyW), ("X", Code::KeyX),
        ("Y", Code::KeyY), ("Z", Code::KeyZ),
        ("0", Code::Digit0), ("1", Code::Digit1), ("2", Code::Digit2), ("3", Code::Digit3),
        ("4", Code::Digit4), ("5", Code::Digit5), ("6", Code::Digit6), ("7", Code::Digit7),
        ("8", Code::Digit8), ("9", Code::Digit9),
        ("F1", Code::F1), ("F2", Code::F2), ("F3", Code::F3), ("F4", Code::F4),
        ("F5", Code::F5), ("F6", Code::F6), ("F7", Code::F7), ("F8", Code::F8),
        ("F9", Code::F9), ("F10", Code::F10), ("F11", Code::F11), ("F12", Code::F12),
        ("Space", Code::Space), ("Enter", Code::Enter), ("Return", Code::Enter),
        ("Tab", Code::Tab), ("Esc", Code::Escape), ("Escape", Code::Escape),
        ("Minus", Code::Minus), ("-", Code::Minus), ("Equal", Code::Equal), ("=", Code::Equal),
        ("Comma", Code::Comma), (",", Code::Comma), ("Period", Code::Period),
        (".", Code::Period), ("Slash", Code::Slash), ("/", Code::Slash),
        ("Semicolon", Code::Semicolon), (";", Code::Semicolon), ("Quote", Code::Quote),
        ("'", Code::Quote), ("Backquote", Code::Backquote), ("`", Code::Backquote),
        ("BracketLeft", Code::BracketLeft), ("[", Code::BracketLeft),
        ("BracketRight", Code::BracketRight), ("]", Code::BracketRight),
    ];
    for (name, code) in table {
        for spelling in [name.to_string(), name.to_lowercase(), name.to_uppercase()] {
            match parse_code(&spelling) {
                Ok(found) => assert_eq!(found, code),
                Err(error) => panic!("{}", error.message()),
            }
        }
    }
    for (i, (_, a)) in table.iter().enumerate() {
        for (_, b) in table.iter().take(i) {
            if a == b {
                assert!(matches!(
                    a,
                    Code::Enter | Code::Escape | Code::Minus | Code::Equal | Code::Comma
                        | Code::Period | Code::Slash | Code::Semicolon | Code::Quote
                        | Code::Backquote | Code::BracketLeft | Code::BracketRight
                ));
            }
        }
    }
}

#[test]
fn refuses_unknown_keys() {
    assert!(matches!(parse_code("F13"), Err(ShortcutError::UnknownKey(_))));
    assert!(matches!(parse_code(""), Err(ShortcutError::UnknownKey(_))));
    assert_eq!(complaint("Ctrl+Numpad0"), "认不出的按键：NUMPAD0");
    assert_eq!(complaint("foo"), "认不出的按键：FOO");
}

#[test]
fn an_unknown_first_key_comes_before_a_second_one() {
    assert_eq!(complaint("Ctrl+foo+A"), "认不出的按键：FOO");
    assert_eq!(complaint("Ctrl+A+foo"), "快捷键里出现了多个主键：Ctrl+A+foo");
}

#[test]
fn refuses_several_keys() {
    assert_eq!(complaint("Ctrl+A+B"), "快捷键里出现了多个主键：Ctrl+A+B");
    assert_eq!(complaint("A+A"), "快捷键里出现了多个主键：A+A");
}

#[test]
fn refuses_no_key() {
    assert_eq!(complaint("Ctrl+Shift"), "快捷键缺少主键，例如 Ctrl+Shift+A");
    assert_eq!(complaint(""), "快捷键缺少主键，例如 Ctrl+Shift+A");
    assert_eq!(complaint(" + + "), "快捷键缺少主键，例如 Ctrl+Shift+A");
}

#[test]
fn a_shortcut_has_a_modifier() {
    assert_eq!(
        complaint("A"),
        "快捷键至少要有一个修饰键（Ctrl / Shift / Alt / Win），否则会抢走正常输入"
    );
    assert!(!read("Win+Space").modifiers.is_empty());
    assert!(modifiers(false, false, false, false).is_empty());
}

#[test]
fn case_and_space_do_not_matter() {
    let expected = read("Ctrl+Shift+A");
    assert_eq!(read("cTRL+sHIFT+a"), expected);
    assert_eq!(read("  ctrl + shift +\ta \u{3000}"), expected);
    assert_eq!(read("A+Shift+Ctrl"), expected);
    assert_eq!(read("Ctrl++Shift++A+"), expected);
    assert_eq!(read("Ctrl+Ctrl+Shift+A"), expected);
}
