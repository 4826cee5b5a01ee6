use text_snap::text::{
    contains, file_name, is_control, is_whitespace, same, same_ignoring_case, split, to_decimal,
    to_lower, to_padded, to_upper, trim,
};

const SAMPLES: [&str; 14] = [
    "",
    " ",
    "a",
    " a ",
    "\t\r\n a b \u{3000}\u{a0}",
    "\u{2028}\u{85}划词 助手\u{202f}",
    "\u{200b}zero width space is none\u{200b}",
    "a\u{1680}b\u{205f}",
    "++",
    "Ctrl+Shift+A",
    "+a+",
    "ÄÖÜäöüß",
    "first\nsecond\r\nthird",
    "\u{feff}mark",
];

#[test]
fn white_space_is_that_of_unicode() {
    for c in '\0'..=char::MAX {
        assert_eq!(is_whitespace(c), c.is_whitespace(), "{:?}", c);
    }
}

#[test]
fn control_characters_are_those_of_unicode() {
    for c in '\0'..=char::MAX {
        assert_eq!(is_control(c), c.is_control(), "{:?}", c);
    }
}

#[test]
fn trims_like_a_string() {
    for s in SAMPLES {
        assert_eq!(trim(s), s.trim());
    }
    assert_eq!(trim("  Alt+Q\t"), "Alt+Q");
    assert_eq!(trim(" \u{3000} "), "");
}

#[test]
fn trimming_twice_is_trimming_once() {
    for s in SAMPLES {
        assert_eq!(trim(trim(s)), trim(s));
    }
}

#[test]
fn splits_like_a_string() {
    for s in SAMPLES {
        for sep in ['+', '\n', ' '] {
            let expected: Vec<&str> = s.split(sep).collect();
            assert_eq!(split(s, sep), expected);
        }
    }
    assert_eq!(split("", '+'), vec![""]);
    assert_eq!(split("a++b", '+'), vec!["a", "", "b"]);
}

#[test]
fn changes_the_case_of_ascii_letters_only() {
    for s in SAMPLES {
        assert_eq!(to_lower(s), s.to_ascii_lowercase());
        assert_eq!(to_upper(s), s.to_ascii_uppercase());
    }
    assert_eq!(to_lower("CoDe.EXE [Z@"), "code.exe [z@");
    assert_eq!(to_upper("bracketleft`{"), "BRACKETLEFT`{");
}

#[test]
fn compares_strings() {
    assert!(same("md", "md"));
    assert!(!same("md", "mD"));
    assert!(!same("md", "mdx"));
    assert!(same("", ""));
    assert!(same_ignoring_case("ctrl+SHIFT+a", "Ctrl+Shift+A"));
    assert!(!same_ignoring_case("ä", "Ä"));
}

#[test]
fn finds_a_string_in_another() {
    for s in SAMPLES {
        for needle in ["", "a", "+", "Shift", "second\r", "划词", "nowhere", "++"] {
            assert_eq!(contains(s, needle), s.contains(needle), "{:?} {:?}", s, needle);
        }
    }
    assert!(contains("aab", "ab"));
    assert!(!contains("ab", "abc"));
}

#[test]
fn takes_the_last_name_of_a_path() {
    assert_eq!(file_name("C:\\Program Files\\Code.exe"), "Code.exe");
    assert_eq!(file_name("a/b\\c/d"), "d");
    assert_eq!(file_name("plain"), "plain");
    assert_eq!(file_name("C:\\dir\\"), "");
    assert_eq!(file_name(""), "");
}

#[test]
fn writes_numbers_in_decimal() {
    for n in [0u64, 1, 9, 10, 99, 100, 20260922, u64::MAX] {
        assert_eq!(to_decimal(n), n.to_string());
        assert_eq!(to_padded(n, 4), format!("{:04}", n));
    }
    assert_eq!(to_padded(7, 2), "07");
    assert_eq!(to_padded(0, 0), "0");
}
