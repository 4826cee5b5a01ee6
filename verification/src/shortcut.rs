//! Keyboard shortcuts as they are written in the settings, such as `Ctrl+Shift+A`.
use crate::text::{
    lemma_last_piece_grows, lemma_some_piece, lower, lower_char, pieces, same, slice_views, split,
    to_lower, to_upper, trim, trim_end, trim_start, trimmed, upper, white,
};
use vstd::prelude::*;

verus! {

/// A key, named by where it sits on the keyboard.
#[derive(Clone, Copy, Debug, PartialEq, Eq, Structural)]
pub enum Code {
    KeyA,
    KeyB,
    KeyC,
    KeyD,
    KeyE,
    KeyF,
    KeyG,
    KeyH,
    KeyI,
    KeyJ,
    KeyK,
    KeyL,
    KeyM,
    KeyN,
    KeyO,
    KeyP,
    KeyQ,
    KeyR,
    KeyS,
    KeyT,
    KeyU,
    KeyV,
    KeyW,
    KeyX,
    KeyY,
    KeyZ,
    Digit0,
    Digit1,
    Digit2,
    Digit3,
    Digit4,
    Digit5,
    Digit6,
    Digit7,
    Digit8,
    Digit9,
    F1,
    F2,
    F3,
    F4,
    F5,
    F6,
    F7,
    F8,
    F9,
    F10,
    F11,
    F12,
    Space,
    Enter,
    Tab,
    Escape,
    Minus,
    Equal,
    Comma,
    Period,
    Slash,
    Semicolon,
    Quote,
    Backquote,
    BracketLeft,
    BracketRight,
}

/// The modifier keys that are held down with the key.
#[derive(Clone, Copy, Debug, PartialEq, Eq, Structural)]
pub struct Modifiers {
    pub control: bool,
    pub shift: bool,
    pub alt: bool,
    pub meta: bool,
}

/// A key with the modifiers that go with it.
#[derive(Clone, Copy, Debug, PartialEq, Eq, Structural)]
pub struct Shortcut {
    pub modifiers: Modifiers,
    pub key: Code,
}

/// Why a text does not describe a shortcut.
#[derive(Debug)]
pub enum ShortcutError {
    /// A part that is neither a modifier nor a known key, in upper case.
    UnknownKey(String),
    /// More than one key; the whole text.
    SeveralKeys(String),
    NoKey,
    NoModifier,
}

pub enum ShortcutErrorView {
    UnknownKey(Seq<char>),
    SeveralKeys(Seq<char>),
    NoKey,
    NoModifier,
}

impl View for ShortcutError {
    type V = ShortcutErrorView;

    open spec fn view(&self) -> ShortcutErrorView {
        match *self {
            ShortcutError::UnknownKey(name) => ShortcutErrorView::UnknownKey(name@),
            ShortcutError::SeveralKeys(text) => ShortcutErrorView::SeveralKeys(text@),
            ShortcutError::NoKey => ShortcutErrorView::NoKey,
            ShortcutError::NoModifier => ShortcutErrorView::NoModifier,
        }
    }
}

pub open spec fn error_text(error: ShortcutErrorView) -> Seq<char> {
    match error {
        ShortcutErrorView::UnknownKey(name) => "认不出的按键："@ + name,
        ShortcutErrorView::SeveralKeys(text) => "快捷键里出现了多个主键："@ + text,
        ShortcutErrorView::NoKey => "快捷键缺少主键，例如 Ctrl+Shift+A"@,
        ShortcutErrorView::NoModifier =>
            "快捷键至少要有一个修饰键（Ctrl / Shift / Alt / Win），否则会抢走正常输入"@,
    }
}

impl ShortcutError {
    /// What the user is told.
    pub fn message(&self) -> (r: String)
        ensures
            r@ == error_text(self@),
    {
        match self {
            ShortcutError::UnknownKey(name) => "认不出的按键：".to_owned().concat(name.as_str()),
            ShortcutError::SeveralKeys(text) => "快捷键里出现了多个主键：".to_owned().concat(
                text.as_str(),
            ),
            ShortcutError::NoKey => "快捷键缺少主键，例如 Ctrl+Shift+A".to_owned(),
            ShortcutError::NoModifier =>
                "快捷键至少要有一个修饰键（Ctrl / Shift / Alt / Win），否则会抢走正常输入".to_owned(),
        }
    }
}

// ── Keys ──

/// The key that a name in upper case stands for.
pub open spec fn key_named(name: Seq<char>) -> Option<Code> {
    if name == "A"@ {
        Some(Code::KeyA)
    } else if name == "B"@ {
        Some(Code::KeyB)
    } else if name == "C"@ {
        Some(Code::KeyC)
    } else if name == "D"@ {
        Some(Code::KeyD)
    } else if name == "E"@ {
        Some(Code::KeyE)
    } else if name == "F"@ {
        Some(Code::KeyF)
    } else if name == "G"@ {
        Some(Code::KeyG)
    } else if name == "H"@ {
        Some(Code::KeyH)
    } else if name == "I"@ {
        Some(Code::KeyI)
    } else if name == "J"@ {
        Some(Code::KeyJ)
    } else if name == "K"@ {
        Some(Code::KeyK)
    } else if name == "L"@ {
        Some(Code::KeyL)
    } else if name == "M"@ {
        Some(Code::KeyM)
    } else if name == "N"@ {
        Some(Code::KeyN)
    } else if name == "O"@ {
        Some(Code::KeyO)
    } else if name == "P"@ {
        Some(Code::KeyP)
    } else if name == "Q"@ {
        Some(Code::KeyQ)
    } else if name == "R"@ {
        Some(Code::KeyR)
    } else if name == "S"@ {
        Some(Code::KeyS)
    } else if name == "T"@ {
        Some(Code::KeyT)
    } else if name == "U"@ {
        Some(Code::KeyU)
    } else if name == "V"@ {
        Some(Code::KeyV)
    } else if name == "W"@ {
        Some(Code::KeyW)
    } else if name == "X"@ {
        Some(Code::KeyX)
    } else if name == "Y"@ {
        Some(Code::KeyY)
    } else if name == "Z"@ {
        Some(Code::KeyZ)
    } else if name == "0"@ {
        Some(Code::Digit0)
    } else if name == "1"@ {
        Some(Code::Digit1)
    } else if name == "2"@ {
        Some(Code::Digit2)
    } else if name == "3"@ {
        Some(Code::Digit3)
    } else if name == "4"@ {
        Some(Code::Digit4)
    } else if name == "5"@ {
        Some(Code::Digit5)
    } else if name == "6"@ {
        Some(Code::Digit6)
    } else if name == "7"@ {
        Some(Code::Digit7)
    } else if name == "8"@ {
        Some(Code::Digit8)
    } else if name == "9"@ {
        Some(Code::Digit9)
    } else if name == "F1"@ {
        Some(Code::F1)
    } else if name == "F2"@ {
        Some(Code::F2)
    } else if name == "F3"@ {
        Some(Code::F3)
    } else if name == "F4"@ {
        Some(Code::F4)
    } else if name == "F5"@ {
        Some(Code::F5)
    } else if name == "F6"@ {
        Some(Code::F6)
    } else if name == "F7"@ {
        Some(Code::F7)
    } else if name == "F8"@ {
        Some(Code::F8)
    } else if name == "F9"@ {
        Some(Code::F9)
    } else if name == "F10"@ {
        Some(Code::F10)
    } else if name == "F11"@ {
        Some(Code::F11)
    } else if name == "F12"@ {
        Some(Code::F12)
    } else if name == "SPACE"@ {
        Some(Code::Space)
    } else if name == "ENTER"@ || name == "RETURN"@ {
        Some(Code::Enter)
    } else if name == "TAB"@ {
        Some(Code::Tab)
    } else if name == "ESC"@ || name == "ESCAPE"@ {
        Some(Code::Escape)
    } else if name == "MINUS"@ || name == "-"@ {
        Some(Code::Minus)
    } else if name == "EQUAL"@ || name == "="@ {
        Some(Code::Equal)
    } else if name == "COMMA"@ || name == ","@ {
        Some(Code::Comma)
    } else if name == "PERIOD"@ || name == "."@ {
        Some(Code::Period)
    } else if name == "SLASH"@ || name == "/"@ {
        Some(Code::Slash)
    } else if name == "SEMICOLON"@ || name == ";"@ {
        Some(Code::Semicolon)
    } else if name == "QUOTE"@ || name == "'"@ {
        Some(Code::Quote)
    } else if name == "BACKQUOTE"@ || name == "`"@ {
        Some(Code::Backquote)
    } else if name == "BRACKETLEFT"@ || name == "["@ {
        Some(Code::BracketLeft)
    } else if name == "BRACKETRIGHT"@ || name == "]"@ {
        Some(Code::BracketRight)
    } else {
        None
    }
}

/// Finds the key of a name, whatever the case of its letters.
pub fn parse_code(name: &str) -> (r: Result<Code, ShortcutError>)
    ensures
        match key_named(upper(name@)) {
            Some(code) => r == Ok::<Code, ShortcutError>(code),
            None => r is Err && r->Err_0@ == ShortcutErrorView::UnknownKey(upper(name@)),
        },
{
    let upper_name = to_upper(name);
    let name: &str = upper_name.as_str();
    let code = if same(name, "A") {
        Code::KeyA
    } else if same(name, "B") {
        Code::KeyB
    } else if same(name, "C") {
        Code::KeyC
    } else if same(name, "D") {
        Code::KeyD
    } else if same(name, "E") {
        Code::KeyE
    } else if same(name, "F") {
        Code::KeyF
    } else if same(name, "G") {
        Code::KeyG
    } else if same(name, "H") {
        Code::KeyH
    } else if same(name, "I") {
        Code::KeyI
    } else if same(name, "J") {
        Code::KeyJ
    } else if same(name, "K") {
        Code::KeyK
    } else if same(name, "L") {
        Code::KeyL
    } else if same(name, "M") {
        Code::KeyM
    } else if same(name, "N") {
        Code::KeyN
    } else if same(name, "O") {
        Code::KeyO
    } else if same(name, "P") {
        Code::KeyP
    } else if same(name, "Q") {
        Code::KeyQ
    } else if same(name, "R") {
        Code::KeyR
    } else if same(name, "S") {
        Code::KeyS
    } else if same(name, "T") {
        Code::KeyT
    } else if same(name, "U") {
        Code::KeyU
    } else if same(name, "V") {
        Code::KeyV
    } else if same(name, "W") {
        Code::KeyW
    } else if same(name, "X") {
        Code::KeyX
    } else if same(name, "Y") {
        Code::KeyY
    } else if same(name, "Z") {
        Code::KeyZ
    } else if same(name, "0") {
        Code::Digit0
    } else if same(name, "1") {
        Code::Digit1
    } else if same(name, "2") {
        Code::Digit2
    } else if same(name, "3") {
        Code::Digit3
    } else if same(name, "4") {
        Code::Digit4
    } else if same(name, "5") {
        Code::Digit5
    } else if same(name, "6") {
        Code::Digit6
    } else if same(name, "7") {
        Code::Digit7
    } else if same(name, "8") {
        Code::Digit8
    } else if same(name, "9") {
        Code::Digit9
    } else if same(name, "F1") {
        Code::F1
    } else if same(name, "F2") {
        Code::F2
    } else if same(name, "F3") {
        Code::F3
    } else if same(name, "F4") {
        Code::F4
    } else if same(name, "F5") {
        Code::F5
    } else if same(name, "F6") {
        Code::F6
    } else if same(name, "F7") {
        Code::F7
    } else if same(name, "F8") {
        Code::F8
    } else if same(name, "F9") {
        Code::F9
    } else if same(name, "F10") {
        Code::F10
    } else if same(name, "F11") {
        Code::F11
    } else if same(name, "F12") {
        Code::F12
    } else if same(name, "SPACE") {
        Code::Space
    } else if same(name, "ENTER") || same(name, "RETURN") {
        Code::Enter
    } else if same(name, "TAB") {
        Code::Tab
    } else if same(name, "ESC") || same(name, "ESCAPE") {
        Code::Escape
    } else if same(name, "MINUS") || same(name, "-") {
        Code::Minus
    } else if same(name, "EQUAL") || same(name, "=") {
        Code::Equal
    } else if same(name, "COMMA") || same(name, ",") {
        Code::Comma
    } else if same(name, "PERIOD") || same(name, ".") {
        Code::Period
    } else if same(name, "SLASH") || same(name, "/") {
        Code::Slash
    } else if same(name, "SEMICOLON") || same(name, ";") {
        Code::Semicolon
    } else if same(name, "QUOTE") || same(name, "'") {
        Code::Quote
    } else if same(name, "BACKQUOTE") || same(name, "`") {
        Code::Backquote
    } else if same(name, "BRACKETLEFT") || same(name, "[") {
        Code::BracketLeft
    } else if same(name, "BRACKETRIGHT") || same(name, "]") {
        Code::BracketRight
    } else {
        return Err(ShortcutError::UnknownKey(upper_name));
    };
    Ok(code)
}

// ── Whole shortcuts ──

#[derive(Clone, Copy, Debug, PartialEq, Eq, Structural)]
pub enum Modifier {
    Control,
    Shift,
    Alt,
    Meta,
}

/// The modifier that a name in lower case stands for.
pub open spec fn modifier_named(name: Seq<char>) -> Option<Modifier> {
    if name == "ctrl"@ || name == "control"@ {
        Some(Modifier::Control)
    } else if name == "shift"@ {
        Some(Modifier::Shift)
    } else if name == "alt"@ {
        Some(Modifier::Alt)
    } else if name == "win"@ || name == "super"@ || name == "meta"@ || name == "cmd"@ {
        Some(Modifier::Meta)
    } else {
        None
    }
}

/// The texts between the plus signs, each without white space around it.
pub open spec fn parts(text: Seq<char>) -> Seq<Seq<char>> {
    pieces(text, '+').map_values(|piece: Seq<char>| trimmed(piece))
}

/// A part that asks for a modifier.
pub open spec fn asks_for(part: Seq<char>, modifier: Modifier) -> bool {
    modifier_named(lower(part)) == Some(modifier)
}

/// A part that has to name a key: neither empty nor a modifier.
pub open spec fn key_part(part: Seq<char>) -> bool {
    part.len() > 0 && modifier_named(lower(part)) is None
}

pub open spec fn key_parts(parts: Seq<Seq<char>>) -> Seq<Seq<char>> {
    parts.filter(|part: Seq<char>| key_part(part))
}

pub open spec fn any_asks_for(parts: Seq<Seq<char>>, modifier: Modifier) -> bool {
    exists|i: int| 0 <= i < parts.len() && asks_for(#[trigger] parts[i], modifier)
}

pub open spec fn modifiers_of(parts: Seq<Seq<char>>) -> Modifiers {
    Modifiers {
        control: any_asks_for(parts, Modifier::Control),
        shift: any_asks_for(parts, Modifier::Shift),
        alt: any_asks_for(parts, Modifier::Alt),
        meta: any_asks_for(parts, Modifier::Meta),
    }
}

impl Modifiers {
    pub open spec fn none(self) -> bool {
        !self.control && !self.shift && !self.alt && !self.meta
    }

    /// Whether no modifier is held down.
    pub fn is_empty(&self) -> (r: bool)
        ensures
            r == self.none(),
    {
        !self.control && !self.shift && !self.alt && !self.meta
    }
}

/// What a text means as a shortcut. Of several faults the leftmost counts: the
/// first key that is unknown comes before a second key.
pub open spec fn shortcut_of(text: Seq<char>) -> Result<Shortcut, ShortcutErrorView> {
    let parts = parts(text);
    let keys = key_parts(parts);
    let modifiers = modifiers_of(parts);
    if keys.len() == 0 {
        Err(ShortcutErrorView::NoKey)
    } else {
        match key_named(upper(keys[0])) {
            None => Err(ShortcutErrorView::UnknownKey(upper(keys[0]))),
            Some(key) => if keys.len() > 1 {
                Err(ShortcutErrorView::SeveralKeys(text))
            } else if modifiers.none() {
                Err(ShortcutErrorView::NoModifier)
            } else {
                Ok(Shortcut { modifiers, key })
            },
        }
    }
}

/// A result by its view.
pub open spec fn result_view(r: Result<Shortcut, ShortcutError>) -> Result<
    Shortcut,
    ShortcutErrorView,
> {
    match r {
        Ok(shortcut) => Ok(shortcut),
        Err(error) => Err(error@),
    }
}

proof fn lemma_upper_of_lower(s: Seq<char>)
    ensures
        upper(lower(s)) == upper(s),
{
    assert forall|i: int| 0 <= i < s.len() implies upper(lower(s))[i] == upper(s)[i] by {}
}

proof fn lemma_key_parts_extend(parts: Seq<Seq<char>>, i: int)
    requires
        0 <= i < parts.len(),
    ensures
        key_parts(parts.take(i + 1)) == if key_part(parts[i]) {
            key_parts(parts.take(i)).push(parts[i])
        } else {
            key_parts(parts.take(i))
        },
{
    reveal(Seq::filter);
    assert(parts.take(i + 1).drop_last() == parts.take(i));
}

/// The key parts of a list start with those of its beginning.
proof fn lemma_key_parts_prefix(parts: Seq<Seq<char>>, i: int)
    requires
        0 <= i <= parts.len(),
    ensures
        key_parts(parts.take(i)).len() <= key_parts(parts).len(),
        forall|k: int|
            0 <= k < key_parts(parts.take(i)).len() ==> key_parts(parts)[k] == #[trigger] key_parts(
                parts.take(i),
            )[k],
    decreases parts.len() - i,
{
    if i < parts.len() {
        lemma_key_parts_prefix(parts, i + 1);
        lemma_key_parts_extend(parts, i);
        assert forall|k: int| 0 <= k < key_parts(parts.take(i)).len() implies key_parts(parts)[k]
            == #[trigger] key_parts(parts.take(i))[k] by {
            assert(key_parts(parts.take(i + 1))[k] == key_parts(parts.take(i))[k]);
        }
    } else {
        assert(parts.take(i) == parts);
    }
}

proof fn lemma_asks_extend(parts: Seq<Seq<char>>, i: int, modifier: Modifier)
    requires
        0 <= i < parts.len(),
    ensures
        any_asks_for(parts.take(i + 1), modifier) == (any_asks_for(parts.take(i), modifier)
            || asks_for(parts[i], modifier)),
{
    let shorter = parts.take(i);
    let longer = parts.take(i + 1);
    if any_asks_for(longer, modifier) {
        let k = choose|k: int| 0 <= k < longer.len() && asks_for(#[trigger] longer[k], modifier);
        if k < i {
            assert(shorter[k] == longer[k]);
        }
    }
    if any_asks_for(shorter, modifier) {
        let k = choose|k: int| 0 <= k < shorter.len() && asks_for(#[trigger] shorter[k], modifier);
        assert(longer[k] == shorter[k]);
    }
    assert(longer[i] == parts[i]);
}

fn parse_modifier(name: &str) -> (r: Option<Modifier>)
    ensures
        r == modifier_named(name@),
{
    if same(name, "ctrl") || same(name, "control") {
        Some(Modifier::Control)
    } else if same(name, "shift") {
        Some(Modifier::Shift)
    } else if same(name, "alt") {
        Some(Modifier::Alt)
    } else if same(name, "win") || same(name, "super") || same(name, "meta") || same(name, "cmd") {
        Some(Modifier::Meta)
    } else {
        None
    }
}

/// Reads a shortcut such as `Ctrl+Shift+A`.
pub fn parse_shortcut(text: &str) -> (r: Result<Shortcut, ShortcutError>)
    ensures
        result_view(r) == shortcut_of(text@),
{
    let split_up = split(text, '+');
    let mut modifiers = Modifiers { control: false, shift: false, alt: false, meta: false };
    let mut key: Option<Code> = None;
    let ghost all = parts(text@);
    let mut i: usize = 0;
    assert(all.take(0) == Seq::<Seq<char>>::empty());
    reveal(Seq::filter);
    while i < split_up.len()
        invariant
            slice_views(split_up@) == pieces(text@, '+'),
            all == parts(text@),
            0 <= i <= split_up.len(),
            modifiers == modifiers_of(all.take(i as int)),
            match key {
                Some(code) => {
                    &&& key_parts(all.take(i as int)).len() == 1
                    &&& key_named(upper(key_parts(all.take(i as int))[0])) == Some(code)
                },
                None => key_parts(all.take(i as int)).len() == 0,
            },
        decreases split_up.len() - i,
    {
        let part = trim(split_up[i]);
        proof {
            assert(slice_views(split_up@)[i as int] == split_up[i as int]@);
            assert(all[i as int] == part@);
            lemma_key_parts_extend(all, i as int);
            lemma_key_parts_prefix(all, i + 1);
            lemma_asks_extend(all, i as int, Modifier::Control);
            lemma_asks_extend(all, i as int, Modifier::Shift);
            lemma_asks_extend(all, i as int, Modifier::Alt);
            lemma_asks_extend(all, i as int, Modifier::Meta);
            lemma_upper_of_lower(part@);
        }
        let name = to_lower(part);
        match parse_modifier(name.as_str()) {
            Some(Modifier::Control) => {
                modifiers.control = true;
            },
            Some(Modifier::Shift) => {
                modifiers.shift = true;
            },
            Some(Modifier::Alt) => {
                modifiers.alt = true;
            },
            Some(Modifier::Meta) => {
                modifiers.meta = true;
            },
            None => {
                if !part.is_empty() {
                    let ghost so_far = key_parts(all.take(i + 1));
                    assert(key_parts(all)[0] == so_far[0]);
                    if key.is_some() {
                        return Err(ShortcutError::SeveralKeys(text.to_owned()));
                    }
                    match parse_code(name.as_str()) {
                        Ok(code) => {
                            key = Some(code);
                        },
                        Err(error) => {
                            return Err(error);
                        },
                    }
                }
            },
        }
        i = i + 1;
    }
    assert(all.take(all.len() as int) == all);
    match key {
        None => Err(ShortcutError::NoKey),
        Some(key) => if modifiers.is_empty() {
            Err(ShortcutError::NoModifier)
        } else {
            Ok(Shortcut { modifiers, key })
        },
    }
}

// ── Laws ──

proof fn lemma_lower_char(c: char)
    ensures
        white(lower_char(c)) == white(c),
        (lower_char(c) == '+') == (c == '+'),
{
}

proof fn lemma_trim_start_lower(s: Seq<char>)
    ensures
        trim_start(lower(s)) == lower(trim_start(s)),
    decreases s.len(),
{
    if s.len() > 0 {
        lemma_lower_char(s[0]);
        lemma_trim_start_lower(s.skip(1));
        assert(lower(s).skip(1) == lower(s.skip(1)));
    }
}

proof fn lemma_trim_end_lower(s: Seq<char>)
    ensures
        trim_end(lower(s)) == lower(trim_end(s)),
    decreases s.len(),
{
    if s.len() > 0 {
        lemma_lower_char(s.last());
        lemma_trim_end_lower(s.drop_last());
        assert(lower(s).drop_last() == lower(s.drop_last()));
    }
}

proof fn lemma_pieces_lower(s: Seq<char>)
    ensures
        pieces(lower(s), '+') == pieces(s, '+').map_values(|piece: Seq<char>| lower(piece)),
        pieces(s, '+').len() > 0,
    decreases s.len(),
{
    let low = |piece: Seq<char>| lower(piece);
    if s.len() == 0 {
        assert(lower(s) == s);
        assert(lower(Seq::<char>::empty()) == Seq::<char>::empty());
        assert(pieces(s, '+').map_values(low) == pieces(s, '+'));
    } else {
        let before = pieces(s.drop_last(), '+');
        lemma_pieces_lower(s.drop_last());
        assert(lower(s).drop_last() == lower(s.drop_last()));
        lemma_lower_char(s.last());
        if s.last() == '+' {
            assert(lower(Seq::<char>::empty()) == Seq::<char>::empty());
            assert(before.push(Seq::empty()).map_values(low) == before.map_values(low).push(
                Seq::empty(),
            ));
        } else {
            let last = before.last().push(s.last());
            assert(lower(last) == lower(before.last()).push(lower_char(s.last())));
            assert(before.drop_last().push(last).map_values(low) == before.map_values(
                low,
            ).drop_last().push(lower(last)));
        }
    }
}

/// Two texts that differ only in case have parts that differ only in case.
proof fn lemma_parts_lower(a: Seq<char>, b: Seq<char>)
    requires
        lower(a) == lower(b),
    ensures
        parts(a).len() == parts(b).len(),
        forall|i: int|
            0 <= i < parts(a).len() ==> lower(#[trigger] parts(a)[i]) == lower(parts(b)[i]),
{
    lemma_pieces_lower(a);
    lemma_pieces_lower(b);
    let low = |piece: Seq<char>| lower(piece);
    let pa = pieces(a, '+');
    let pb = pieces(b, '+');
    assert(pa.map_values(low).len() == pb.map_values(low).len());
    assert forall|i: int| 0 <= i < parts(a).len() implies lower(#[trigger] parts(a)[i]) == lower(
        parts(b)[i],
    ) by {
        assert(pa.map_values(low)[i] == pb.map_values(low)[i]);
        lemma_trim_start_lower(pa[i]);
        lemma_trim_start_lower(pb[i]);
        lemma_trim_end_lower(trim_start(pa[i]));
        lemma_trim_end_lower(trim_start(pb[i]));
    }
}

proof fn lemma_key_parts_lower(pa: Seq<Seq<char>>, pb: Seq<Seq<char>>)
    requires
        pa.len() == pb.len(),
        forall|i: int| 0 <= i < pa.len() ==> lower(#[trigger] pa[i]) == lower(pb[i]),
    ensures
        key_parts(pa).len() == key_parts(pb).len(),
        forall|i: int|
            0 <= i < key_parts(pa).len() ==> lower(#[trigger] key_parts(pa)[i]) == lower(
                key_parts(pb)[i],
            ),
    decreases pa.len(),
{
    reveal(Seq::filter);
    if pa.len() > 0 {
        let last = pa.len() - 1;
        assert(pa.drop_last().len() == pb.drop_last().len());
        assert forall|i: int| 0 <= i < pa.drop_last().len() implies lower(
            #[trigger] pa.drop_last()[i],
        ) == lower(pb.drop_last()[i]) by {
            assert(lower(pa[i]) == lower(pb[i]));
        }
        lemma_key_parts_lower(pa.drop_last(), pb.drop_last());
        assert(lower(pa[last]) == lower(pb[last]));
        assert(lower(pa[last]).len() == pa[last].len());
        assert(lower(pb[last]).len() == pb[last].len());
    }
}

/// The case of ASCII letters does not matter: texts that differ only in case
/// stand for the same shortcut, or fail in the same way.
pub proof fn law_case_does_not_matter(a: Seq<char>, b: Seq<char>)
    requires
        lower(a) == lower(b),
    ensures
        match shortcut_of(a) {
            Err(ShortcutErrorView::SeveralKeys(_)) => shortcut_of(b) == Err::<
                Shortcut,
                ShortcutErrorView,
            >(ShortcutErrorView::SeveralKeys(b)),
            outcome => shortcut_of(b) == outcome,
        },
{
    let pa = parts(a);
    let pb = parts(b);
    lemma_parts_lower(a, b);
    lemma_key_parts_lower(pa, pb);
    if key_parts(pa).len() > 0 {
        let ka = key_parts(pa)[0];
        let kb = key_parts(pb)[0];
        assert(lower(ka) == lower(kb));
        lemma_upper_of_lower(ka);
        lemma_upper_of_lower(kb);
    }
    assert forall|m: Modifier| any_asks_for(pa, m) == any_asks_for(pb, m) by {
        if any_asks_for(pa, m) {
            let i = choose|i: int| 0 <= i < pa.len() && asks_for(#[trigger] pa[i], m);
            assert(asks_for(pb[i], m));
        }
        if any_asks_for(pb, m) {
            let i = choose|i: int| 0 <= i < pb.len() && asks_for(#[trigger] pb[i], m);
            assert(asks_for(pa[i], m));
        }
    }
    assert(modifiers_of(pa) == modifiers_of(pb));
}

proof fn lemma_trimmed_push_white(s: Seq<char>, c: char)
    requires
        white(c),
    ensures
        trimmed(s.push(c)) == trimmed(s),
    decreases s.len(),
{
    if s.len() > 0 && white(s[0]) {
        lemma_trimmed_push_white(s.skip(1), c);
        assert(s.push(c).skip(1) == s.skip(1).push(c));
    } else if s.len() == 0 {
        assert(s.push(c).skip(1) == s);
    } else {
        assert(s.push(c).drop_last() == s);
    }
}

proof fn lemma_pieces_not_empty(s: Seq<char>)
    ensures
        pieces(s, '+').len() > 0,
{
    lemma_some_piece(s, '+');
}

/// A character in front that is no separator goes to the first piece.
proof fn lemma_pieces_front(c: char, s: Seq<char>)
    requires
        c != '+',
    ensures
        pieces(seq![c] + s, '+') == pieces(s, '+').update(0, seq![c] + pieces(s, '+')[0]),
    decreases s.len(),
{
    let whole = seq![c] + s;
    let old_pieces = pieces(s, '+');
    lemma_pieces_not_empty(s);
    if s.len() == 0 {
        assert(whole == seq![c]);
        assert(whole.drop_last() == s);
        assert(seq![c] + Seq::<char>::empty() == Seq::<char>::empty().push(c));
        assert(pieces(whole, '+') == old_pieces.update(0, seq![c] + old_pieces[0]));
    } else {
        let rest = s.drop_last();
        let before = pieces(rest, '+');
        lemma_pieces_front(c, rest);
        lemma_pieces_not_empty(rest);
        assert(whole.drop_last() == seq![c] + rest);
        if s.last() == '+' {
            assert(pieces(whole, '+') == old_pieces.update(0, seq![c] + old_pieces[0]));
        } else {
            assert((seq![c] + before[0]).push(s.last()) == seq![c] + before[0].push(s.last()));
            assert(pieces(whole, '+') == old_pieces.update(0, seq![c] + old_pieces[0]));
        }
    }
}

proof fn lemma_parts_trim_start(s: Seq<char>)
    ensures
        parts(trim_start(s)) == parts(s),
    decreases s.len(),
{
    if s.len() > 0 && white(s[0]) {
        let rest = s.skip(1);
        lemma_parts_trim_start(rest);
        lemma_pieces_front(s[0], rest);
        lemma_pieces_not_empty(rest);
        assert(s == seq![s[0]] + rest);
        let first = pieces(rest, '+')[0];
        assert((seq![s[0]] + first).skip(1) == first);
        assert(trimmed(seq![s[0]] + first) == trimmed(first));
        assert(parts(s) == parts(rest));
    }
}

proof fn lemma_parts_trim_end(s: Seq<char>)
    ensures
        parts(trim_end(s)) == parts(s),
    decreases s.len(),
{
    if s.len() > 0 && white(s.last()) {
        let rest = s.drop_last();
        lemma_parts_trim_end(rest);
        lemma_pieces_not_empty(rest);
        lemma_trimmed_push_white(pieces(rest, '+').last(), s.last());
        assert(parts(s) == parts(rest));
    }
}

/// White space around a text does not matter.
pub proof fn law_outer_space_does_not_matter(text: Seq<char>)
    ensures
        match shortcut_of(text) {
            Err(ShortcutErrorView::SeveralKeys(_)) => shortcut_of(trimmed(text)) == Err::<
                Shortcut,
                ShortcutErrorView,
            >(ShortcutErrorView::SeveralKeys(trimmed(text))),
            outcome => shortcut_of(trimmed(text)) == outcome,
        },
{
    lemma_parts_trim_start(text);
    lemma_parts_trim_end(trim_start(text));
}

/// Either both texts stand for a shortcut, and for the same one, or neither does.
pub open spec fn stand_for_same(a: Seq<char>, b: Seq<char>) -> bool {
    &&& shortcut_of(a) is Ok <==> shortcut_of(b) is Ok
    &&& shortcut_of(a) is Ok ==> shortcut_of(a) == shortcut_of(b)
}

/// Several parts, without regard to case.
pub open spec fn lowered(parts: Seq<Seq<char>>) -> Seq<Seq<char>> {
    parts.map_values(|part: Seq<char>| lower(part))
}

/// A shortcut can be written in several ways: all that matters is which keys are
/// named, in any order and case, and which modifiers are asked for.
pub proof fn law_keys_and_modifiers_matter(a: Seq<char>, b: Seq<char>)
    requires
        lowered(key_parts(parts(a))).to_multiset() == lowered(key_parts(parts(b))).to_multiset(),
        modifiers_of(parts(a)) == modifiers_of(parts(b)),
    ensures
        stand_for_same(a, b),
{
    broadcast use vstd::seq_lib::group_to_multiset_ensures;

    let ka = key_parts(parts(a));
    let kb = key_parts(parts(b));
    assert(lowered(ka).len() == lowered(ka).to_multiset().len());
    assert(lowered(kb).len() == lowered(kb).to_multiset().len());
    if ka.len() == 1 {
        assert(lowered(ka)[0] == lower(ka[0]));
        assert(lowered(ka).contains(lower(ka[0])));
        assert(lowered(ka).to_multiset().count(lower(ka[0])) > 0);
        assert(lowered(kb).contains(lower(ka[0])));
        assert(lower(kb[0]) == lower(ka[0]));
        lemma_upper_of_lower(ka[0]);
        lemma_upper_of_lower(kb[0]);
    }
}

proof fn lemma_lower_twice(s: Seq<char>)
    ensures
        lower(lower(s)) == lower(s),
{
    assert forall|i: int| 0 <= i < s.len() implies lower(lower(s))[i] == lower(s)[i] by {}
}

/// Which parts name a key does not depend on case.
proof fn lemma_lowered_key_parts(parts: Seq<Seq<char>>)
    ensures
        lowered(key_parts(parts)) == key_parts(lowered(parts)),
    decreases parts.len(),
{
    reveal(Seq::filter);
    if parts.len() == 0 {
        assert(lowered(parts) == parts);
        assert(lowered(key_parts(parts)) == key_parts(parts));
    } else {
        let rest = parts.drop_last();
        lemma_lowered_key_parts(rest);
        lemma_lower_twice(parts.last());
        assert(lower(parts.last()).len() == parts.last().len());
        assert(lowered(parts).drop_last() == lowered(rest));
        assert(lowered(parts).last() == lower(parts.last()));
        if key_part(parts.last()) {
            assert(key_parts(parts) == key_parts(rest).push(parts.last()));
            assert(lowered(key_parts(parts)) == lowered(key_parts(rest)).push(
                lower(parts.last()),
            ));
        }
    }
}

/// How often a key is named shows in how often the part occurs.
proof fn lemma_count_key_parts(parts: Seq<Seq<char>>, part: Seq<char>)
    ensures
        key_parts(parts).to_multiset().count(part) == if key_part(part) {
            parts.to_multiset().count(part)
        } else {
            0
        },
    decreases parts.len(),
{
    broadcast use vstd::seq_lib::group_to_multiset_ensures;

    reveal(Seq::filter);
    if parts.len() == 0 {
        assert(key_parts(parts) == parts);
        assert(!parts.contains(part));
    } else {
        let rest = parts.drop_last();
        lemma_count_key_parts(rest, part);
        assert(parts == rest.push(parts.last()));
        assert(parts.to_multiset() == rest.to_multiset().insert(parts.last()));
        if key_part(parts.last()) {
            assert(key_parts(parts) == key_parts(rest).push(parts.last()));
            assert(key_parts(parts).to_multiset() == key_parts(rest).to_multiset().insert(
                parts.last(),
            ));
        }
    }
}

proof fn lemma_asks_lowered(parts: Seq<Seq<char>>, modifier: Modifier)
    ensures
        any_asks_for(parts, modifier) == exists|name: Seq<char>| #[trigger]
            lowered(parts).contains(name) && modifier_named(name) == Some(modifier),
{
    if any_asks_for(parts, modifier) {
        let i = choose|i: int| 0 <= i < parts.len() && asks_for(#[trigger] parts[i], modifier);
        assert(lowered(parts)[i] == lower(parts[i]));
        assert(lowered(parts).contains(lower(parts[i])));
    }
    if exists|name: Seq<char>| #[trigger]
        lowered(parts).contains(name) && modifier_named(name) == Some(modifier) {
        let name = choose|name: Seq<char>| #[trigger]
            lowered(parts).contains(name) && modifier_named(name) == Some(modifier);
        let i = choose|i: int| 0 <= i < lowered(parts).len() && lowered(parts)[i] == name;
        assert(asks_for(parts[i], modifier));
    }
}

/// The order of the parts, the case of their letters and the white space around
/// each of them do not matter.
pub proof fn law_order_of_parts_does_not_matter(a: Seq<char>, b: Seq<char>)
    requires
        lowered(parts(a)).to_multiset() == lowered(parts(b)).to_multiset(),
    ensures
        stand_for_same(a, b),
{
    broadcast use vstd::seq_lib::group_to_multiset_ensures;

    let pa = parts(a);
    let pb = parts(b);
    assert forall|name: Seq<char>| lowered(pa).contains(name) == lowered(pb).contains(name) by {
        assert(lowered(pa).to_multiset().count(name) == lowered(pb).to_multiset().count(name));
    }
    assert forall|m: Modifier| any_asks_for(pa, m) == any_asks_for(pb, m) by {
        lemma_asks_lowered(pa, m);
        lemma_asks_lowered(pb, m);
    }
    assert(modifiers_of(pa) == modifiers_of(pb));
    lemma_lowered_key_parts(pa);
    lemma_lowered_key_parts(pb);
    assert forall|part: Seq<char>| #[trigger]
        lowered(key_parts(pa)).to_multiset().count(part) == lowered(
            key_parts(pb),
        ).to_multiset().count(part) by {
        lemma_count_key_parts(lowered(pa), part);
        lemma_count_key_parts(lowered(pb), part);
    }
    assert(lowered(key_parts(pa)).to_multiset() =~= lowered(key_parts(pb)).to_multiset());
    law_keys_and_modifiers_matter(a, b);
}

proof fn lemma_empty_is_no_modifier()
    ensures
        modifier_named(lower(Seq::<char>::empty())) is None,
{
    reveal_strlit("ctrl");
    reveal_strlit("control");
    reveal_strlit("shift");
    reveal_strlit("alt");
    reveal_strlit("win");
    reveal_strlit("super");
    reveal_strlit("meta");
    reveal_strlit("cmd");
    assert(lower(Seq::<char>::empty()).len() == 0);
    assert("ctrl"@.len() > 0 && "control"@.len() > 0 && "shift"@.len() > 0 && "alt"@.len() > 0
        && "win"@.len() > 0 && "super"@.len() > 0 && "meta"@.len() > 0 && "cmd"@.len() > 0);
}

/// One more part does not matter, wherever it stands, if it is empty or asks for a
/// modifier that is asked for anyway.
pub proof fn law_idle_part_does_not_matter(
    a: Seq<char>,
    b: Seq<char>,
    at: int,
    extra: Seq<char>,
)
    requires
        0 <= at <= parts(a).len(),
        parts(b) == parts(a).insert(at, extra),
        extra.len() == 0 || exists|m: Modifier| #[trigger]
            asks_for(extra, m) && any_asks_for(parts(a), m),
    ensures
        stand_for_same(a, b),
{
    let pa = parts(a);
    let pb = parts(b);
    let is_key = |part: Seq<char>| key_part(part);
    lemma_empty_is_no_modifier();
    if extra.len() == 0 {
        assert(extra == Seq::<char>::empty());
    }
    assert(!key_part(extra));
    assert(pa == pa.take(at) + pa.skip(at));
    assert(pb == pa.take(at) + seq![extra] + pa.skip(at));
    Seq::filter_distributes_over_add(pa.take(at), pa.skip(at), is_key);
    Seq::filter_distributes_over_add(pa.take(at) + seq![extra], pa.skip(at), is_key);
    Seq::filter_distributes_over_add(pa.take(at), seq![extra], is_key);
    assert(seq![extra].filter(is_key) == Seq::<Seq<char>>::empty()) by {
        reveal_with_fuel(Seq::filter, 2);
        assert(seq![extra].drop_last() == Seq::<Seq<char>>::empty());
    }
    assert(key_parts(pb) == key_parts(pa));
    assert forall|m: Modifier| any_asks_for(pa, m) == any_asks_for(pb, m) by {
        if any_asks_for(pa, m) {
            let i = choose|i: int| 0 <= i < pa.len() && asks_for(#[trigger] pa[i], m);
            if i < at {
                assert(pb[i] == pa[i]);
            } else {
                assert(pb[i + 1] == pa[i]);
            }
        }
        if any_asks_for(pb, m) {
            let i = choose|i: int| 0 <= i < pb.len() && asks_for(#[trigger] pb[i], m);
            if i < at {
                assert(pa[i] == pb[i]);
            } else if i > at {
                assert(pa[i - 1] == pb[i]);
            }
        }
    }
    assert(modifiers_of(pa) == modifiers_of(pb));
    law_keys_and_modifiers_matter(a, b);
}

/// Some texts with a plus sign between each two of them.
pub open spec fn joined(texts: Seq<Seq<char>>) -> Seq<char>
    decreases texts.len(),
{
    if texts.len() == 0 {
        Seq::empty()
    } else if texts.len() == 1 {
        texts[0]
    } else {
        joined(texts.drop_last()) + seq!['+'] + texts.last()
    }
}

proof fn lemma_pieces_extend(s: Seq<char>, t: Seq<char>)
    requires
        !t.contains('+'),
    ensures
        pieces(s + t, '+') == pieces(s, '+').drop_last().push(pieces(s, '+').last() + t),
{
    lemma_last_piece_grows(s, t, '+');
}

/// A text can be put together from its parts: texts without a plus sign, with
/// plus signs between them, are read as those parts, whatever white space stands
/// around each.
pub proof fn law_joined_texts_are_the_parts(texts: Seq<Seq<char>>)
    requires
        texts.len() > 0,
        forall|i: int| 0 <= i < texts.len() ==> !(#[trigger] texts[i]).contains('+'),
    ensures
        pieces(joined(texts), '+') == texts,
        parts(joined(texts)) == texts.map_values(|text: Seq<char>| trimmed(text)),
    decreases texts.len(),
{
    let empty = Seq::<char>::empty();
    if texts.len() == 1 {
        lemma_pieces_extend(empty, texts[0]);
        assert(empty + texts[0] == texts[0]);
        assert(pieces(empty, '+') == seq![empty]);
    } else {
        let rest = texts.drop_last();
        assert forall|i: int| 0 <= i < rest.len() implies !(#[trigger] rest[i]).contains('+') by {
            assert(rest[i] == texts[i]);
        }
        law_joined_texts_are_the_parts(rest);
        let start = joined(rest) + seq!['+'];
        assert(start.drop_last() == joined(rest));
        assert(pieces(start, '+') == rest.push(empty));
        assert(!texts[texts.len() - 1].contains('+'));
        lemma_pieces_extend(start, texts.last());
        assert(empty + texts.last() == texts.last());
        assert(rest.push(empty).drop_last() == rest);
    }
    assert(pieces(joined(texts), '+') =~= texts);
}

/// A shortcut is never a bare key, which would take it away from normal typing.
pub proof fn law_shortcut_has_modifier(text: Seq<char>)
    ensures
        shortcut_of(text) matches Ok(shortcut) ==> !shortcut.modifiers.none(),
{
}

/// What a key is called, in upper case.
pub open spec fn name_of(code: Code) -> Seq<char> {
    match code {
        Code::KeyA => "A"@,
        Code::KeyB => "B"@,
        Code::KeyC => "C"@,
        Code::KeyD => "D"@,
        Code::KeyE => "E"@,
        Code::KeyF => "F"@,
        Code::KeyG => "G"@,
        Code::KeyH => "H"@,
        Code::KeyI => "I"@,
        Code::KeyJ => "J"@,
        Code::KeyK => "K"@,
        Code::KeyL => "L"@,
        Code::KeyM => "M"@,
        Code::KeyN => "N"@,
        Code::KeyO => "O"@,
        Code::KeyP => "P"@,
        Code::KeyQ => "Q"@,
        Code::KeyR => "R"@,
        Code::KeyS => "S"@,
        Code::KeyT => "T"@,
        Code::KeyU => "U"@,
        Code::KeyV => "V"@,
        Code::KeyW => "W"@,
        Code::KeyX => "X"@,
        Code::KeyY => "Y"@,
        Code::KeyZ => "Z"@,
        Code::Digit0 => "0"@,
        Code::Digit1 => "1"@,
        Code::Digit2 => "2"@,
        Code::Digit3 => "3"@,
        Code::Digit4 => "4"@,
        Code::Digit5 => "5"@,
        Code::Digit6 => "6"@,
        Code::Digit7 => "7"@,
        Code::Digit8 => "8"@,
        Code::Digit9 => "9"@,
        Code::F1 => "F1"@,
        Code::F2 => "F2"@,
        Code::F3 => "F3"@,
        Code::F4 => "F4"@,
        Code::F5 => "F5"@,
        Code::F6 => "F6"@,
        Code::F7 => "F7"@,
        Code::F8 => "F8"@,
        Code::F9 => "F9"@,
        Code::F10 => "F10"@,
        Code::F11 => "F11"@,
        Code::F12 => "F12"@,
        Code::Space => "SPACE"@,
        Code::Enter => "ENTER"@,
        Code::Tab => "TAB"@,
        Code::Escape => "ESCAPE"@,
        Code::Minus => "MINUS"@,
        Code::Equal => "EQUAL"@,
        Code::Comma => "COMMA"@,
        Code::Period => "PERIOD"@,
        Code::Slash => "SLASH"@,
        Code::Semicolon => "SEMICOLON"@,
        Code::Quote => "QUOTE"@,
        Code::Backquote => "BACKQUOTE"@,
        Code::BracketLeft => "BRACKETLEFT"@,
        Code::BracketRight => "BRACKETRIGHT"@,
    }
}

/// What else a key is called: some have a short form, or the sign on them.
pub open spec fn other_name_of(code: Code) -> Option<Seq<char>> {
    match code {
        Code::Enter => Some("RETURN"@),
        Code::Escape => Some("ESC"@),
        Code::Minus => Some("-"@),
        Code::Equal => Some("="@),
        Code::Comma => Some(","@),
        Code::Period => Some("."@),
        Code::Slash => Some("/"@),
        Code::Semicolon => Some(";"@),
        Code::Quote => Some("'"@),
        Code::Backquote => Some("`"@),
        Code::BracketLeft => Some("["@),
        Code::BracketRight => Some("]"@),
        _ => None,
    }
}

/// Every key goes by its names and by no other, whatever the case of the letters;
/// a text that is the name of no key is handed back in upper case.
pub proof fn law_keys_go_by_their_names(
    name: &str,
    r: Result<Code, ShortcutError>,
    code: Code,
)
    requires
        call_ensures(parse_code, (name,), r),
    ensures
        (r matches Ok(found) && found == code) <==> upper(name@) == name_of(code) || Some(
            upper(name@),
        ) == other_name_of(code),
        r matches Err(error) ==> error@ == ShortcutErrorView::UnknownKey(upper(name@)),
{
    lemma_names_of_keys(upper(name@), code);
}

proof fn lemma_names_of_keys(name: Seq<char>, code: Code)
    ensures
        key_named(name) == Some(code) <==> name == name_of(code) || Some(name) == other_name_of(
            code,
        ),
{
    reveal_strlit("A");
    reveal_strlit("B");
    reveal_strlit("C");
    reveal_strlit("D");
    reveal_strlit("E");
    reveal_strlit("F");
    reveal_strlit("G");
    reveal_strlit("H");
    reveal_strlit("I");
    reveal_strlit("J");
    reveal_strlit("K");
    reveal_strlit("L");
    reveal_strlit("M");
    reveal_strlit("N");
    reveal_strlit("O");
    reveal_strlit("P");
    reveal_strlit("Q");
    reveal_strlit("R");
    reveal_strlit("S");
    reveal_strlit("T");
    reveal_strlit("U");
    reveal_strlit("V");
    reveal_strlit("W");
    reveal_strlit("X");
    reveal_strlit("Y");
    reveal_strlit("Z");
    reveal_strlit("0");
    reveal_strlit("1");
    reveal_strlit("2");
    reveal_strlit("3");
    reveal_strlit("4");
    reveal_strlit("5");
    reveal_strlit("6");
    reveal_strlit("7");
    reveal_strlit("8");
    reveal_strlit("9");
    reveal_strlit("F1");
    reveal_strlit("F2");
    reveal_strlit("F3");
    reveal_strlit("F4");
    reveal_strlit("F5");
    reveal_strlit("F6");
    reveal_strlit("F7");
    reveal_strlit("F8");
    reveal_strlit("F9");
    reveal_strlit("F10");
    reveal_strlit("F11");
    reveal_strlit("F12");
    reveal_strlit("SPACE");
    reveal_strlit("ENTER");
    reveal_strlit("TAB");
    reveal_strlit("ESCAPE");
    reveal_strlit("MINUS");
    reveal_strlit("EQUAL");
    reveal_strlit("COMMA");
    reveal_strlit("PERIOD");
    reveal_strlit("SLASH");
    reveal_strlit("SEMICOLON");
    reveal_strlit("QUOTE");
    reveal_strlit("BACKQUOTE");
    reveal_strlit("BRACKETLEFT");
    reveal_strlit("BRACKETRIGHT");
    reveal_strlit("RETURN");
    reveal_strlit("ESC");
    reveal_strlit("-");
    reveal_strlit("=");
    reveal_strlit(",");
    reveal_strlit(".");
    reveal_strlit("/");
    reveal_strlit(";");
    reveal_strlit("'");
    reveal_strlit("`");
    reveal_strlit("[");
    reveal_strlit("]");
    assert("A"@.len() == 1 && "A"@[0] == 'A');
    assert("B"@.len() == 1 && "B"@[0] == 'B');
    assert("C"@.len() == 1 && "C"@[0] == 'C');
    assert("D"@.len() == 1 && "D"@[0] == 'D');
    assert("E"@.len() == 1 && "E"@[0] == 'E');
    assert("F"@.len() == 1 && "F"@[0] == 'F');
    assert("G"@.len() == 1 && "G"@[0] == 'G');
    assert("H"@.len() == 1 && "H"@[0] == 'H');
    assert("I"@.len() == 1 && "I"@[0] == 'I');
    assert("J"@.len() == 1 && "J"@[0] == 'J');
    assert("K"@.len() == 1 && "K"@[0] == 'K');
    assert("L"@.len() == 1 && "L"@[0] == 'L');
    assert("M"@.len() == 1 && "M"@[0] == 'M');
    assert("N"@.len() == 1 && "N"@[0] == 'N');
    assert("O"@.len() == 1 && "O"@[0] == 'O');
    assert("P"@.len() == 1 && "P"@[0] == 'P');
    assert("Q"@.len() == 1 && "Q"@[0] == 'Q');
    assert("R"@.len() == 1 && "R"@[0] == 'R');
    assert("S"@.len() == 1 && "S"@[0] == 'S');
    assert("T"@.len() == 1 && "T"@[0] == 'T');
    assert("U"@.len() == 1 && "U"@[0] == 'U');
    assert("V"@.len() == 1 && "V"@[0] == 'V');
    assert("W"@.len() == 1 && "W"@[0] == 'W');
    assert("X"@.len() == 1 && "X"@[0] == 'X');
    assert("Y"@.len() == 1 && "Y"@[0] == 'Y');
    assert("Z"@.len() == 1 && "Z"@[0] == 'Z');
    assert("0"@.len() == 1 && "0"@[0] == '0');
    assert("1"@.len() == 1 && "1"@[0] == '1');
    assert("2"@.len() == 1 && "2"@[0] == '2');
    assert("3"@.len() == 1 && "3"@[0] == '3');
    assert("4"@.len() == 1 && "4"@[0] == '4');
    assert("5"@.len() == 1 && "5"@[0] == '5');
    assert("6"@.len() == 1 && "6"@[0] == '6');
    assert("7"@.len() == 1 && "7"@[0] == '7');
    assert("8"@.len() == 1 && "8"@[0] == '8');
    assert("9"@.len() == 1 && "9"@[0] == '9');
    assert("F1"@.len() == 2 && "F1"@[0] == 'F' && "F1"@[1] == '1');
    assert("F2"@.len() == 2 && "F2"@[0] == 'F' && "F2"@[1] == '2');
    assert("F3"@.len() == 2 && "F3"@[0] == 'F' && "F3"@[1] == '3');
    assert("F4"@.len() == 2 && "F4"@[0] == 'F' && "F4"@[1] == '4');
    assert("F5"@.len() == 2 && "F5"@[0] == 'F' && "F5"@[1] == '5');
    assert("F6"@.len() == 2 && "F6"@[0] == 'F' && "F6"@[1] == '6');
    assert("F7"@.len() == 2 && "F7"@[0] == 'F' && "F7"@[1] == '7');
    assert("F8"@.len() == 2 && "F8"@[0] == 'F' && "F8"@[1] == '8');
    assert("F9"@.len() == 2 && "F9"@[0] == 'F' && "F9"@[1] == '9');
    assert("F10"@.len() == 3 && "F10"@[0] == 'F' && "F10"@[1] == '1' && "F10"@[2] == '0');
    assert("F11"@.len() == 3 && "F11"@[0] == 'F' && "F11"@[1] == '1' && "F11"@[2] == '1');
    assert("F12"@.len() == 3 && "F12"@[0] == 'F' && "F12"@[1] == '1' && "F12"@[2] == '2');
    assert("SPACE"@.len() == 5 && "SPACE"@[0] == 'S' && "SPACE"@[1] == 'P' && "SPACE"@[2] == 'A');
    assert("ENTER"@.len() == 5 && "ENTER"@[0] == 'E' && "ENTER"@[1] == 'N' && "ENTER"@[2] == 'T');
    assert("TAB"@.len() == 3 && "TAB"@[0] == 'T' && "TAB"@[1] == 'A' && "TAB"@[2] == 'B');
    assert("ESCAPE"@.len() == 6 && "ESCAPE"@[0] == 'E' && "ESCAPE"@[1] == 'S' && "ESCAPE"@[2] == 'C');
    assert("MINUS"@.len() == 5 && "MINUS"@[0] == 'M' && "MINUS"@[1] == 'I' && "MINUS"@[2] == 'N');
    assert("EQUAL"@.len() == 5 && "EQUAL"@[0] == 'E' && "EQUAL"@[1] == 'Q' && "EQUAL"@[2] == 'U');
    assert("COMMA"@.len() == 5 && "COMMA"@[0] == 'C' && "COMMA"@[1] == 'O' && "COMMA"@[2] == 'M');
    assert("PERIOD"@.len() == 6 && "PERIOD"@[0] == 'P' && "PERIOD"@[1] == 'E' && "PERIOD"@[2] == 'R');
    assert("SLASH"@.len() == 5 && "SLASH"@[0] == 'S' && "SLASH"@[1] == 'L' && "SLASH"@[2] == 'A');
    assert("SEMICOLON"@.len() == 9 && "SEMICOLON"@[0] == 'S' && "SEMICOLON"@[1] == 'E' && "SEMICOLON"@[2] == 'M');
    assert("QUOTE"@.len() == 5 && "QUOTE"@[0] == 'Q' && "QUOTE"@[1] == 'U' && "QUOTE"@[2] == 'O');
    assert("BACKQUOTE"@.len() == 9 && "BACKQUOTE"@[0] == 'B' && "BACKQUOTE"@[1] == 'A' && "BACKQUOTE"@[2] == 'C');
    assert("BRACKETLEFT"@.len() == 11 && "BRACKETLEFT"@[0] == 'B' && "BRACKETLEFT"@[1] == 'R' && "BRACKETLEFT"@[2] == 'A');
    assert("BRACKETRIGHT"@.len() == 12 && "BRACKETRIGHT"@[0] == 'B' && "BRACKETRIGHT"@[1] == 'R' && "BRACKETRIGHT"@[2] == 'A');
    assert("RETURN"@.len() == 6 && "RETURN"@[0] == 'R' && "RETURN"@[1] == 'E' && "RETURN"@[2] == 'T');
    assert("ESC"@.len() == 3 && "ESC"@[0] == 'E' && "ESC"@[1] == 'S' && "ESC"@[2] == 'C');
    assert("-"@.len() == 1 && "-"@[0] == '-');
    assert("="@.len() == 1 && "="@[0] == '=');
    assert(","@.len() == 1 && ","@[0] == ',');
    assert("."@.len() == 1 && "."@[0] == '.');
    assert("/"@.len() == 1 && "/"@[0] == '/');
    assert(";"@.len() == 1 && ";"@[0] == ';');
    assert("'"@.len() == 1 && "'"@[0] == '\'');
    assert("`"@.len() == 1 && "`"@[0] == '`');
    assert("["@.len() == 1 && "["@[0] == '[');
    assert("]"@.len() == 1 && "]"@[0] == ']');
    if key_named(name) == Some(code) {
        assert(name == name_of(code) || Some(name) == other_name_of(code));
    }
    if name == name_of(code) {
        assert(key_named(name) == Some(code));
    }
    if Some(name) == other_name_of(code) {
        assert(key_named(name) == Some(code));
    }
}

/// A part of a text, without the white space around it and in lower case.
pub open spec fn word(text: Seq<char>, i: int) -> Seq<char> {
    lower(trimmed(pieces(text, '+')[i]))
}

/// One of the parts of a text is that word.
pub open spec fn says(text: Seq<char>, wanted: Seq<char>) -> bool {
    exists|i: int| 0 <= i < pieces(text, '+').len() && #[trigger] word(text, i) == wanted
}

/// The words for modifiers.
pub open spec fn modifier_word(word: Seq<char>) -> bool {
    ||| word == "ctrl"@
    ||| word == "control"@
    ||| word == "shift"@
    ||| word == "alt"@
    ||| word == "win"@
    ||| word == "super"@
    ||| word == "meta"@
    ||| word == "cmd"@
}

/// A part of a text that is neither empty nor a modifier.
pub open spec fn key_word(text: Seq<char>, i: int) -> bool {
    &&& 0 <= i < pieces(text, '+').len()
    &&& word(text, i).len() > 0
    &&& !modifier_word(word(text, i))
}

proof fn lemma_key_words(text: Seq<char>, i: int)
    requires
        0 <= i < pieces(text, '+').len(),
    ensures
        parts(text)[i] == trimmed(pieces(text, '+')[i]),
        key_part(parts(text)[i]) == key_word(text, i),
{
    assert(lower(parts(text)[i]).len() == parts(text)[i].len());
}

proof fn lemma_no_key_parts(parts: Seq<Seq<char>>)
    requires
        forall|i: int| 0 <= i < parts.len() ==> !key_part(#[trigger] parts[i]),
    ensures
        key_parts(parts).len() == 0,
    decreases parts.len(),
{
    reveal(Seq::filter);
    if parts.len() > 0 {
        assert(!key_part(parts[parts.len() - 1]));
        assert forall|i: int| 0 <= i < parts.drop_last().len() implies !key_part(
            #[trigger] parts.drop_last()[i],
        ) by {
            assert(!key_part(parts[i]));
        }
        lemma_no_key_parts(parts.drop_last());
    }
}

proof fn lemma_first_key_part(parts: Seq<Seq<char>>, k: int)
    requires
        0 <= k < parts.len(),
        key_part(parts[k]),
        forall|i: int| 0 <= i < k ==> !key_part(#[trigger] parts[i]),
    ensures
        key_parts(parts) == seq![parts[k]] + key_parts(parts.skip(k + 1)),
    decreases parts.len(),
{
    reveal(Seq::filter);
    let rest = parts.drop_last();
    assert(parts.last() == parts[parts.len() - 1]);
    if k == parts.len() - 1 {
        assert forall|i: int| 0 <= i < rest.len() implies !key_part(#[trigger] rest[i]) by {
            assert(!key_part(parts[i]));
        }
        lemma_no_key_parts(rest);
        assert(key_parts(rest) == Seq::<Seq<char>>::empty());
        assert(parts.skip(k + 1) == Seq::<Seq<char>>::empty());
        assert(key_parts(parts.skip(k + 1)) == Seq::<Seq<char>>::empty());
        assert(key_parts(parts) == seq![parts[k]]);
    } else {
        assert forall|i: int| 0 <= i < k implies !key_part(#[trigger] rest[i]) by {
            assert(!key_part(parts[i]));
        }
        lemma_first_key_part(rest, k);
        let back = parts.skip(k + 1);
        assert(back.drop_last() == rest.skip(k + 1));
        assert(back.last() == parts.last());
        assert(key_parts(parts) =~= seq![parts[k]] + key_parts(back));
    }
}

proof fn lemma_only_key_part(parts: Seq<Seq<char>>, k: int)
    requires
        0 <= k < parts.len(),
        key_part(parts[k]),
        forall|i: int| 0 <= i < k ==> !key_part(#[trigger] parts[i]),
    ensures
        key_parts(parts).len() > 0,
        key_parts(parts)[0] == parts[k],
        key_parts(parts).len() == 1 <==> forall|i: int|
            k < i < parts.len() ==> !key_part(#[trigger] parts[i]),
{
    let back = parts.skip(k + 1);
    lemma_first_key_part(parts, k);
    if forall|i: int| k < i < parts.len() ==> !key_part(#[trigger] parts[i]) {
        assert forall|i: int| 0 <= i < back.len() implies !key_part(#[trigger] back[i]) by {
            assert(!key_part(parts[i + k + 1]));
        }
        lemma_no_key_parts(back);
    }
    if key_parts(parts).len() == 1 {
        assert forall|i: int| k < i < parts.len() implies !key_part(#[trigger] parts[i]) by {
            if key_part(parts[i]) {
                let is_key = |part: Seq<char>| key_part(part);
                assert(back[i - k - 1] == parts[i]);
                back.lemma_filter_contains(is_key, i - k - 1);
                assert(key_parts(back).contains(parts[i]));
            }
        }
    }
}

proof fn lemma_words_ask(text: Seq<char>)
    ensures
        modifiers_of(parts(text)) == (Modifiers {
            control: says(text, "ctrl"@) || says(text, "control"@),
            shift: says(text, "shift"@),
            alt: says(text, "alt"@),
            meta: says(text, "win"@) || says(text, "super"@) || says(text, "meta"@) || says(
                text,
                "cmd"@,
            ),
        }),
{
    reveal_strlit("ctrl");
    reveal_strlit("control");
    reveal_strlit("shift");
    reveal_strlit("alt");
    reveal_strlit("win");
    reveal_strlit("super");
    reveal_strlit("meta");
    reveal_strlit("cmd");
    let parts = parts(text);
    assert("meta"@[0] != "ctrl"@[0] && "super"@[1] != "shift"@[1] && "cmd"@[1] != "ctrl"@[1]
        && "win"@[0] != "alt"@[0]);
    assert forall|m: Modifier, i: int| 0 <= i < parts.len() implies #[trigger] asks_for(
        parts[i],
        m,
    ) == (modifier_named(word(text, i)) == Some(m)) by {
        lemma_key_words(text, i);
    }
    assert forall|m: Modifier| any_asks_for(parts, m) implies exists|i: int|
        0 <= i < parts.len() && modifier_named(#[trigger] word(text, i)) == Some(m) by {
        let i = choose|i: int| 0 <= i < parts.len() && asks_for(#[trigger] parts[i], m);
        assert(modifier_named(word(text, i)) == Some(m));
    }
    assert forall|wanted: Seq<char>| #[trigger]
        says(text, wanted) && modifier_named(wanted) is Some implies any_asks_for(
        parts,
        modifier_named(wanted)->0,
    ) by {
        let i = choose|i: int|
            0 <= i < pieces(text, '+').len() && #[trigger] word(text, i) == wanted;
        assert(asks_for(parts[i], modifier_named(wanted)->0));
    }
    assert(modifier_named("ctrl"@) == Some(Modifier::Control));
    assert(modifier_named("control"@) == Some(Modifier::Control));
    assert(modifier_named("shift"@) == Some(Modifier::Shift));
    assert(modifier_named("alt"@) == Some(Modifier::Alt));
    assert(modifier_named("win"@) == Some(Modifier::Meta));
    assert(modifier_named("super"@) == Some(Modifier::Meta));
    assert(modifier_named("meta"@) == Some(Modifier::Meta));
    assert(modifier_named("cmd"@) == Some(Modifier::Meta));
    assert forall|i: int| 0 <= i < parts.len() implies says(text, #[trigger] word(text, i)) by {}
}

/// Each modifier belongs to the shortcut exactly when one of the parts of the text
/// is a word for it, so texts that name different modifiers stand for different
/// shortcuts.
pub proof fn law_modifiers_are_those_named(text: Seq<char>)
    ensures
        shortcut_of(text) matches Ok(shortcut) ==> {
            &&& shortcut.modifiers.control <==> says(text, "ctrl"@) || says(text, "control"@)
            &&& shortcut.modifiers.shift <==> says(text, "shift"@)
            &&& shortcut.modifiers.alt <==> says(text, "alt"@)
            &&& shortcut.modifiers.meta <==> says(text, "win"@) || says(text, "super"@) || says(
                text,
                "meta"@,
            ) || says(text, "cmd"@)
        },
{
    lemma_words_ask(text);
}

/// A text of modifiers and empty parts alone names no key.
pub proof fn law_key_is_needed(text: Seq<char>)
    requires
        forall|i: int| !#[trigger] key_word(text, i),
    ensures
        shortcut_of(text) == Err::<Shortcut, ShortcutErrorView>(ShortcutErrorView::NoKey),
{
    let parts = parts(text);
    assert forall|i: int| 0 <= i < parts.len() implies !key_part(#[trigger] parts[i]) by {
        lemma_key_words(text, i);
        assert(!key_word(text, i));
    }
    lemma_no_key_parts(parts);
}

/// The first part that is neither empty nor a modifier has to be the key. If it is
/// unknown, the text fails for that; else a second such part is one too many; else
/// a modifier is needed; else the text stands for that key with the modifiers that
/// it names.
pub proof fn law_first_key_decides(text: Seq<char>, k: int)
    requires
        key_word(text, k),
        forall|i: int| i < k ==> !#[trigger] key_word(text, i),
    ensures
        ({
            let name = upper(trimmed(pieces(text, '+')[k]));
            match shortcut_of(text) {
                Err(ShortcutErrorView::NoKey) => false,
                Err(ShortcutErrorView::UnknownKey(unknown)) => unknown == name && forall|code: Code|
                    name != #[trigger] name_of(code) && Some(name) != other_name_of(code),
                Err(ShortcutErrorView::SeveralKeys(whole)) => {
                    &&& whole == text
                    &&& exists|code: Code|
                        name == #[trigger] name_of(code) || Some(name) == other_name_of(code)
                    &&& exists|i: int| i > k && #[trigger] key_word(text, i)
                },
                Err(ShortcutErrorView::NoModifier) => {
                    &&& forall|i: int| i > k ==> !#[trigger] key_word(text, i)
                    &&& forall|i: int|
                        0 <= i < pieces(text, '+').len() ==> !modifier_word(
                            #[trigger] word(text, i),
                        )
                    &&& exists|code: Code|
                        name == #[trigger] name_of(code) || Some(name) == other_name_of(code)
                },
                Ok(shortcut) => {
                    &&& name == name_of(shortcut.key) || Some(name) == other_name_of(shortcut.key)
                    &&& forall|i: int| i > k ==> !#[trigger] key_word(text, i)
                    &&& exists|i: int|
                        0 <= i < pieces(text, '+').len() && modifier_word(#[trigger] word(text, i))
                },
            }
        }),
{
    let parts = parts(text);
    let name = upper(trimmed(pieces(text, '+')[k]));
    assert forall|i: int| 0 <= i < parts.len() implies #[trigger] key_part(parts[i]) == key_word(
        text,
        i,
    ) by {
        lemma_key_words(text, i);
    }
    lemma_key_words(text, k);
    assert forall|i: int| 0 <= i < k implies !key_part(#[trigger] parts[i]) by {
        assert(!key_word(text, i));
    }
    lemma_only_key_part(parts, k);
    lemma_words_ask(text);
    match key_named(name) {
        Some(code) => {
            lemma_names_of_keys(name, code);
        },
        None => {
            assert forall|code: Code| name != #[trigger] name_of(code) && Some(name)
                != other_name_of(code) by {
                lemma_names_of_keys(name, code);
            }
        },
    }
    if forall|i: int| k < i < parts.len() ==> !key_part(#[trigger] parts[i]) {
        assert forall|i: int| i > k implies !#[trigger] key_word(text, i) by {
            if i < parts.len() {
                assert(!key_part(parts[i]));
            }
        }
    } else {
        let i = choose|i: int| k < i < parts.len() && key_part(#[trigger] parts[i]);
        assert(key_word(text, i));
    }
    if modifiers_of(parts).none() {
        assert forall|i: int| 0 <= i < pieces(text, '+').len() implies !modifier_word(
            #[trigger] word(text, i),
        ) by {
            assert(says(text, word(text, i)));
        }
    } else {
        assert(exists|i: int|
            0 <= i < pieces(text, '+').len() && modifier_word(#[trigger] word(text, i)));
    }
    assert(key_parts(parts)[0] == trimmed(pieces(text, '+')[k]));
    if let Some(code) = key_named(name) {
        lemma_names_of_keys(name, code);
        assert(exists|code: Code|
            name == #[trigger] name_of(code) || Some(name) == other_name_of(code)) by {
            assert(name == name_of(code) || Some(name) == other_name_of(code));
        }
    }
}

/// Reading a shortcut gives what the laws say of its text.
pub proof fn law_shortcut_is_read_from_its_text(
    text: &str,
    r: Result<Shortcut, ShortcutError>,
)
    requires
        call_ensures(parse_shortcut, (text,), r),
    ensures
        result_view(r) == shortcut_of(text@),
        r matches Ok(shortcut) ==> shortcut_of(text@) == Ok::<Shortcut, ShortcutErrorView>(
            shortcut,
        ),
        r is Err ==> shortcut_of(text@) is Err,
{
}

/// The user is told the text that is at fault, whole and at the end; the two
/// complaints differ, whatever the texts.
pub proof fn law_complaint_ends_with_the_text(name: Seq<char>, text: Seq<char>)
    ensures
        error_text(ShortcutErrorView::UnknownKey(name)) == error_text(
            ShortcutErrorView::UnknownKey(Seq::empty()),
        ) + name,
        error_text(ShortcutErrorView::SeveralKeys(text)) == error_text(
            ShortcutErrorView::SeveralKeys(Seq::empty()),
        ) + text,
        error_text(ShortcutErrorView::UnknownKey(name)) != error_text(
            ShortcutErrorView::SeveralKeys(text),
        ),
        forall|error: &ShortcutError, r: String| #[trigger]
            call_ensures(ShortcutError::message, (error,), r) ==> r@ == error_text(error@),
{
    reveal_strlit("认不出的按键：");
    reveal_strlit("快捷键里出现了多个主键：");
    let empty = Seq::<char>::empty();
    assert("认不出的按键："@ + empty == "认不出的按键："@);
    assert("快捷键里出现了多个主键："@ + empty == "快捷键里出现了多个主键："@);
    assert(error_text(ShortcutErrorView::UnknownKey(name))[0] != error_text(
        ShortcutErrorView::SeveralKeys(text),
    )[0]);
}

} // verus!
