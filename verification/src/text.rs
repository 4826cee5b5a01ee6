//! Characters and strings: white space, splitting, ASCII case, decimal numbers.
//!
//! A string is modelled by the sequence of its characters.
use vstd::prelude::*;

verus! {

// ── Characters ──

/// The characters with the Unicode property `White_Space`.
pub open spec fn white(c: char) -> bool {
    let u = c as u32;
    ||| 0x09 <= u <= 0x0d
    ||| u == 0x20
    ||| u == 0x85
    ||| u == 0xa0
    ||| u == 0x1680
    ||| 0x2000 <= u <= 0x200a
    ||| u == 0x2028
    ||| u == 0x2029
    ||| u == 0x202f
    ||| u == 0x205f
    ||| u == 0x3000
}

/// The characters of the Unicode category `Cc`.
pub open spec fn control(c: char) -> bool {
    let u = c as u32;
    u < 0x20 || 0x7f <= u < 0xa0
}

pub open spec fn lower_char(c: char) -> char {
    if 'A' <= c <= 'Z' {
        ((c as u8) + 32) as char
    } else {
        c
    }
}

pub open spec fn upper_char(c: char) -> char {
    if 'a' <= c <= 'z' {
        ((c as u8) - 32) as char
    } else {
        c
    }
}

/// Whether a character is white space.
pub fn is_whitespace(c: char) -> (r: bool)
    ensures
        r == white(c),
{
    let u: u32 = c as u32;
    (0x09 <= u && u <= 0x0d) || u == 0x20 || u == 0x85 || u == 0xa0 || u == 0x1680 || (0x2000 <= u
        && u <= 0x200a) || u == 0x2028 || u == 0x2029 || u == 0x202f || u == 0x205f || u == 0x3000
}

/// Whether a character is a control character.
pub fn is_control(c: char) -> (r: bool)
    ensures
        r == control(c),
{
    let u: u32 = c as u32;
    u < 0x20 || (0x7f <= u && u < 0xa0)
}

fn char_to_lower(c: char) -> (r: char)
    ensures
        r == lower_char(c),
{
    if 'A' <= c && c <= 'Z' {
        (c as u8 + 32) as char
    } else {
        c
    }
}

fn char_to_upper(c: char) -> (r: char)
    ensures
        r == upper_char(c),
{
    if 'a' <= c && c <= 'z' {
        (c as u8 - 32) as char
    } else {
        c
    }
}

// ── Whole strings ──

pub open spec fn lower(s: Seq<char>) -> Seq<char> {
    s.map_values(|c: char| lower_char(c))
}

pub open spec fn upper(s: Seq<char>) -> Seq<char> {
    s.map_values(|c: char| upper_char(c))
}

pub open spec fn trim_start(s: Seq<char>) -> Seq<char>
    decreases s.len(),
{
    if s.len() > 0 && white(s[0]) {
        trim_start(s.skip(1))
    } else {
        s
    }
}

pub open spec fn trim_end(s: Seq<char>) -> Seq<char>
    decreases s.len(),
{
    if s.len() > 0 && white(s.last()) {
        trim_end(s.drop_last())
    } else {
        s
    }
}

/// A string without the white space at its two ends.
pub open spec fn trimmed(s: Seq<char>) -> Seq<char> {
    trim_end(trim_start(s))
}

/// Nothing but white space.
pub open spec fn blank(s: Seq<char>) -> bool {
    forall|i: int| 0 <= i < s.len() ==> white(#[trigger] s[i])
}

proof fn lemma_trim_start_blank(s: Seq<char>)
    ensures
        trim_start(s).len() == 0 <==> blank(s),
        trim_start(s).len() > 0 ==> !white(trim_start(s)[0]),
    decreases s.len(),
{
    if s.len() > 0 && white(s[0]) {
        lemma_trim_start_blank(s.skip(1));
        if blank(s.skip(1)) {
            assert forall|i: int| 0 <= i < s.len() implies white(#[trigger] s[i]) by {
                if i > 0 {
                    assert(s.skip(1)[i - 1] == s[i]);
                }
            }
        }
        if blank(s) {
            assert forall|i: int| 0 <= i < s.skip(1).len() implies white(
                #[trigger] s.skip(1)[i],
            ) by {
                assert(s[i + 1] == s.skip(1)[i]);
            }
        }
    }
}

proof fn lemma_trim_end_keeps_start(s: Seq<char>)
    requires
        s.len() > 0,
        !white(s[0]),
    ensures
        trim_end(s).len() > 0,
        trim_end(s)[0] == s[0],
        !white(trim_end(s).last()),
    decreases s.len(),
{
    if white(s.last()) {
        lemma_trim_end_keeps_start(s.drop_last());
    }
}

/// Nothing is left of a string by trimming exactly when it is all white space.
pub proof fn lemma_trimmed_empty(s: Seq<char>)
    ensures
        trimmed(s).len() == 0 <==> blank(s),
{
    lemma_trim_start_blank(s);
    if trim_start(s).len() > 0 {
        lemma_trim_end_keeps_start(trim_start(s));
    }
}

/// Trimming twice is trimming once.
pub proof fn lemma_trimmed_twice(s: Seq<char>)
    ensures
        trimmed(trimmed(s)) == trimmed(s),
{
    lemma_trim_start_blank(s);
    if trim_start(s).len() > 0 {
        lemma_trim_end_keeps_start(trim_start(s));
    }
}

/// The pieces between the separators, from left to right. There is always one
/// piece more than there are separators.
pub open spec fn pieces(s: Seq<char>, sep: char) -> Seq<Seq<char>>
    decreases s.len(),
{
    if s.len() == 0 {
        seq![Seq::empty()]
    } else {
        let before = pieces(s.drop_last(), sep);
        if s.last() == sep {
            before.push(Seq::empty())
        } else {
            before.drop_last().push(before.last().push(s.last()))
        }
    }
}

/// `needle` stands in `s` at that place.
pub open spec fn holds_at(s: Seq<char>, needle: Seq<char>, at: int) -> bool {
    0 <= at && at + needle.len() <= s.len() && s.subrange(at, at + needle.len()) == needle
}

/// `needle` stands somewhere in `s`.
pub open spec fn holds(s: Seq<char>, needle: Seq<char>) -> bool {
    exists|at: int| holds_at(s, needle, at)
}

pub open spec fn views(strings: Seq<String>) -> Seq<Seq<char>> {
    strings.map_values(|s: String| s@)
}

pub open spec fn slice_views(strings: Seq<&str>) -> Seq<Seq<char>> {
    strings.map_values(|s: &str| s@)
}

pub open spec fn text_view(text: Option<String>) -> Option<Seq<char>> {
    match text {
        Some(s) => Some(s@),
        None => None,
    }
}

pub open spec fn slice_view(text: Option<&str>) -> Option<Seq<char>> {
    match text {
        Some(s) => Some(s@),
        None => None,
    }
}

pub open spec fn error_view<T>(r: Result<T, String>) -> Result<T, Seq<char>> {
    match r {
        Ok(value) => Ok(value),
        Err(error) => Err(error@),
    }
}

/// Whether two strings hold the same characters.
pub fn same(a: &str, b: &str) -> (r: bool)
    ensures
        r == (a@ == b@),
{
    *a == *b
}

pub(crate) fn chars_of(s: &str) -> (v: Vec<char>)
    ensures
        v@ == s@,
{
    let mut v: Vec<char> = Vec::new();
    for c in it: s.chars()
        invariant
            v@ == s@.take(it.index() as int),
            it.seq() == s@,
    {
        v.push(c);
    }
    v
}

/// A string with its ASCII letters in lower case.
pub fn to_lower(s: &str) -> (r: String)
    ensures
        r@ == lower(s@),
{
    let mut r = String::new();
    for c in it: s.chars()
        invariant
            r@ == lower(s@).take(it.index() as int),
            it.seq() == s@,
    {
        r.push(char_to_lower(c));
    }
    r
}

/// A string with its ASCII letters in upper case.
pub fn to_upper(s: &str) -> (r: String)
    ensures
        r@ == upper(s@),
{
    let mut r = String::new();
    for c in it: s.chars()
        invariant
            r@ == upper(s@).take(it.index() as int),
            it.seq() == s@,
    {
        r.push(char_to_upper(c));
    }
    r
}

/// Whether two strings differ at most in the case of ASCII letters.
pub fn same_ignoring_case(a: &str, b: &str) -> (r: bool)
    ensures
        r == (lower(a@) == lower(b@)),
{
    same(to_lower(a).as_str(), to_lower(b).as_str())
}

/// The part of a string between the white space at its two ends.
pub fn trim<'a>(s: &'a str) -> (r: &'a str)
    ensures
        r@ == trimmed(s@),
{
    let chars = chars_of(s);
    let mut lo: usize = 0;
    assert(s@.skip(0) == s@);
    while lo < chars.len() && is_whitespace(chars[lo])
        invariant
            chars@ == s@,
            0 <= lo <= s@.len(),
            trim_start(s@) == trim_start(s@.skip(lo as int)),
        decreases s@.len() - lo,
    {
        assert(s@.skip(lo as int).skip(1) == s@.skip(lo + 1));
        lo = lo + 1;
    }
    assert(trim_start(s@) == s@.skip(lo as int));
    let mut hi: usize = chars.len();
    assert(s@.subrange(lo as int, hi as int) == s@.skip(lo as int));
    while lo < hi && is_whitespace(chars[hi - 1])
        invariant
            chars@ == s@,
            0 <= lo <= hi <= s@.len(),
            trimmed(s@) == trim_end(s@.subrange(lo as int, hi as int)),
        decreases hi,
    {
        assert(s@.subrange(lo as int, hi as int).drop_last() == s@.subrange(lo as int, hi - 1));
        hi = hi - 1;
    }
    assert(trim_end(s@.subrange(lo as int, hi as int)) == s@.subrange(lo as int, hi as int));
    s.substring_char(lo, hi)
}

/// The pieces of a string between separators.
pub fn split<'a>(s: &'a str, sep: char) -> (r: Vec<&'a str>)
    ensures
        slice_views(r@) == pieces(s@, sep),
{
    let chars = chars_of(s);
    let mut r: Vec<&'a str> = Vec::new();
    let mut start: usize = 0;
    let mut i: usize = 0;
    assert(s@.take(0) == Seq::<char>::empty());
    while i < chars.len()
        invariant
            chars@ == s@,
            0 <= start <= i <= s@.len(),
            slice_views(r@).push(s@.subrange(start as int, i as int)) == pieces(
                s@.take(i as int),
                sep,
            ),
        decreases s@.len() - i,
    {
        let ghost done = slice_views(r@);
        let ghost open = s@.subrange(start as int, i as int);
        assert(s@.take(i + 1).drop_last() == s@.take(i as int));
        if chars[i] == sep {
            r.push(s.substring_char(start, i));
            assert(slice_views(r@) == done.push(open));
            start = i + 1;
            assert(s@.subrange(start as int, i + 1) == Seq::<char>::empty());
        } else {
            assert(done.push(open).drop_last() == done);
            assert(s@.subrange(start as int, i + 1) == open.push(chars[i as int]));
        }
        i = i + 1;
    }
    let ghost done = slice_views(r@);
    r.push(s.substring_char(start, chars.len()));
    assert(s@.take(s@.len() as int) == s@);
    assert(slice_views(r@) == done.push(s@.subrange(start as int, s@.len() as int)));
    r
}

/// Whether a string contains another.
pub fn contains(s: &str, needle: &str) -> (r: bool)
    ensures
        r == holds(s@, needle@),
{
    let hay = chars_of(s);
    let pin = chars_of(needle);
    if hay.len() < pin.len() {
        return false;
    }
    let last: usize = hay.len() - pin.len();
    let mut at: usize = 0;
    while at <= last
        invariant
            hay@ == s@,
            pin@ == needle@,
            last == s@.len() - needle@.len(),
            at <= last + 1,
            forall|k: int| 0 <= k < at ==> !holds_at(s@, needle@, k),
        decreases last + 1 - at,
    {
        let mut k: usize = 0;
        while k < pin.len() && hay[at + k] == pin[k]
            invariant
                hay@ == s@,
                pin@ == needle@,
                last == s@.len() - needle@.len(),
                at <= last,
                at + pin.len() <= hay.len(),
                k <= pin.len(),
                forall|j: int| 0 <= j < k ==> s@[at + j] == needle@[j],
            decreases pin.len() - k,
        {
            k = k + 1;
        }
        if k == pin.len() {
            assert(s@.subrange(at as int, at + needle@.len()) == needle@);
            assert(holds_at(s@, needle@, at as int));
            return true;
        }
        assert(s@.subrange(at as int, at + needle@.len())[k as int] != needle@[k as int]);
        if at == last {
            return false;
        }
        at = at + 1;
    }
    false
}

// ── Paths ──

pub open spec fn separator(c: char) -> bool {
    c == '\\' || c == '/'
}

/// What follows the last separator of a path.
pub open spec fn after_separator(path: Seq<char>) -> Seq<char>
    decreases path.len(),
{
    if path.len() == 0 || separator(path.last()) {
        Seq::empty()
    } else {
        after_separator(path.drop_last()).push(path.last())
    }
}

proof fn lemma_after_separator(path: Seq<char>, start: int)
    requires
        0 <= start <= path.len(),
        start == 0 || separator(path[start - 1]),
        forall|i: int| start <= i < path.len() ==> !separator(#[trigger] path[i]),
    ensures
        after_separator(path) == path.skip(start),
    decreases path.len(),
{
    if start < path.len() {
        lemma_after_separator(path.drop_last(), start);
        assert(path.drop_last().skip(start).push(path.last()) == path.skip(start));
    } else {
        assert(path.skip(start) == Seq::<char>::empty());
    }
}

/// The last name in a path, which may be empty.
pub fn file_name<'a>(path: &'a str) -> (r: &'a str)
    ensures
        r@ == after_separator(path@),
{
    let chars = chars_of(path);
    let mut start: usize = chars.len();
    while start > 0 && chars[start - 1] != '\\' && chars[start - 1] != '/'
        invariant
            chars@ == path@,
            start <= path@.len(),
            forall|i: int| start <= i < path@.len() ==> !separator(#[trigger] path@[i]),
        decreases start,
    {
        start = start - 1;
    }
    proof {
        lemma_after_separator(path@, start as int);
        assert(path@.subrange(start as int, path@.len() as int) == path@.skip(start as int));
    }
    path.substring_char(start, chars.len())
}

// ── Numbers ──

pub open spec fn digit_char(d: int) -> char {
    (48 + d) as char
}

/// A number in decimal, without leading zeros.
pub open spec fn decimal(n: nat) -> Seq<char>
    decreases n,
{
    if n < 10 {
        seq![digit_char(n as int)]
    } else {
        decimal(n / 10).push(digit_char((n % 10) as int))
    }
}

/// A number in decimal, with zeros in front up to the given width.
pub open spec fn padded(n: nat, width: nat) -> Seq<char> {
    let digits = decimal(n);
    let zeros = if digits.len() < width {
        (width - digits.len()) as nat
    } else {
        0
    };
    Seq::new(zeros, |i: int| '0') + digits
}

fn digit_of(d: u64) -> (c: char)
    requires
        d < 10,
    ensures
        c == digit_char(d as int),
{
    (48u8 + d as u8) as char
}

/// A number in decimal, without leading zeros.
pub fn to_decimal(n: u64) -> (r: String)
    ensures
        r@ == decimal(n as nat),
    decreases n,
{
    if n < 10 {
        let mut r = String::new();
        r.push(digit_of(n));
        r
    } else {
        let mut r = to_decimal(n / 10);
        r.push(digit_of(n % 10));
        r
    }
}

/// A number in decimal, with zeros in front up to the given width.
pub fn to_padded(n: u64, width: usize) -> (r: String)
    ensures
        r@ == padded(n as nat, width as nat),
{
    let digits = to_decimal(n);
    let len: usize = digits.as_str().unicode_len();
    let mut r = String::new();
    let mut i: usize = len;
    while i < width
        invariant
            len == digits@.len(),
            len <= i,
            i <= width || i == len,
            r@ == Seq::new((i - len) as nat, |i: int| '0'),
        decreases width - i,
    {
        r.push('0');
        i = i + 1;
    }
    r.append(digits.as_str());
    r
}

// ── Laws ──

/// Lower case: the length stays, each capital ASCII letter becomes the small
/// letter at its place in the alphabet, and nothing else changes.
pub proof fn law_lower_case(s: Seq<char>, i: int)
    requires
        0 <= i < s.len(),
    ensures
        lower(s).len() == s.len(),
        if 65 <= s[i] as int <= 90 {
            lower(s)[i] as int == s[i] as int + 32
        } else {
            lower(s)[i] == s[i]
        },
        forall|text: &str, r: String| #[trigger]
            call_ensures(to_lower, (text,), r) ==> r@ == lower(text@),
{
}

/// Upper case: the length stays, each small ASCII letter becomes the capital
/// letter at its place in the alphabet, and nothing else changes.
pub proof fn law_upper_case(s: Seq<char>, i: int)
    requires
        0 <= i < s.len(),
    ensures
        upper(s).len() == s.len(),
        if 97 <= s[i] as int <= 122 {
            upper(s)[i] as int == s[i] as int - 32
        } else {
            upper(s)[i] == s[i]
        },
        forall|text: &str, r: String| #[trigger]
            call_ensures(to_upper, (text,), r) ==> r@ == upper(text@),
{
}

/// Two texts are taken for the same, but for case, exactly when they have one
/// length and differ at most in letters that are 32 apart.
pub proof fn law_same_but_for_case(a: &str, b: &str, r: bool)
    requires
        call_ensures(same_ignoring_case, (a, b), r),
    ensures
        r <==> a@.len() == b@.len() && forall|i: int|
            0 <= i < a@.len() ==> {
                ||| #[trigger] a@[i] == b@[i]
                ||| 65 <= a@[i] as int <= 90 && b@[i] as int == a@[i] as int + 32
                ||| 65 <= b@[i] as int <= 90 && a@[i] as int == b@[i] as int + 32
            },
{
    if r {
        assert(lower(a@).len() == lower(b@).len());
        assert forall|i: int| 0 <= i < a@.len() implies {
            ||| #[trigger] a@[i] == b@[i]
            ||| 65 <= a@[i] as int <= 90 && b@[i] as int == a@[i] as int + 32
            ||| 65 <= b@[i] as int <= 90 && a@[i] as int == b@[i] as int + 32
        } by {
            assert(lower(a@)[i] == lower(b@)[i]);
        }
    }
    if a@.len() == b@.len() && forall|i: int|
        0 <= i < a@.len() ==> {
            ||| #[trigger] a@[i] == b@[i]
            ||| 65 <= a@[i] as int <= 90 && b@[i] as int == a@[i] as int + 32
            ||| 65 <= b@[i] as int <= 90 && a@[i] as int == b@[i] as int + 32
        } {
        assert(lower(a@) =~= lower(b@));
    }
}

proof fn lemma_trim_start_skips(before: Seq<char>, rest: Seq<char>)
    requires
        blank(before),
        rest.len() > 0 ==> !white(rest[0]),
    ensures
        trim_start(before + rest) == rest,
    decreases before.len(),
{
    if before.len() == 0 {
        assert(before + rest == rest);
    } else {
        assert(white(before[0]));
        assert(blank(before.skip(1))) by {
            assert forall|i: int| 0 <= i < before.skip(1).len() implies white(
                #[trigger] before.skip(1)[i],
            ) by {
                assert(white(before[i + 1]));
            }
        }
        lemma_trim_start_skips(before.skip(1), rest);
        assert((before + rest).skip(1) == before.skip(1) + rest);
    }
}

proof fn lemma_trim_end_skips(rest: Seq<char>, after: Seq<char>)
    requires
        blank(after),
        rest.len() > 0 ==> !white(rest.last()),
    ensures
        trim_end(rest + after) == rest,
    decreases after.len(),
{
    if after.len() == 0 {
        assert(rest + after == rest);
    } else {
        assert(white(after[after.len() - 1]));
        assert(blank(after.drop_last())) by {
            assert forall|i: int| 0 <= i < after.drop_last().len() implies white(
                #[trigger] after.drop_last()[i],
            ) by {
                assert(white(after[i]));
            }
        }
        lemma_trim_end_skips(rest, after.drop_last());
        assert((rest + after).drop_last() == rest + after.drop_last());
    }
}

/// Trimming takes away the white space at both ends and nothing else: a text that
/// neither starts nor ends with white space comes out of whatever white space is
/// put around it.
pub proof fn law_trimming_takes_space_around(
    before: Seq<char>,
    inner: Seq<char>,
    after: Seq<char>,
)
    requires
        blank(before),
        blank(after),
        inner.len() > 0 ==> !white(inner[0]) && !white(inner.last()),
    ensures
        trimmed(before + inner + after) == inner,
        forall|text: &str, r: &str| #[trigger]
            call_ensures(trim, (text,), r) ==> r@ == trimmed(text@),
{
    if inner.len() == 0 {
        let whole = before + inner + after;
        assert(blank(whole)) by {
            assert forall|i: int| 0 <= i < whole.len() implies white(#[trigger] whole[i]) by {
                if i < before.len() {
                    assert(white(before[i]));
                } else {
                    assert(white(after[i - before.len()]));
                }
            }
        }
        lemma_trimmed_empty(whole);
    } else {
        assert(before + inner + after == before + (inner + after));
        lemma_trim_start_skips(before, inner + after);
        lemma_trim_end_skips(inner, after);
    }
}

/// There is always a piece.
pub proof fn lemma_some_piece(s: Seq<char>, sep: char)
    ensures
        pieces(s, sep).len() > 0,
    decreases s.len(),
{
    if s.len() > 0 {
        lemma_some_piece(s.drop_last(), sep);
    }
}

/// What holds no separator goes to the last piece.
pub proof fn lemma_last_piece_grows(s: Seq<char>, t: Seq<char>, sep: char)
    requires
        !t.contains(sep),
    ensures
        pieces(s + t, sep) == pieces(s, sep).drop_last().push(pieces(s, sep).last() + t),
    decreases t.len(),
{
    lemma_some_piece(s, sep);
    let before = pieces(s, sep);
    if t.len() == 0 {
        assert(s + t == s);
        assert(before.last() + t == before.last());
        assert(before == before.drop_last().push(before.last()));
    } else {
        let rest = t.drop_last();
        assert(!rest.contains(sep)) by {
            if rest.contains(sep) {
                let i = choose|i: int| 0 <= i < rest.len() && rest[i] == sep;
                assert(t[i] == sep);
            }
        }
        lemma_last_piece_grows(s, rest, sep);
        assert(t[t.len() - 1] != sep);
        assert((s + t).drop_last() == s + rest);
        assert((before.last() + rest).push(t.last()) == before.last() + t);
        assert(before.drop_last().push(before.last() + rest).drop_last() == before.drop_last());
    }
}

/// Splitting: a text without a separator is one piece, and a separator with such a
/// text behind it adds that text as one more piece, whatever stands before.
pub proof fn law_separator_begins_a_piece(s: Seq<char>, t: Seq<char>, sep: char)
    requires
        !t.contains(sep),
    ensures
        pieces(t, sep) == seq![t],
        pieces(s + seq![sep] + t, sep) == pieces(s, sep).push(t),
        forall|text: &str, c: char, r: Vec<&str>| #[trigger]
            call_ensures(split, (text, c), r) ==> r@.len() == pieces(text@, c).len() && forall|
                i: int,
            |
                0 <= i < r@.len() ==> #[trigger] r@[i]@ == pieces(text@, c)[i],
{
    let empty = Seq::<char>::empty();
    lemma_last_piece_grows(empty, t, sep);
    assert(empty + t == t);
    assert(pieces(empty, sep) == seq![empty]);
    assert(pieces(t, sep) =~= seq![t]);
    let start = s + seq![sep];
    assert(start.drop_last() == s);
    assert(pieces(start, sep) == pieces(s, sep).push(empty));
    lemma_last_piece_grows(start, t, sep);
    assert(pieces(s, sep).push(empty).drop_last() == pieces(s, sep));
    assert forall|text: &str, c: char, r: Vec<&str>| #[trigger]
        call_ensures(split, (text, c), r) implies r@.len() == pieces(text@, c).len() && forall|
        i: int,
    |
        0 <= i < r@.len() ==> #[trigger] r@[i]@ == pieces(text@, c)[i] by {
        assert(slice_views(r@).len() == r@.len());
        assert forall|i: int| 0 <= i < r@.len() implies #[trigger] r@[i]@ == pieces(
            text@,
            c,
        )[i] by {
            assert(slice_views(r@)[i] == r@[i]@);
        }
    }
}

/// A text holds another exactly when it can be cut into three, with the other in
/// the middle.
pub proof fn law_holding_is_being_cut_out(s: Seq<char>, needle: Seq<char>)
    ensures
        holds(s, needle) <==> exists|before: Seq<char>, after: Seq<char>|
            s == #[trigger] (before + needle + after),
        forall|text: &str, part: &str, r: bool| #[trigger]
            call_ensures(contains, (text, part), r) ==> r == holds(text@, part@),
{
    if holds(s, needle) {
        let at = choose|at: int| holds_at(s, needle, at);
        let before = s.take(at);
        let after = s.skip(at + needle.len());
        assert(s == before + needle + after) by {
            assert(needle == s.subrange(at, at + needle.len()));
        }
    }
    if exists|before: Seq<char>, after: Seq<char>| s == #[trigger] (before + needle + after) {
        let (before, after) = choose|before: Seq<char>, after: Seq<char>|
            s == #[trigger] (before + needle + after);
        let at = before.len() as int;
        assert(s.subrange(at, at + needle.len()) == needle);
        assert(holds_at(s, needle, at));
    }
}

/// The name at the end of a path: whatever directory stands before it, as long as
/// that ends with a slash of either kind and the name holds none.
pub proof fn law_name_follows_directory(dir: Seq<char>, name: Seq<char>)
    requires
        dir.len() > 0 ==> dir.last() == '\\' || dir.last() == '/',
        !name.contains('\\'),
        !name.contains('/'),
    ensures
        after_separator(dir + name) == name,
        forall|path: &str, r: &str| #[trigger]
            call_ensures(file_name, (path,), r) ==> r@ == after_separator(path@),
{
    let path = dir + name;
    assert forall|i: int| dir.len() <= i < path.len() implies !separator(#[trigger] path[i]) by {
        assert(name.contains(name[i - dir.len()]));
    }
    lemma_after_separator(path, dir.len() as int);
    assert(path.skip(dir.len() as int) == name);
}

/// The number that some decimal digits stand for.
pub open spec fn value(digits: Seq<char>) -> int
    decreases digits.len(),
{
    if digits.len() == 0 {
        0
    } else {
        10 * value(digits.drop_last()) + (digits.last() as int - '0' as int)
    }
}

pub open spec fn all_digits(s: Seq<char>) -> bool {
    forall|i: int| 0 <= i < s.len() ==> '0' <= #[trigger] s[i] <= '9'
}

/// A number in decimal reads back as that number, and does not start with a zero
/// but for the number zero.
pub proof fn law_decimal_reads_back(n: nat)
    ensures
        value(decimal(n)) == n,
        all_digits(decimal(n)),
        decimal(n).len() > 0,
        n > 0 ==> decimal(n)[0] != '0',
        n == 0 ==> decimal(n).len() == 1,
        forall|number: u64, r: String| #[trigger]
            call_ensures(to_decimal, (number,), r) ==> r@ == decimal(number as nat),
    decreases n,
{
    if n < 10 {
        let c = digit_char(n as int);
        assert(c as int == 48 + n);
        assert(seq![c].drop_last() == Seq::<char>::empty());
        assert(value(Seq::<char>::empty()) == 0);
        assert(decimal(n) == seq![c]);
        assert(decimal(n).last() == c);
    } else {
        law_decimal_reads_back(n / 10);
        let c = digit_char((n % 10) as int);
        assert(c as int == 48 + n % 10);
        assert(decimal(n).drop_last() == decimal(n / 10));
        assert(decimal(n).last() == c);
        assert(decimal(n)[0] == decimal(n / 10)[0]);
    }
}

proof fn lemma_value_of_zeros(zeros: nat, digits: Seq<char>)
    ensures
        value(Seq::new(zeros, |i: int| '0') + digits) == value(digits),
    decreases zeros + digits.len(),
{
    let front = Seq::new(zeros, |i: int| '0');
    let whole = front + digits;
    if digits.len() > 0 {
        lemma_value_of_zeros(zeros, digits.drop_last());
        assert(whole.drop_last() == front + digits.drop_last());
        assert(whole.last() == digits.last());
    } else if zeros > 0 {
        let fewer = (zeros - 1) as nat;
        lemma_value_of_zeros(fewer, digits);
        assert(whole.drop_last() == Seq::new(fewer, |i: int| '0') + digits);
        assert(whole.last() == '0');
    } else {
        assert(whole == digits);
    }
}

/// A padded number reads back as that number, has the width asked for, and is
/// longer only where its digits need the room.
pub proof fn law_padded_number_reads_back(n: nat, width: nat)
    ensures
        value(padded(n, width)) == n,
        all_digits(padded(n, width)),
        padded(n, width).len() >= width,
        padded(n, width).len() > width ==> padded(n, width) == decimal(n),
        forall|number: u64, w: usize, r: String| #[trigger]
            call_ensures(to_padded, (number, w), r) ==> r@ == padded(number as nat, w as nat),
{
    law_decimal_reads_back(n);
    let digits = decimal(n);
    let zeros = if digits.len() < width {
        (width - digits.len()) as nat
    } else {
        0
    };
    lemma_value_of_zeros(zeros, digits);
    if zeros == 0 {
        assert(padded(n, width) == digits);
    }
}

} // verus!
