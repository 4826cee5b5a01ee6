//! Saving a text to a file: what the file is called and what it holds.
use crate::text::{
    blank, chars_of, control, decimal, digit_char, is_control, law_padded_number_reads_back,
    lemma_trimmed_empty, lemma_trimmed_twice, padded, pieces, same, slice_views, split, to_decimal,
    to_padded, trim, trim_end, trim_start, trimmed, value,
};
use vstd::prelude::*;
use vstd::utf8::{decode_utf8, encode_utf8, encode_utf8_decode_utf8, encode_utf8_valid_utf8, valid_utf8};

verus! {

/// How many characters of the text go into the name at most.
pub const SNIPPET_CHARS: usize = 20;

// ── The time ──

/// A local time.
#[derive(Clone, Copy, Debug)]
pub struct LocalTime {
    pub year: u16,
    pub month: u16,
    pub day: u16,
    pub hour: u16,
    pub minute: u16,
    pub second: u16,
}

/// A time such as `20260922_211005`.
pub open spec fn stamp(t: LocalTime) -> Seq<char> {
    padded(t.year as nat, 4) + padded(t.month as nat, 2) + padded(t.day as nat, 2) + "_"@ + padded(
        t.hour as nat,
        2,
    ) + padded(t.minute as nat, 2) + padded(t.second as nat, 2)
}

/// Writes a time such as `20260922_211005`.
pub fn timestamp(t: &LocalTime) -> (r: String)
    ensures
        r@ == stamp(*t),
{
    to_padded(t.year as u64, 4).concat(to_padded(t.month as u64, 2).as_str()).concat(
        to_padded(t.day as u64, 2).as_str(),
    ).concat("_").concat(to_padded(t.hour as u64, 2).as_str()).concat(
        to_padded(t.minute as u64, 2).as_str(),
    ).concat(to_padded(t.second as u64, 2).as_str())
}

// ── The name ──

/// A character that may stand in a file name.
pub open spec fn allowed(c: char) -> bool {
    &&& !control(c)
    &&& c != '\\'
    &&& c != '/'
    &&& c != ':'
    &&& c != '*'
    &&& c != '?'
    &&& c != '"'
    &&& c != '<'
    &&& c != '>'
    &&& c != '|'
}

fn is_allowed(c: char) -> (r: bool)
    ensures
        r == allowed(c),
{
    !is_control(c) && c != '\\' && c != '/' && c != ':' && c != '*' && c != '?' && c != '"' && c
        != '<' && c != '>' && c != '|'
}

/// The first line that is not blank, without the white space around it.
pub open spec fn first_filled(lines: Seq<Seq<char>>) -> Seq<char>
    decreases lines.len(),
{
    if lines.len() == 0 {
        Seq::empty()
    } else if trimmed(lines[0]).len() > 0 {
        trimmed(lines[0])
    } else {
        first_filled(lines.skip(1))
    }
}

pub open spec fn first_chars(s: Seq<char>, n: int) -> Seq<char> {
    if s.len() <= n {
        s
    } else {
        s.take(n)
    }
}

/// The part of the text that goes into the name: the beginning of its first line
/// that is not blank, as far as a file name may hold it.
pub open spec fn snippet(content: Seq<char>) -> Seq<char> {
    let line = first_filled(pieces(content, '\n'));
    trimmed(first_chars(line.filter(|c: char| allowed(c)), SNIPPET_CHARS as int))
}

/// A name without its number and its extension.
pub open spec fn base_name(stamp: Seq<char>, content: Seq<char>) -> Seq<char> {
    stamp + "_"@ + if snippet(content).len() == 0 {
        "snapshot"@
    } else {
        snippet(content)
    }
}

pub open spec fn extension(kind: Seq<char>) -> Seq<char> {
    if kind == "md"@ {
        "md"@
    } else {
        "txt"@
    }
}

/// The names to try one after the other: the plain one, then numbered from two.
pub open spec fn nth_name(base: Seq<char>, ext: Seq<char>, n: nat) -> Seq<char> {
    if n <= 1 {
        base + "."@ + ext
    } else {
        base + "_"@ + decimal(n) + "."@ + ext
    }
}

/// Which name is next, once it is known whether a file has the one at hand.
pub open spec fn next_number(n: nat, exists: bool) -> nat {
    if exists {
        n + 1
    } else {
        n
    }
}

/// The names to try for a file.
#[derive(Debug)]
pub struct FileNames {
    base: String,
    ext: String,
    number: u64,
}

impl FileNames {
    pub closed spec fn base(self) -> Seq<char> {
        self.base@
    }

    pub closed spec fn ext(self) -> Seq<char> {
        self.ext@
    }

    /// Which name is next.
    pub closed spec fn nth(self) -> nat {
        self.number as nat
    }

    /// The name to try.
    pub fn candidate(&self) -> (r: String)
        ensures
            r@ == nth_name(self.base(), self.ext(), self.nth()),
    {
        if self.number <= 1 {
            self.base.clone().concat(".").concat(self.ext.as_str())
        } else {
            self.base.clone().concat("_").concat(to_decimal(self.number).as_str()).concat(
                ".",
            ).concat(self.ext.as_str())
        }
    }

    /// The number of the name to try.
    pub fn number(&self) -> (r: u64)
        ensures
            r == self.nth(),
    {
        self.number
    }

    /// Takes note of whether a file has the name to try. If none has, that is the
    /// name of the new file; else the next one is to be tried.
    pub fn settle(&mut self, exists: bool) -> (r: Option<String>)
        requires
            exists ==> old(self).nth() < u64::MAX,
        ensures
            final(self).base() == old(self).base(),
            final(self).ext() == old(self).ext(),
            final(self).nth() == next_number(old(self).nth(), exists),
            match r {
                Some(name) => !exists && name@ == nth_name(
                    old(self).base(),
                    old(self).ext(),
                    old(self).nth(),
                ),
                None => exists,
            },
    {
        if exists {
            self.number = self.number + 1;
            None
        } else {
            Some(self.candidate())
        }
    }
}

fn first_filled_line<'a>(lines: &Vec<&'a str>) -> (r: &'a str)
    ensures
        r@ == first_filled(slice_views(lines@)),
{
    let ghost all = slice_views(lines@);
    let mut i: usize = 0;
    assert(all.skip(0) == all);
    while i < lines.len()
        invariant
            all == slice_views(lines@),
            i <= lines.len(),
            first_filled(all) == first_filled(all.skip(i as int)),
        decreases lines.len() - i,
    {
        let line = trim(lines[i]);
        assert(all.skip(i as int)[0] == lines@[i as int]@);
        if !line.is_empty() {
            return line;
        }
        assert(all.skip(i as int).skip(1) == all.skip(i + 1));
        i = i + 1;
    }
    proof {
        reveal_strlit("");
        assert(""@ == Seq::<char>::empty());
    }
    ""
}

fn legal_beginning(line: &str) -> (r: String)
    ensures
        r@ == first_chars(line@.filter(|c: char| allowed(c)), SNIPPET_CHARS as int),
{
    let ghost legal = |c: char| allowed(c);
    let chars = chars_of(line);
    let mut r = String::new();
    let mut len: usize = 0;
    let mut i: usize = 0;
    reveal(Seq::filter);
    while i < chars.len()
        invariant
            chars@ == line@,
            legal == (|c: char| allowed(c)),
            i <= line@.len(),
            len == r@.len(),
            len <= SNIPPET_CHARS,
            r@ == first_chars(line@.take(i as int).filter(legal), SNIPPET_CHARS as int),
        decreases line@.len() - i,
    {
        reveal(Seq::filter);
        assert(line@.take(i + 1).drop_last() == line@.take(i as int));
        let ghost before = line@.take(i as int).filter(legal);
        if is_allowed(chars[i]) {
            assert(line@.take(i + 1).filter(legal) == before.push(chars@[i as int]));
            if len < SNIPPET_CHARS {
                r.push(chars[i]);
                len = len + 1;
            } else {
                assert(before.push(chars@[i as int]).take(SNIPPET_CHARS as int) == before.take(
                    SNIPPET_CHARS as int,
                ));
            }
        }
        i = i + 1;
    }
    assert(line@.take(line@.len() as int) == line@);
    r
}

/// The names for a file that is to hold the text: the time, the beginning of the
/// text, and the extension.
pub fn build_filename(content: &str, kind: &str, stamp: &str) -> (r: FileNames)
    ensures
        r.base() == base_name(stamp@, content@),
        r.ext() == extension(kind@),
        r.nth() == 1,
{
    let lines = split(content, '\n');
    let beginning = legal_beginning(first_filled_line(&lines));
    let snippet = trim(beginning.as_str());
    let base = if snippet.is_empty() {
        stamp.to_owned().concat("_").concat("snapshot")
    } else {
        stamp.to_owned().concat("_").concat(snippet)
    };
    let ext = if same(kind, "md") {
        "md".to_owned()
    } else {
        "txt".to_owned()
    };
    FileNames { base, ext, number: 1 }
}

// ── The contents ──

/// The mark that tells editors that a file is in UTF-8.
pub open spec fn byte_order_mark() -> Seq<u8> {
    seq![0xefu8, 0xbbu8, 0xbfu8]
}

/// What a file holds: the text in UTF-8, and in front of it the mark, unless the
/// file is markdown.
pub open spec fn file_bytes(content: Seq<char>, kind: Seq<char>) -> Seq<u8> {
    if kind == "md"@ {
        encode_utf8(content)
    } else {
        byte_order_mark() + encode_utf8(content)
    }
}

/// What is to be written.
#[derive(Debug)]
pub struct SaveJob {
    pub names: FileNames,
    pub bytes: Vec<u8>,
}

/// Prepares to save a text, unless it is blank.
pub fn save_text(content: &str, kind: &str, stamp: &str) -> (r: Result<SaveJob, String>)
    ensures
        match r {
            Ok(job) => {
                &&& trimmed(content@).len() > 0
                &&& job.names.base() == base_name(stamp@, content@)
                &&& job.names.ext() == extension(kind@)
                &&& job.names.nth() == 1
                &&& job.bytes@ == file_bytes(content@, kind@)
            },
            Err(error) => trimmed(content@).len() == 0 && error@
                == "内容为空，没什么可保存的"@,
        },
{
    if trim(content).is_empty() {
        return Err("内容为空，没什么可保存的".to_owned());
    }
    let mut text = content.as_bytes_vec();
    let bytes = if same(kind, "md") {
        text
    } else {
        let mut bytes: Vec<u8> = vec![0xef, 0xbb, 0xbf];
        bytes.append(&mut text);
        bytes
    };
    Ok(SaveJob { names: build_filename(content, kind, stamp), bytes })
}

// ── Laws ──

/// What was saved can be read back: behind the mark, where there is one, the file
/// holds the text, character for character.
pub proof fn law_saved_text_reads_back(content: Seq<char>, kind: Seq<char>)
    ensures
        ({
            let bytes = file_bytes(content, kind);
            let text = if kind == "md"@ {
                bytes
            } else {
                bytes.skip(3)
            };
            &&& valid_utf8(text)
            &&& decode_utf8(text) == content
            &&& kind != "md"@ ==> byte_order_mark().is_prefix_of(bytes)
        }),
{
    let bytes = file_bytes(content, kind);
    encode_utf8_valid_utf8(content);
    encode_utf8_decode_utf8(content);
    if kind != "md"@ {
        assert(bytes.skip(3) == encode_utf8(content));
    }
}

proof fn lemma_decimal_differs(m: nat, n: nat)
    requires
        m != n,
    ensures
        decimal(m) != decimal(n),
    decreases m + n,
{
    if decimal(m) == decimal(n) {
        assert(decimal(m).last() == decimal(n).last());
        if m < 10 {
            assert(decimal(m).len() == 1);
            if n >= 10 {
                lemma_decimal_is_not_empty(n / 10);
            }
        } else if n < 10 {
            lemma_decimal_is_not_empty(m / 10);
        } else {
            assert(decimal(m).drop_last() == decimal(m / 10));
            assert(decimal(n).drop_last() == decimal(n / 10));
            if m / 10 != n / 10 {
                lemma_decimal_differs(m / 10, n / 10);
            }
        }
    }
}

proof fn lemma_decimal_is_not_empty(n: nat)
    ensures
        decimal(n).len() > 0,
{
}

/// No two of the names to try are the same.
pub proof fn law_names_differ(base: Seq<char>, ext: Seq<char>, m: nat, n: nat)
    requires
        1 <= m < n,
    ensures
        nth_name(base, ext, m) != nth_name(base, ext, n),
{
    let a = nth_name(base, ext, m);
    let b = nth_name(base, ext, n);
    reveal_strlit(".");
    reveal_strlit("_");
    if a == b {
        if m == 1 {
            assert(a[base.len() as int] == '.');
            assert(b[base.len() as int] == '_');
        } else {
            lemma_decimal_differs(m, n);
            let start = base.len() + 1;
            let tail = 1 + ext.len();
            assert(a.subrange(start as int, a.len() - tail) == decimal(m));
            assert(b.subrange(start as int, b.len() - tail) == decimal(n));
        }
    }
}

pub open spec fn first_names(base: Seq<char>, ext: Seq<char>, count: nat) -> Seq<Seq<char>> {
    Seq::new(count, |i: int| nth_name(base, ext, (i + 1) as nat))
}

/// Whatever files there are, the search for a free name ends: among one name more
/// than there are files, one is free.
pub proof fn law_some_name_is_free(base: Seq<char>, ext: Seq<char>, files: Set<Seq<char>>)
    requires
        files.finite(),
    ensures
        exists|n: nat|
            1 <= n <= files.len() + 1 && !files.contains(#[trigger] nth_name(base, ext, n)),
{
    let count = files.len() + 1;
    let names = first_names(base, ext, count);
    assert(names.no_duplicates()) by {
        assert forall|i: int, j: int| 0 <= i < names.len() && 0 <= j < names.len() && i != j implies names[i]
            != names[j] by {
            if i < j {
                law_names_differ(base, ext, (i + 1) as nat, (j + 1) as nat);
            } else {
                law_names_differ(base, ext, (j + 1) as nat, (i + 1) as nat);
            }
        }
    }
    names.unique_seq_to_set();
    if forall|n: nat| 1 <= n <= count ==> files.contains(#[trigger] nth_name(base, ext, n)) {
        assert(names.to_set().subset_of(files)) by {
            assert forall|name: Seq<char>| names.to_set().contains(name) implies files.contains(
                name,
            ) by {
                let i = choose|i: int| 0 <= i < names.len() && names[i] == name;
                assert(files.contains(nth_name(base, ext, (i + 1) as nat)));
            }
        }
        vstd::set_lib::lemma_len_subset(names.to_set(), files);
    }
}

/// Which name is at hand after some answers about the files in a directory.
pub open spec fn search(
    base: Seq<char>,
    ext: Seq<char>,
    files: Set<Seq<char>>,
    start: nat,
    answers: nat,
) -> nat
    decreases answers,
{
    if answers == 0 {
        start
    } else {
        let exists = files.contains(nth_name(base, ext, start));
        search(base, ext, files, next_number(start, exists), (answers - 1) as nat)
    }
}

/// The first of the names that no file has.
pub open spec fn first_free(
    base: Seq<char>,
    ext: Seq<char>,
    files: Set<Seq<char>>,
    n: nat,
) -> bool {
    &&& 1 <= n
    &&& !files.contains(nth_name(base, ext, n))
    &&& forall|k: nat| 1 <= k < n ==> files.contains(#[trigger] nth_name(base, ext, k))
}

proof fn lemma_search(
    base: Seq<char>,
    ext: Seq<char>,
    files: Set<Seq<char>>,
    start: nat,
    free: nat,
    answers: nat,
)
    requires
        first_free(base, ext, files, free),
        1 <= start <= free,
        answers >= free - start,
    ensures
        search(base, ext, files, start, answers) == free,
    decreases answers,
{
    if answers > 0 {
        let exists = files.contains(nth_name(base, ext, start));
        lemma_search(
            base,
            ext,
            files,
            next_number(start, exists),
            free,
            (answers - 1) as nat,
        );
    }
}

proof fn lemma_first_free(base: Seq<char>, ext: Seq<char>, files: Set<Seq<char>>, n: nat) -> (r: nat)
    requires
        1 <= n,
        !files.contains(nth_name(base, ext, n)),
    ensures
        first_free(base, ext, files, r),
        r <= n,
    decreases n,
{
    if exists|k: nat| 1 <= k < n && !files.contains(#[trigger] nth_name(base, ext, k)) {
        let k = choose|k: nat|
            1 <= k < n && !files.contains(#[trigger] nth_name(base, ext, k));
        lemma_first_free(base, ext, files, k)
    } else {
        n
    }
}

/// Whatever files there are, the search comes to the first name that no file has,
/// and stays there: after as many answers as there are files, or more.
pub proof fn law_search_finds_first_free_name(
    base: Seq<char>,
    ext: Seq<char>,
    files: Set<Seq<char>>,
    answers: nat,
)
    requires
        files.finite(),
        answers >= files.len(),
    ensures
        first_free(base, ext, files, search(base, ext, files, 1, answers)),
        search(base, ext, files, 1, answers) <= files.len() + 1,
{
    law_some_name_is_free(base, ext, files);
    let n = choose|n: nat|
        1 <= n <= files.len() + 1 && !files.contains(#[trigger] nth_name(base, ext, n));
    let free = lemma_first_free(base, ext, files, n);
    lemma_search(base, ext, files, 1, free, answers);
}

/// The name that a text is saved under, in a directory with some files.
pub open spec fn saved_name(
    dir: Map<Seq<char>, Seq<u8>>,
    stamp: Seq<char>,
    content: Seq<char>,
    kind: Seq<char>,
) -> Seq<char> {
    let base = base_name(stamp, content);
    let ext = extension(kind);
    nth_name(base, ext, search(base, ext, dir.dom(), 1, dir.dom().len()))
}

/// A directory after a text has been saved there.
pub open spec fn saved(
    dir: Map<Seq<char>, Seq<u8>>,
    stamp: Seq<char>,
    content: Seq<char>,
    kind: Seq<char>,
) -> Map<Seq<char>, Seq<u8>> {
    dir.insert(saved_name(dir, stamp, content, kind), file_bytes(content, kind))
}

/// Saving a text makes a new file with it and touches no other.
pub proof fn law_saving_overwrites_nothing(
    dir: Map<Seq<char>, Seq<u8>>,
    stamp: Seq<char>,
    content: Seq<char>,
    kind: Seq<char>,
)
    requires
        dir.dom().finite(),
    ensures
        ({
            let name = saved_name(dir, stamp, content, kind);
            let after = saved(dir, stamp, content, kind);
            &&& !dir.contains_key(name)
            &&& after.contains_key(name) && after[name] == file_bytes(content, kind)
            &&& after.dom() == dir.dom().insert(name)
            &&& forall|other: Seq<char>| #[trigger]
                dir.contains_key(other) ==> after[other] == dir[other]
        }),
{
    law_search_finds_first_free_name(
        base_name(stamp, content),
        extension(kind),
        dir.dom(),
        dir.dom().len(),
    );
}

/// Two texts saved one after the other, even the same one within a second, end up
/// in two files, and the first is still as it was written.
pub proof fn law_two_texts_get_two_files(
    dir: Map<Seq<char>, Seq<u8>>,
    first: (Seq<char>, Seq<char>, Seq<char>),
    second: (Seq<char>, Seq<char>, Seq<char>),
)
    requires
        dir.dom().finite(),
    ensures
        ({
            let between = saved(dir, first.0, first.1, first.2);
            let after = saved(between, second.0, second.1, second.2);
            let one = saved_name(dir, first.0, first.1, first.2);
            let two = saved_name(between, second.0, second.1, second.2);
            &&& one != two
            &&& after[one] == file_bytes(first.1, first.2)
            &&& after[two] == file_bytes(second.1, second.2)
        }),
{
    law_saving_overwrites_nothing(dir, first.0, first.1, first.2);
    let between = saved(dir, first.0, first.1, first.2);
    law_saving_overwrites_nothing(between, second.0, second.1, second.2);
}

pub open spec fn all_allowed(s: Seq<char>) -> bool {
    forall|i: int| 0 <= i < s.len() ==> allowed(#[trigger] s[i])
}

proof fn lemma_trim_start_allowed(s: Seq<char>)
    requires
        all_allowed(s),
    ensures
        all_allowed(trim_start(s)),
        trim_start(s).len() <= s.len(),
    decreases s.len(),
{
    if s.len() > 0 {
        assert(all_allowed(s.skip(1)));
        lemma_trim_start_allowed(s.skip(1));
    }
}

proof fn lemma_trim_end_allowed(s: Seq<char>)
    requires
        all_allowed(s),
    ensures
        all_allowed(trim_end(s)),
        trim_end(s).len() <= s.len(),
    decreases s.len(),
{
    if s.len() > 0 {
        assert(all_allowed(s.drop_last()));
        lemma_trim_end_allowed(s.drop_last());
    }
}

/// The part of the text in a name has at most the agreed length and only
/// characters that a file name may hold.
pub proof fn law_snippet_is_legal(content: Seq<char>)
    ensures
        snippet(content).len() <= SNIPPET_CHARS,
        all_allowed(snippet(content)),
{
    let line = first_filled(pieces(content, '\n'));
    let legal = |c: char| allowed(c);
    let kept = line.filter(legal);
    assert(all_allowed(kept)) by {
        assert forall|i: int| 0 <= i < kept.len() implies allowed(#[trigger] kept[i]) by {
            line.lemma_filter_pred(legal, i);
        }
    }
    let beginning = first_chars(kept, SNIPPET_CHARS as int);
    assert(all_allowed(beginning));
    lemma_trim_start_allowed(beginning);
    lemma_trim_end_allowed(trim_start(beginning));
}

proof fn lemma_decimal_allowed(n: nat)
    ensures
        all_allowed(decimal(n)),
    decreases n,
{
    if n >= 10 {
        lemma_decimal_allowed(n / 10);
        assert(allowed(digit_char((n % 10) as int)));
    } else {
        assert(allowed(digit_char(n as int)));
    }
}

proof fn lemma_padded_allowed(n: nat, width: nat)
    ensures
        all_allowed(padded(n, width)),
{
    lemma_decimal_allowed(n);
}

/// A file name made from a time and a text holds only characters that a file name
/// may hold, whatever the text.
pub proof fn law_file_name_is_legal(t: LocalTime, content: Seq<char>, kind: Seq<char>, n: nat)
    ensures
        all_allowed(nth_name(base_name(stamp(t), content), extension(kind), n)),
{
    reveal_strlit("_");
    reveal_strlit(".");
    reveal_strlit("md");
    reveal_strlit("txt");
    reveal_strlit("snapshot");
    assert(all_allowed("_"@) && all_allowed("."@) && all_allowed("md"@) && all_allowed("txt"@)
        && all_allowed("snapshot"@));
    lemma_padded_allowed(t.year as nat, 4);
    lemma_padded_allowed(t.month as nat, 2);
    lemma_padded_allowed(t.day as nat, 2);
    lemma_padded_allowed(t.hour as nat, 2);
    lemma_padded_allowed(t.minute as nat, 2);
    lemma_padded_allowed(t.second as nat, 2);
    assert(all_allowed(stamp(t)));
    law_snippet_is_legal(content);
    lemma_decimal_allowed(n);
    assert(all_allowed(base_name(stamp(t), content)));
}

/// The characters that Windows takes in no file name, besides control characters.
pub open spec fn reserved() -> Seq<char> {
    seq!['\\', '/', ':', '*', '?', '"', '<', '>', '|']
}

/// Which characters a name may hold does not depend on where they stand or on
/// anything else: all but the control characters and the reserved ones.
pub proof fn law_only_reserved_characters_are_refused(c: char)
    ensures
        allowed(c) <==> !control(c) && !reserved().contains(c),
{
    let r = reserved();
    assert(r[0] == '\\' && r[1] == '/' && r[2] == ':' && r[3] == '*' && r[4] == '?' && r[5] == '"'
        && r[6] == '<' && r[7] == '>' && r[8] == '|');
}

proof fn lemma_first_filled(lines: Seq<Seq<char>>, k: int)
    requires
        0 <= k < lines.len(),
        !blank(lines[k]),
        forall|i: int| 0 <= i < k ==> blank(#[trigger] lines[i]),
    ensures
        first_filled(lines) == trimmed(lines[k]),
    decreases lines.len(),
{
    lemma_trimmed_empty(lines[0]);
    if k > 0 {
        assert(blank(lines[0]));
        let rest = lines.skip(1);
        assert(rest[k - 1] == lines[k]);
        assert forall|i: int| 0 <= i < k - 1 implies blank(#[trigger] rest[i]) by {
            assert(blank(lines[i + 1]));
        }
        lemma_first_filled(rest, k - 1);
    }
}

proof fn lemma_none_filled(lines: Seq<Seq<char>>)
    requires
        forall|i: int| 0 <= i < lines.len() ==> blank(#[trigger] lines[i]),
    ensures
        first_filled(lines).len() == 0,
    decreases lines.len(),
{
    if lines.len() > 0 {
        assert(blank(lines[0]));
        lemma_trimmed_empty(lines[0]);
        let rest = lines.skip(1);
        assert forall|i: int| 0 <= i < rest.len() implies blank(#[trigger] rest[i]) by {
            assert(blank(lines[i + 1]));
        }
        lemma_none_filled(rest);
    }
}

proof fn lemma_keep_all(s: Seq<char>, keep: spec_fn(char) -> bool)
    requires
        forall|i: int| 0 <= i < s.len() ==> keep(#[trigger] s[i]),
    ensures
        s.filter(keep) == s,
    decreases s.len(),
{
    reveal(Seq::filter);
    if s.len() > 0 {
        let rest = s.drop_last();
        assert(keep(s[s.len() - 1]));
        assert forall|i: int| 0 <= i < rest.len() implies keep(#[trigger] rest[i]) by {
            assert(keep(s[i]));
        }
        lemma_keep_all(rest, keep);
        assert(s == rest.push(s.last()));
    }
}

/// The name keeps what it can: of the first line that is not blank, without the
/// space around it, only control characters and the reserved ones are left out, and
/// what is then beyond twenty characters. Where nothing has to be left out, the
/// line stands in the name character for character.
pub proof fn law_name_keeps_legal_characters(content: Seq<char>, k: int)
    requires
        0 <= k < pieces(content, '\n').len(),
        !blank(pieces(content, '\n')[k]),
        forall|i: int| 0 <= i < k ==> blank(#[trigger] pieces(content, '\n')[i]),
    ensures
        ({
            let line = trimmed(pieces(content, '\n')[k]);
            let kept = line.filter(|c: char| !control(c) && !reserved().contains(c));
            &&& snippet(content) == trimmed(
                if kept.len() <= 20 {
                    kept
                } else {
                    kept.take(20)
                },
            )
            &&& (line.len() <= 20 && forall|i: int|
                0 <= i < line.len() ==> !control(#[trigger] line[i]) && !reserved().contains(
                    line[i],
                )) ==> snippet(content) == line
        }),
{
    let lines = pieces(content, '\n');
    let line = trimmed(lines[k]);
    let legal = |c: char| !control(c) && !reserved().contains(c);
    lemma_first_filled(lines, k);
    assert forall|c: char| #[trigger] allowed(c) == legal(c) by {
        law_only_reserved_characters_are_refused(c);
    }
    assert((|c: char| allowed(c)) =~= legal);
    if line.len() <= 20 && forall|i: int|
        0 <= i < line.len() ==> !control(#[trigger] line[i]) && !reserved().contains(line[i]) {
        lemma_keep_all(line, legal);
        lemma_trimmed_twice(lines[k]);
    }
}

/// How a name is put together: the time, a line, the beginning of the text or a
/// word in its place, and the extension, which is that of markdown only if asked
/// for by its exact name. The n-th name has its number behind the first one.
pub proof fn law_name_is_put_together(
    content: &str,
    kind: &str,
    stamp: &str,
    names: FileNames,
    n: nat,
)
    requires
        call_ensures(build_filename, (content, kind, stamp), names),
        n >= 2,
    ensures
        ({
            let plain = stamp@ + "_"@ + if snippet(content@).len() > 0 {
                snippet(content@)
            } else {
                "snapshot"@
            };
            let dot_ext = if kind@ == "md"@ {
                ".md"@
            } else {
                ".txt"@
            };
            &&& names.nth() == 1
            &&& nth_name(names.base(), names.ext(), 1) == plain + dot_ext
            &&& nth_name(names.base(), names.ext(), n) == plain + "_"@ + decimal(n) + dot_ext
        }),
        forall|it: &FileNames, name: String| #[trigger]
            call_ensures(FileNames::candidate, (it,), name) ==> name@ == nth_name(
                it.base(),
                it.ext(),
                it.nth(),
            ),
{
    reveal_strlit(".");
    reveal_strlit("md");
    reveal_strlit("txt");
    reveal_strlit(".md");
    reveal_strlit(".txt");
    assert("."@ + "md"@ == ".md"@);
    assert("."@ + "txt"@ == ".txt"@);
    let base = names.base();
    let ext = names.ext();
    assert(base + "."@ + ext == base + ("."@ + ext));
    assert(base + "_"@ + decimal(n) + "."@ + ext == base + "_"@ + decimal(n) + ("."@ + ext));
}

/// A text without a line that is not blank leaves nothing for the name.
pub proof fn law_blank_text_names_nothing(content: Seq<char>)
    requires
        forall|i: int|
            0 <= i < pieces(content, '\n').len() ==> blank(#[trigger] pieces(content, '\n')[i]),
    ensures
        snippet(content) == Seq::<char>::empty(),
{
    lemma_none_filled(pieces(content, '\n'));
    let line = first_filled(pieces(content, '\n'));
    assert(line == Seq::<char>::empty());
    line.lemma_filter_len(|c: char| allowed(c));
}

/// An answer that the name is in use leads to the next name, an answer that it is
/// free gives the name, and asking again then gives the same.
pub proof fn law_answer_settles_the_name(exists: bool, r: Option<String>)
    ensures
        forall|names: &mut FileNames| #[trigger]
            call_ensures(FileNames::settle, (names, exists), r) ==> {
                &&& final(names).base() == names.base()
                &&& final(names).ext() == names.ext()
                &&& final(names).nth() == if exists {
                    names.nth() + 1
                } else {
                    names.nth()
                }
                &&& r is Some <==> !exists
                &&& r matches Some(name) ==> name@ == nth_name(
                    names.base(),
                    names.ext(),
                    names.nth(),
                )
            },
{
}

/// A text is saved unless it is all white space; then the user is told, and there
/// is nothing to write.
pub proof fn law_only_blank_text_is_refused(
    content: &str,
    kind: &str,
    stamp: &str,
    r: Result<SaveJob, String>,
)
    requires
        call_ensures(save_text, (content, kind, stamp), r),
    ensures
        r is Err <==> blank(content@),
        r matches Err(error) ==> error@ == "内容为空，没什么可保存的"@,
        r matches Ok(job) ==> {
            let bytes = job.bytes@;
            let marked = kind@ != "md"@;
            &&& marked ==> bytes.len() >= 3 && bytes[0] == 239 && bytes[1] == 187 && bytes[2] == 191
            &&& valid_utf8(
                if marked {
                    bytes.skip(3)
                } else {
                    bytes
                },
            )
            &&& decode_utf8(
                if marked {
                    bytes.skip(3)
                } else {
                    bytes
                },
            ) == content@
            &&& job.names.base() == base_name(stamp@, content@)
            &&& job.names.ext() == extension(kind@)
            &&& job.names.nth() == 1
        },
{
    lemma_trimmed_empty(content@);
    law_saved_text_reads_back(content@, kind@);
}

/// A time reads back from its name: fifteen characters, with the date in front of
/// a line and the time of day behind it, each part at its place.
pub proof fn law_time_reads_back(t: &LocalTime, r: String)
    requires
        call_ensures(timestamp, (t,), r),
        t.year <= 9999,
        t.month <= 99,
        t.day <= 99,
        t.hour <= 99,
        t.minute <= 99,
        t.second <= 99,
    ensures
        r@.len() == 15,
        value(r@.subrange(0, 4)) == t.year,
        value(r@.subrange(4, 6)) == t.month,
        value(r@.subrange(6, 8)) == t.day,
        r@[8] == '_',
        value(r@.subrange(9, 11)) == t.hour,
        value(r@.subrange(11, 13)) == t.minute,
        value(r@.subrange(13, 15)) == t.second,
{
    reveal_strlit("_");
    lemma_padded_width(t.year as nat, 4);
    lemma_padded_width(t.month as nat, 2);
    lemma_padded_width(t.day as nat, 2);
    lemma_padded_width(t.hour as nat, 2);
    lemma_padded_width(t.minute as nat, 2);
    lemma_padded_width(t.second as nat, 2);
    assert(r@.subrange(0, 4) == padded(t.year as nat, 4));
    assert(r@.subrange(4, 6) == padded(t.month as nat, 2));
    assert(r@.subrange(6, 8) == padded(t.day as nat, 2));
    assert(r@.subrange(9, 11) == padded(t.hour as nat, 2));
    assert(r@.subrange(11, 13) == padded(t.minute as nat, 2));
    assert(r@.subrange(13, 15) == padded(t.second as nat, 2));
}

proof fn lemma_padded_width(n: nat, width: nat)
    requires
        width == 2 && n <= 99 || width == 4 && n <= 9999,
    ensures
        padded(n, width).len() == width,
        value(padded(n, width)) == n,
{
    law_padded_number_reads_back(n, width);
    reveal_with_fuel(decimal, 5);
}

} // verus!
