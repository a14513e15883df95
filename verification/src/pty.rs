//! The text side of driving a tool that reads its passphrase from a terminal:
//! spotting its prompts in what it prints, keeping the passphrase out of what
//! is reported, and picking the line that explains a failure.

use vstd::prelude::*;
use vstd::string::StringSliceAdditionalSpecFns;

use crate::text::{
    chars_of, contains_chars, contains_seq, find_chars, lines_of, lower_chars, lower_seq,
    occurs_at, push_char, spec_lines, string_of, strip_repeated, strip_repeated_chars, trim,
    trim_chars, views, decimal, decimal_string, push_str,
};

verus! {

/// One left-to-right pass over `data`, dropping each occurrence of `secret` it
/// meets.
pub open spec fn scrub_pass(data: Seq<u8>, secret: Seq<u8>) -> Seq<u8>
    decreases data.len(),
{
    if secret.len() == 0 || data.len() == 0 {
        data
    } else if secret.is_prefix_of(data) {
        scrub_pass(data.skip(secret.len() as int), secret)
    } else {
        seq![data[0]] + scrub_pass(data.skip(1), secret)
    }
}

/// `secret` appears somewhere in `data`.
pub open spec fn has_window(data: Seq<u8>, secret: Seq<u8>) -> bool {
    exists|i: int| 0 <= i <= data.len() - secret.len() && #[trigger] data.subrange(i, i + secret.len()) == secret
}

/// `data` with `secret` removed by repeated passes, until no pass finds any:
/// what one removal brings together is removed too.
pub open spec fn spec_scrub(data: Seq<u8>, secret: Seq<u8>) -> Seq<u8>
    decreases data.len(),
{
    if secret.len() == 0 {
        data
    } else {
        let once = scrub_pass(data, secret);
        if once.len() < data.len() {
            spec_scrub(once, secret)
        } else {
            data
        }
    }
}

/// A pass never lengthens the data, and one that removes nothing found no
/// occurrence.
proof fn lemma_pass_shrinks(data: Seq<u8>, secret: Seq<u8>)
    requires
        secret.len() > 0,
    ensures
        scrub_pass(data, secret).len() <= data.len(),
        scrub_pass(data, secret).len() == data.len() ==> !has_window(data, secret),
    decreases data.len(),
{
    if data.len() == 0 {
    } else if secret.is_prefix_of(data) {
        lemma_pass_shrinks(data.skip(secret.len() as int), secret);
    } else {
        let rest = data.skip(1);
        lemma_pass_shrinks(rest, secret);
        if scrub_pass(data, secret).len() == data.len() {
            assert forall|i: int| 0 <= i <= data.len() - secret.len() implies #[trigger] data.subrange(
                i,
                i + secret.len(),
            ) != secret by {
                if i == 0 {
                    if data.subrange(0, secret.len() as int) == secret {
                        assert(secret.is_prefix_of(data));
                    }
                } else {
                    assert(rest.subrange(i - 1, i - 1 + secret.len()) =~= data.subrange(i, i + secret.len()));
                }
            }
        }
    }
}

/// Data holding no occurrence passes through unchanged.
proof fn lemma_pass_keeps_clean(data: Seq<u8>, secret: Seq<u8>)
    requires
        secret.len() > 0,
        !has_window(data, secret),
    ensures
        scrub_pass(data, secret) == data,
    decreases data.len(),
{
    if data.len() > 0 {
        if secret.is_prefix_of(data) {
            assert(data.subrange(0int, 0int + secret.len()) =~= secret);
        }
        let rest = data.skip(1);
        assert forall|i: int| 0 <= i <= rest.len() - secret.len() implies #[trigger] rest.subrange(
            i,
            i + secret.len(),
        ) != secret by {
            assert(rest.subrange(i, i + secret.len()) =~= data.subrange(i + 1, i + 1 + secret.len()));
        }
        lemma_pass_keeps_clean(rest, secret);
        assert(seq![data[0]] + rest =~= data);
    }
}

/// Scrubbing leaves no occurrence of a non-empty secret, and leaves data that
/// holds none unchanged.
pub proof fn lemma_scrub_leaves_no_secret(data: Seq<u8>, secret: Seq<u8>)
    ensures
        secret.len() > 0 ==> !has_window(spec_scrub(data, secret), secret),
        !has_window(data, secret) ==> spec_scrub(data, secret) == data,
    decreases data.len(),
{
    if secret.len() > 0 {
        lemma_pass_shrinks(data, secret);
        let once = scrub_pass(data, secret);
        if once.len() < data.len() {
            lemma_scrub_leaves_no_secret(once, secret);
            if !has_window(data, secret) {
                lemma_pass_keeps_clean(data, secret);
            }
        }
    }
}

fn bytes_at(data: &[u8], i: usize, needle: &[u8]) -> (r: bool)
    requires
        i <= data.len(),
    ensures
        r == needle@.is_prefix_of(data@.skip(i as int)),
{
    if data.len() - i < needle.len() {
        return false;
    }
    let mut j: usize = 0;
    while j < needle.len()
        invariant
            j <= needle.len(),
            i <= data.len(),
            data.len() - i >= needle.len(),
            forall|m: int| 0 <= m < j ==> needle@[m] == data@[i + m],
        decreases needle.len() - j,
    {
        if needle[j] != data[i + j] {
            assert(data@.skip(i as int)[j as int] == data@[i + j]);
            return false;
        }
        j += 1;
    }
    true
}

/// One pass of [`scrub_secret`].
fn scrub_once(data: &[u8], needle: &[u8]) -> (r: Vec<u8>)
    ensures
        r@ == scrub_pass(data@, needle@),
{
    let mut out: Vec<u8> = Vec::new();
    if needle.len() == 0 {
        let mut k: usize = 0;
        while k < data.len()
            invariant
                k <= data.len(),
                out@ == data@.take(k as int),
            decreases data.len() - k,
        {
            out.push(data[k]);
            assert(data@.take(k + 1) =~= data@.take(k as int).push(data@[k as int]));
            k += 1;
        }
        assert(data@.take(data.len() as int) =~= data@);
        return out;
    }
    let mut i: usize = 0;
    assert(data@.skip(0) =~= data@);
    while i < data.len()
        invariant
            i <= data.len(),
            needle.len() > 0,
            out@ + scrub_pass(data@.skip(i as int), needle@) == scrub_pass(data@, needle@),
        decreases data.len() - i,
    {
        if bytes_at(data, i, needle) {
            assert(data@.skip(i as int).skip(needle.len() as int) =~= data@.skip(i + needle.len()));
            i += needle.len();
        } else {
            let ghost before = out@;
            out.push(data[i]);
            assert(data@.skip(i as int).skip(1) =~= data@.skip(i + 1));
            assert(out@ + scrub_pass(data@.skip(i + 1), needle@) =~= before + scrub_pass(
                data@.skip(i as int),
                needle@,
            ));
            i += 1;
        }
    }
    assert(data@.skip(i as int) =~= Seq::<u8>::empty());
    assert(out@ + Seq::<u8>::empty() =~= out@);
    out
}

/// Remove `secret` from `data` so a passphrase a tool echoed can never
/// surface in an error message: occurrences are removed pass after pass until
/// none is left, so one that a removal brings together goes too.
pub fn scrub_secret(data: &[u8], secret: &str) -> (r: Vec<u8>)
    ensures
        r@ == spec_scrub(data@, secret.spec_bytes()),
        secret.spec_bytes().len() > 0 ==> !has_window(r@, secret.spec_bytes()),
        !has_window(data@, secret.spec_bytes()) ==> r@ == data@,
{
    let needle = secret.as_bytes();
    proof {
        lemma_scrub_leaves_no_secret(data@, needle@);
    }
    let mut cur = scrub_once(data, &[]);
    assert(cur@ == data@) by {
        assert(scrub_pass(data@, Seq::<u8>::empty()) == data@);
    }
    if needle.len() == 0 {
        return cur;
    }
    loop
        invariant
            needle@ == secret.spec_bytes(),
            needle.len() > 0,
            spec_scrub(cur@, needle@) == spec_scrub(data@, needle@),
            !has_window(data@, needle@) ==> spec_scrub(data@, needle@) == data@,
            !has_window(spec_scrub(data@, needle@), needle@),
        decreases cur.len(),
    {
        let once = scrub_once(cur.as_slice(), needle);
        proof {
            lemma_pass_shrinks(cur@, needle@);
        }
        if once.len() == cur.len() {
            assert(spec_scrub(cur@, needle@) == cur@);
            return cur;
        }
        cur = once;
    }
}

/// Where the reader is in an escape sequence.
pub enum EscState {
    Text,
    /// Just after `ESC`.
    Escape,
    /// Inside `ESC [` …, until a letter ends it.
    Csi,
}

pub open spec fn is_ascii_letter(c: char) -> bool {
    ('a' <= c && c <= 'z') || ('A' <= c && c <= 'Z')
}

/// Reads `s` left to right, keeping the plain text: carriage returns vanish,
/// `ESC [` … letter sequences vanish, and `ESC` with one following character
/// vanishes.
pub open spec fn sanitize_acc(s: Seq<char>) -> (Seq<char>, EscState)
    decreases s.len(),
{
    if s.len() == 0 {
        (Seq::empty(), EscState::Text)
    } else {
        let (out, st) = sanitize_acc(s.drop_last());
        let c = s.last();
        match st {
            EscState::Text => if c == '\r' {
                (out, EscState::Text)
            } else if c == '\x1b' {
                (out, EscState::Escape)
            } else {
                (out.push(c), EscState::Text)
            },
            EscState::Escape => if c == '[' {
                (out, EscState::Csi)
            } else {
                (out, EscState::Text)
            },
            EscState::Csi => if is_ascii_letter(c) {
                (out, EscState::Text)
            } else {
                (out, EscState::Csi)
            },
        }
    }
}

pub open spec fn spec_sanitize(s: Seq<char>) -> Seq<char> {
    sanitize_acc(s).0
}

/// Strip carriage returns and ANSI escape sequences so error lines read cleanly.
pub fn sanitize(text: &str) -> (r: String)
    ensures
        r@ == spec_sanitize(text@),
{
    let v = chars_of(text);
    let mut out = String::new();
    let mut st = EscState::Text;
    let mut i: usize = 0;
    while i < v.len()
        invariant
            i <= v.len(),
            v@ == text@,
            (out@, st) == sanitize_acc(v@.take(i as int)),
        decreases v.len() - i,
    {
        assert(v@.take(i + 1).drop_last() =~= v@.take(i as int));
        let c = v[i];
        match st {
            EscState::Text => {
                if c == '\r' {
                } else if c == '\x1b' {
                    st = EscState::Escape;
                } else {
                    push_char(&mut out, c);
                }
            },
            EscState::Escape => {
                if c == '[' {
                    st = EscState::Csi;
                } else {
                    st = EscState::Text;
                }
            },
            EscState::Csi => {
                if ('a' <= c && c <= 'z') || ('A' <= c && c <= 'Z') {
                    st = EscState::Text;
                }
            },
        }
        i += 1;
    }
    assert(v@.take(v.len() as int) =~= v@);
    out
}

/// Sanitized text holds neither carriage returns nor escape characters.
pub proof fn lemma_sanitized_is_plain(s: Seq<char>)
    ensures
        forall|i: int|
            0 <= i < spec_sanitize(s).len() ==> #[trigger] spec_sanitize(s)[i] != '\r'
                && spec_sanitize(s)[i] != '\x1b',
    decreases s.len(),
{
    if s.len() > 0 {
        lemma_sanitized_is_plain(s.drop_last());
        let (out, st) = sanitize_acc(s.drop_last());
        assert forall|i: int| 0 <= i < spec_sanitize(s).len() implies #[trigger] spec_sanitize(s)[i]
            != '\r' && spec_sanitize(s)[i] != '\x1b' by {
            if i < out.len() {
                assert(spec_sanitize(s.drop_last())[i] == out[i]);
            }
        }
    }
}

/// Keywords that mark a line as the real error rather than progress noise.
pub open spec fn has_error_hint(low: Seq<char>) -> bool {
    contains_seq(low, "wrong password"@) || contains_seq(low, "cannot"@) || contains_seq(low, "incorrect"@)
        || contains_seq(low, "bad passphrase"@) || contains_seq(low, "no identity"@) || contains_seq(
        low,
        "denied"@,
    ) || contains_seq(low, "failed"@) || contains_seq(low, "error"@)
}

/// A trimmed line worth reporting: not blank, and not age's "report unexpected
/// errors" footer.
pub open spec fn worth_reporting(l: Seq<char>) -> bool {
    trim(l).len() > 0 && !contains_seq(trim(l), "filippo.io"@) && !contains_seq(
        trim(l),
        "report unexpected"@,
    )
}

/// The last reportable line that names an error, trimmed.
pub open spec fn last_hinted(ls: Seq<Seq<char>>) -> Option<Seq<char>>
    decreases ls.len(),
{
    if ls.len() == 0 {
        None
    } else if worth_reporting(ls.last()) && has_error_hint(lower_seq(trim(ls.last()))) {
        Some(trim(ls.last()))
    } else {
        last_hinted(ls.drop_last())
    }
}

/// The last reportable line, trimmed.
pub open spec fn last_reportable(ls: Seq<Seq<char>>) -> Option<Seq<char>>
    decreases ls.len(),
{
    if ls.len() == 0 {
        None
    } else if worth_reporting(ls.last()) {
        Some(trim(ls.last()))
    } else {
        last_reportable(ls.drop_last())
    }
}

/// `Some(n)` or `None`, as `{:?}` prints an exit code.
pub open spec fn debug_code(code: Option<i32>) -> Seq<char> {
    match code {
        None => "None"@,
        Some(n) => if n < 0 {
            "Some(-"@ + decimal((-n) as nat) + ")"@
        } else {
            "Some("@ + decimal(n as nat) + ")"@
        },
    }
}

/// The message for a failed tool, from its sanitized terminal output: the last
/// line naming an error (else the last line), without `age: error: ` or
/// `ERROR: ` in front; or, when it printed nothing useful, its exit status.
pub open spec fn spec_failure_message(text: Seq<char>, code: Option<i32>) -> Seq<char> {
    let ls = spec_lines(text);
    let chosen = if last_hinted(ls) is Some {
        last_hinted(ls)
    } else {
        last_reportable(ls)
    };
    match chosen {
        Some(line) => strip_repeated(strip_repeated(line, "age: error: "@), "ERROR: "@),
        None => "the encryption helper exited with status "@ + debug_code(code),
    }
}

fn worth_reporting_exec(l: &Vec<char>) -> (r: (bool, Vec<char>))
    ensures
        r.0 == worth_reporting(l@),
        r.1@ == trim(l@),
{
    let t = trim_chars(l);
    let ok = t.len() > 0 && !contains_chars(&t, &chars_of("filippo.io")) && !contains_chars(
        &t,
        &chars_of("report unexpected"),
    );
    (ok, t)
}

fn hinted_exec(t: &Vec<char>) -> (r: bool)
    ensures
        r == has_error_hint(lower_seq(t@)),
{
    let low = lower_chars(t);
    contains_chars(&low, &chars_of("wrong password")) || contains_chars(&low, &chars_of("cannot"))
        || contains_chars(&low, &chars_of("incorrect")) || contains_chars(
        &low,
        &chars_of("bad passphrase"),
    ) || contains_chars(&low, &chars_of("no identity")) || contains_chars(&low, &chars_of("denied"))
        || contains_chars(&low, &chars_of("failed")) || contains_chars(&low, &chars_of("error"))
}

fn debug_code_string(code: Option<i32>) -> (r: String)
    ensures
        r@ == debug_code(code),
{
    match code {
        None => string_of(&chars_of("None")),
        Some(n) => {
            let mut s = String::new();
            if n < 0 {
                push_str(&mut s, "Some(-");
                let m: u64 = (-(n as i64)) as u64;
                push_str(&mut s, decimal_string(m).as_str());
            } else {
                push_str(&mut s, "Some(");
                push_str(&mut s, decimal_string(n as u64).as_str());
            }
            push_str(&mut s, ")");
            s
        },
    }
}

/// Explain a tool's failure from its sanitized terminal output and exit code.
pub fn failure_message(text: &str, code: Option<i32>) -> (r: String)
    ensures
        r@ == spec_failure_message(text@, code),
{
    let lines = lines_of(&chars_of(text));
    let ghost ls = views(lines@);
    let mut hinted: Option<Vec<char>> = None;
    let mut last: Option<Vec<char>> = None;
    let mut k = lines.len();
    assert(ls.take(k as int) =~= ls);
    while k > 0 && hinted.is_none()
        invariant
            k <= lines.len(),
            ls == views(lines@),
            ls == spec_lines(text@),
            hinted is None ==> last_hinted(ls) == last_hinted(ls.take(k as int)),
            hinted is Some ==> last_hinted(ls) == Some(hinted->0@),
            last is None ==> last_reportable(ls) == last_reportable(ls.take(k as int)),
            last is Some ==> last_reportable(ls) == Some(last->0@),
        decreases k,
    {
        assert(ls.take(k as int).last() == lines@[k - 1]@);
        assert(ls.take(k as int).drop_last() =~= ls.take(k - 1));
        let (ok, t) = worth_reporting_exec(&lines[k - 1]);
        if ok {
            if last.is_none() {
                last = Some(t.clone());
            }
            if hinted_exec(&t) {
                hinted = Some(t);
            }
        }
        k -= 1;
    }
    let chosen = if hinted.is_some() {
        hinted
    } else {
        if last.is_none() {
            assert(ls.take(0) =~= Seq::<Seq<char>>::empty());
        }
        last
    };
    match chosen {
        Some(line) => {
            let a = strip_repeated_chars(&line, &chars_of("age: error: "));
            string_of(&strip_repeated_chars(&a, &chars_of("ERROR: ")))
        },
        None => {
            let mut s = string_of(&chars_of("the encryption helper exited with status "));
            push_str(&mut s, debug_code_string(code).as_str());
            s
        },
    }
}

/// The first position of `needle` in `hay`, if any.
pub open spec fn first_occurrence(hay: Seq<char>, needle: Seq<char>) -> Option<int> {
    if exists|i: int| occurs_at(hay, needle, i) {
        Some(
            choose|i: int|
                occurs_at(hay, needle, i) && forall|j: int| 0 <= j < i ==> !occurs_at(hay, needle, j),
        )
    } else {
        None
    }
}

/// Answers prompts found in `pending` (a prompt is the lower-cased `needle`,
/// matched without regard to ASCII case) until `sent` reaches `prompts`: the
/// text left over and the number answered.
pub open spec fn answer_from(pending: Seq<char>, needle: Seq<char>, sent: nat, prompts: nat) -> (
    Seq<char>,
    nat,
)
    decreases prompts - sent,
{
    if sent >= prompts {
        (pending, sent)
    } else {
        match first_occurrence(lower_seq(pending), needle) {
            None => (pending, sent),
            Some(i) => {
                let cut = if i + needle.len() <= pending.len() {
                    i + needle.len()
                } else {
                    pending.len() as int
                };
                answer_from(pending.skip(cut), needle, sent + 1, prompts)
            },
        }
    }
}

proof fn lemma_first_occurrence(hay: Seq<char>, needle: Seq<char>, i: int)
    requires
        occurs_at(hay, needle, i),
        forall|j: int| 0 <= j < i ==> !occurs_at(hay, needle, j),
    ensures
        first_occurrence(hay, needle) == Some(i),
{
    let j = choose|j: int|
        occurs_at(hay, needle, j) && forall|m: int| 0 <= m < j ==> !occurs_at(hay, needle, m);
    if j < i {
        assert(!occurs_at(hay, needle, j));
    }
    if i < j {
        assert(!occurs_at(hay, needle, i));
    }
}

fn answer_loop(pending: Vec<char>, needle: &Vec<char>, sent: usize, prompts: usize) -> (r: (
    Vec<char>,
    usize,
))
    ensures
        (r.0@, r.1 as nat) == answer_from(pending@, needle@, sent as nat, prompts as nat),
        r.1 >= sent,
    decreases prompts - sent,
{
    if sent >= prompts {
        return (pending, sent);
    }
    let low = lower_chars(&pending);
    match find_chars(&low, needle) {
        None => {
            assert(first_occurrence(lower_seq(pending@), needle@) is None);
            (pending, sent)
        },
        Some(i) => {
            proof {
                lemma_first_occurrence(lower_seq(pending@), needle@, i as int);
            }
            let cut = if needle.len() <= pending.len() - i {
                i + needle.len()
            } else {
                pending.len()
            };
            let rest = crate::text::slice_chars(&pending, cut, pending.len());
            assert(rest@ =~= pending@.skip(cut as int));
            answer_loop(rest, needle, sent + 1, prompts)
        },
    }
}

/// Watches what a tool prints on its terminal for its passphrase prompts.
pub struct PromptScanner {
    pending: Vec<char>,
    needle: Vec<char>,
    sent: usize,
    prompts: usize,
}

impl PromptScanner {
    pub closed spec fn pending(&self) -> Seq<char> {
        self.pending@
    }

    pub closed spec fn needle(&self) -> Seq<char> {
        self.needle@
    }

    pub closed spec fn sent(&self) -> nat {
        self.sent as nat
    }

    pub closed spec fn prompts(&self) -> nat {
        self.prompts as nat
    }

    /// A scanner expecting at most `prompts` prompts, each a line containing
    /// `marker` (in any ASCII case).
    pub fn new(marker: &str, prompts: usize) -> (r: Self)
        ensures
            r.pending() == Seq::<char>::empty(),
            r.needle() == lower_seq(marker@),
            r.sent() == 0,
            r.prompts() == prompts,
    {
        PromptScanner { pending: Vec::new(), needle: lower_chars(&chars_of(marker)), sent: 0, prompts }
    }

    /// How many prompts have been answered.
    pub fn answered(&self) -> (r: usize)
        ensures
            r == self.sent(),
    {
        self.sent
    }

    /// Whether every expected prompt has been answered.
    pub fn done(&self) -> (r: bool)
        ensures
            r == (self.sent() >= self.prompts()),
    {
        self.sent >= self.prompts
    }

    /// Take in the next piece of terminal output; returns how many times the
    /// passphrase must be typed now. Each prompt found is consumed with
    /// everything before it.
    pub fn feed(&mut self, chunk: &str) -> (r: usize)
        ensures
            final(self).needle() == old(self).needle(),
            final(self).prompts() == old(self).prompts(),
            (final(self).pending(), final(self).sent()) == answer_from(
                old(self).pending() + chunk@,
                old(self).needle(),
                old(self).sent(),
                old(self).prompts(),
            ),
            r == final(self).sent() - old(self).sent(),
    {
        let mut pending: Vec<char> = Vec::new();
        std::mem::swap(&mut pending, &mut self.pending);
        let pending = crate::text::concat_chars(&pending, &chars_of(chunk));
        let (rest, sent) = answer_loop(pending, &self.needle, self.sent, self.prompts);
        let answered = sent - self.sent;
        self.pending = rest;
        self.sent = sent;
        answered
    }
}

} // verus!
