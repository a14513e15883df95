//! Character-level helpers shared by the rest of the library.

use vstd::prelude::*;

verus! {

/// An owned copy of a string slice.
pub(crate) fn owned(s: &str) -> (r: String)
    ensures
        r@ == s@,
{
    s.to_owned()
}

/// Append one character to a string, with std's `String::push`; claimed: the
/// string's characters gain `c` at the end.
#[verifier::external_body]
pub(crate) fn push_char(s: &mut String, c: char)
    ensures
        final(s)@ == old(s)@.push(c),
{
    s.push(c);
}

/// Append a string slice to a string: its characters gain those of `t` at
/// the end.
pub(crate) fn push_str(s: &mut String, t: &str)
    ensures
        final(s)@ == old(s)@ + t@,
{
    s.append(t);
}

/// Remove the last character of a string, if any, with std's `String::pop`;
/// claimed: an empty string stays empty.
#[verifier::external_body]
pub(crate) fn pop_char(s: &mut String)
    ensures
        final(s)@ == if old(s)@.len() > 0 {
            old(s)@.drop_last()
        } else {
            old(s)@
        },
{
    s.pop();
}

/// Remove every character of a string.
pub(crate) fn clear_string(s: &mut String)
    ensures
        final(s)@ == Seq::<char>::empty(),
{
    *s = String::new();
}

/// The characters of `s`, in order.
pub fn chars_of(s: &str) -> (v: Vec<char>)
    ensures
        v@ == s@,
{
    broadcast use vstd::string::group_string_axioms;
    let mut v: Vec<char> = Vec::new();
    for c in it: s.chars()
        invariant
            v@ == it.seq().take(it.index() as int),
            it.seq() == s@,
    {
        v.push(c);
    }
    v
}

/// A string holding exactly the characters of `v`.
pub fn string_of(v: &Vec<char>) -> (s: String)
    ensures
        s@ == v@,
{
    let mut s = String::new();
    let mut i: usize = 0;
    while i < v.len()
        invariant
            i <= v.len(),
            s@ == v@.take(i as int),
        decreases v.len() - i,
    {
        push_char(&mut s, v[i]);
        assert(v@.take(i as int + 1) =~= v@.take(i as int).push(v@[i as int]));
        i += 1;
    }
    assert(v@.take(v.len() as int) =~= v@);
    s
}

/// The characters that the standard library counts as whitespace (Unicode `White_Space`).
pub open spec fn is_ws(c: char) -> bool {
    ('\u{9}' <= c && c <= '\u{d}') || c == ' ' || c == '\u{85}' || c == '\u{a0}'
        || c == '\u{1680}' || ('\u{2000}' <= c && c <= '\u{200a}') || c == '\u{2028}'
        || c == '\u{2029}' || c == '\u{202f}' || c == '\u{205f}' || c == '\u{3000}'
}

pub fn is_whitespace(c: char) -> (r: bool)
    ensures
        r == is_ws(c),
{
    ('\u{9}' <= c && c <= '\u{d}') || c == ' ' || c == '\u{85}' || c == '\u{a0}'
        || c == '\u{1680}' || ('\u{2000}' <= c && c <= '\u{200a}') || c == '\u{2028}'
        || c == '\u{2029}' || c == '\u{202f}' || c == '\u{205f}' || c == '\u{3000}'
}

/// `s` without leading whitespace.
pub open spec fn trim_start(s: Seq<char>) -> Seq<char>
    decreases s.len(),
{
    if s.len() > 0 && is_ws(s[0]) {
        trim_start(s.drop_first())
    } else {
        s
    }
}

/// `s` without trailing whitespace.
pub open spec fn trim_end(s: Seq<char>) -> Seq<char>
    decreases s.len(),
{
    if s.len() > 0 && is_ws(s.last()) {
        trim_end(s.drop_last())
    } else {
        s
    }
}

/// `s` without leading or trailing whitespace.
pub open spec fn trim(s: Seq<char>) -> Seq<char> {
    trim_end(trim_start(s))
}

/// Index of the first non-whitespace character of `v[from..to]`.
pub(crate) fn skip_ws_front(v: &Vec<char>, from: usize, to: usize) -> (r: usize)
    requires
        from <= to <= v.len(),
    ensures
        from <= r <= to,
        trim_start(v@.subrange(from as int, to as int)) == v@.subrange(r as int, to as int),
{
    let mut k = from;
    while k < to && is_whitespace(v[k])
        invariant
            from <= k <= to <= v.len(),
            trim_start(v@.subrange(from as int, to as int)) == trim_start(v@.subrange(k as int, to as int)),
        decreases to - k,
    {
        assert(v@.subrange(k as int, to as int).drop_first() =~= v@.subrange(k + 1, to as int));
        k += 1;
    }
    k
}

/// Index just past the last non-whitespace character of `v[from..to]`.
pub(crate) fn skip_ws_back(v: &Vec<char>, from: usize, to: usize) -> (r: usize)
    requires
        from <= to <= v.len(),
    ensures
        from <= r <= to,
        trim_end(v@.subrange(from as int, to as int)) == v@.subrange(from as int, r as int),
{
    let mut k = to;
    while k > from && is_whitespace(v[k - 1])
        invariant
            from <= k <= to <= v.len(),
            trim_end(v@.subrange(from as int, to as int)) == trim_end(v@.subrange(from as int, k as int)),
        decreases k - from,
    {
        assert(v@.subrange(from as int, k as int).drop_last() =~= v@.subrange(from as int, k - 1));
        k -= 1;
    }
    k
}

/// The characters `v[from..to]`.
pub(crate) fn slice_chars(v: &Vec<char>, from: usize, to: usize) -> (r: Vec<char>)
    requires
        from <= to <= v.len(),
    ensures
        r@ == v@.subrange(from as int, to as int),
{
    let mut r: Vec<char> = Vec::new();
    let mut k = from;
    while k < to
        invariant
            from <= k <= to <= v.len(),
            r@ == v@.subrange(from as int, k as int),
        decreases to - k,
    {
        r.push(v[k]);
        assert(v@.subrange(from as int, k + 1) =~= v@.subrange(from as int, k as int).push(v@[k as int]));
        k += 1;
    }
    r
}

/// `a` followed by `b`.
pub(crate) fn concat_chars(a: &Vec<char>, b: &Vec<char>) -> (r: Vec<char>)
    ensures
        r@ == a@ + b@,
{
    let mut r = a.clone();
    let mut k: usize = 0;
    while k < b.len()
        invariant
            k <= b.len(),
            r@ == a@ + b@.take(k as int),
        decreases b.len() - k,
    {
        r.push(b[k]);
        assert(b@.take(k + 1) =~= b@.take(k as int).push(b@[k as int]));
        k += 1;
    }
    assert(b@.take(b.len() as int) =~= b@);
    r
}

/// Whether `a` and `b` hold the same characters.
pub(crate) fn chars_equal(a: &Vec<char>, b: &Vec<char>) -> (r: bool)
    ensures
        r == (a@ == b@),
{
    if a.len() != b.len() {
        return false;
    }
    let mut k: usize = 0;
    while k < a.len()
        invariant
            k <= a.len() == b.len(),
            forall|j: int| 0 <= j < k ==> a@[j] == b@[j],
        decreases a.len() - k,
    {
        if a[k] != b[k] {
            return false;
        }
        k += 1;
    }
    assert(a@ =~= b@);
    true
}

/// Whether `v` begins with `pre`.
pub(crate) fn has_prefix(v: &Vec<char>, pre: &Vec<char>) -> (r: bool)
    ensures
        r == pre@.is_prefix_of(v@),
{
    if pre.len() > v.len() {
        return false;
    }
    let mut k: usize = 0;
    while k < pre.len()
        invariant
            k <= pre.len() <= v.len(),
            forall|j: int| 0 <= j < k ==> pre@[j] == v@[j],
        decreases pre.len() - k,
    {
        if pre[k] != v[k] {
            return false;
        }
        k += 1;
    }
    true
}

/// Whether `needle` occurs in `hay` starting at position `i`.
pub open spec fn occurs_at(hay: Seq<char>, needle: Seq<char>, i: int) -> bool {
    0 <= i && i + needle.len() <= hay.len() && hay.subrange(i, i + needle.len()) == needle
}

/// Whether `needle` occurs anywhere in `hay`.
pub open spec fn contains_seq(hay: Seq<char>, needle: Seq<char>) -> bool {
    exists|i: int| occurs_at(hay, needle, i)
}

fn matches_at(hay: &Vec<char>, needle: &Vec<char>, i: usize) -> (r: bool)
    requires
        i + needle.len() <= hay.len(),
    ensures
        r == occurs_at(hay@, needle@, i as int),
{
    let mut k: usize = 0;
    while k < needle.len()
        invariant
            k <= needle.len(),
            i + needle.len() <= hay.len(),
            forall|j: int| 0 <= j < k ==> needle@[j] == hay@[i + j],
        decreases needle.len() - k,
    {
        if needle[k] != hay[i + k] {
            assert(hay@.subrange(i as int, i + needle.len())[k as int] != needle@[k as int]);
            return false;
        }
        k += 1;
    }
    assert(hay@.subrange(i as int, i + needle.len()) =~= needle@);
    true
}

/// The first position at which `needle` occurs in `hay`.
pub(crate) fn find_chars(hay: &Vec<char>, needle: &Vec<char>) -> (r: Option<usize>)
    ensures
        match r {
            None => !contains_seq(hay@, needle@),
            Some(i) => occurs_at(hay@, needle@, i as int) && forall|j: int|
                0 <= j < i ==> !occurs_at(hay@, needle@, j),
        },
{
    if needle.len() > hay.len() {
        return None;
    }
    let last = hay.len() - needle.len();
    let mut i: usize = 0;
    loop
        invariant
            needle.len() <= hay.len(),
            last == hay.len() - needle.len(),
            i <= last,
            forall|j: int| 0 <= j < i ==> !occurs_at(hay@, needle@, j),
        decreases last - i,
    {
        if matches_at(hay, needle, i) {
            return Some(i);
        }
        if i == last {
            return None;
        }
        i += 1;
    }
}

/// Whether `needle` occurs in `hay`.
pub(crate) fn contains_chars(hay: &Vec<char>, needle: &Vec<char>) -> (r: bool)
    ensures
        r == contains_seq(hay@, needle@),
{
    find_chars(hay, needle).is_some()
}

pub open spec fn ascii_lower(c: char) -> char {
    if 'A' <= c && c <= 'Z' {
        ((c as u32) + 32) as char
    } else {
        c
    }
}

pub open spec fn lower_seq(s: Seq<char>) -> Seq<char> {
    s.map_values(|c: char| ascii_lower(c))
}

pub fn to_ascii_lower(c: char) -> (r: char)
    ensures
        r == ascii_lower(c),
{
    if 'A' <= c && c <= 'Z' {
        ((c as u8) + 32) as char
    } else {
        c
    }
}

/// `v` with ASCII letters folded to lower case.
pub(crate) fn lower_chars(v: &Vec<char>) -> (r: Vec<char>)
    ensures
        r@ == lower_seq(v@),
{
    let mut r: Vec<char> = Vec::new();
    let mut k: usize = 0;
    while k < v.len()
        invariant
            k <= v.len(),
            r@ == lower_seq(v@.take(k as int)),
        decreases v.len() - k,
    {
        r.push(to_ascii_lower(v[k]));
        assert(lower_seq(v@.take(k + 1)) =~= lower_seq(v@.take(k as int)).push(ascii_lower(v@[k as int])));
        k += 1;
    }
    assert(v@.take(v.len() as int) =~= v@);
    r
}

pub open spec fn strip_cr(l: Seq<char>) -> Seq<char> {
    if l.len() > 0 && l.last() == '\r' {
        l.drop_last()
    } else {
        l
    }
}

/// Splits `s` into lines left to right: the finished lines and the one in progress.
pub open spec fn lines_acc(s: Seq<char>) -> (Seq<Seq<char>>, Seq<char>)
    decreases s.len(),
{
    if s.len() == 0 {
        (Seq::empty(), Seq::empty())
    } else {
        let (done, cur) = lines_acc(s.drop_last());
        if s.last() == '\n' {
            (done.push(strip_cr(cur)), Seq::empty())
        } else {
            (done, cur.push(s.last()))
        }
    }
}

/// The lines of `s`, as the standard library's `lines` yields them: split at
/// `\n`, a `\r` before the `\n` dropped, no empty line after a final `\n`.
pub open spec fn spec_lines(s: Seq<char>) -> Seq<Seq<char>> {
    if lines_acc(s).1.len() == 0 {
        lines_acc(s).0
    } else {
        lines_acc(s).0.push(lines_acc(s).1)
    }
}

pub open spec fn strs(v: Seq<String>) -> Seq<Seq<char>> {
    v.map_values(|x: String| x@)
}

pub open spec fn views(v: Seq<Vec<char>>) -> Seq<Seq<char>> {
    v.map_values(|x: Vec<char>| x@)
}

/// The lines of `v`.
pub(crate) fn lines_of(v: &Vec<char>) -> (r: Vec<Vec<char>>)
    ensures
        views(r@) == spec_lines(v@),
{
    let mut done: Vec<Vec<char>> = Vec::new();
    let mut cur: Vec<char> = Vec::new();
    let mut i: usize = 0;
    while i < v.len()
        invariant
            i <= v.len(),
            views(done@) == lines_acc(v@.take(i as int)).0,
            cur@ == lines_acc(v@.take(i as int)).1,
        decreases v.len() - i,
    {
        assert(v@.take(i + 1).drop_last() =~= v@.take(i as int));
        let c = v[i];
        if c == '\n' {
            let mut line = cur;
            if line.len() > 0 && line[line.len() - 1] == '\r' {
                line.pop();
            }
            proof {
                assert(line@ == strip_cr(lines_acc(v@.take(i as int)).1));
            }
            let ghost before = done@;
            done.push(line);
            assert(views(done@) =~= views(before).push(line@));
            cur = Vec::new();
        } else {
            cur.push(c);
        }
        i += 1;
    }
    assert(v@.take(v.len() as int) =~= v@);
    if cur.len() > 0 {
        let ghost before = done@;
        done.push(cur);
        assert(views(done@) =~= views(before).push(lines_acc(v@).1));
    }
    done
}

pub open spec fn digit(d: nat) -> char {
    ((48 + d) as u8) as char
}

/// The decimal digits of `n`, most significant first, without leading zeros.
pub open spec fn decimal(n: nat) -> Seq<char>
    decreases n,
{
    if n < 10 {
        seq![digit(n)]
    } else {
        decimal(n / 10).push(digit(n % 10))
    }
}

fn digit_of(d: u64) -> (c: char)
    requires
        d < 10,
    ensures
        c == digit(d as nat),
{
    ((48 + d) as u8) as char
}

/// The decimal digits of `n`.
pub fn decimal_chars(n: u64) -> (v: Vec<char>)
    ensures
        v@ == decimal(n as nat),
    decreases n,
{
    if n < 10 {
        let mut v = Vec::new();
        v.push(digit_of(n));
        assert(v@ =~= seq![digit(n as nat)]);
        v
    } else {
        let mut v = decimal_chars(n / 10);
        v.push(digit_of(n % 10));
        v
    }
}

/// `n` written in decimal.
pub fn decimal_string(n: u64) -> (s: String)
    ensures
        s@ == decimal(n as nat),
{
    string_of(&decimal_chars(n))
}

pub proof fn lemma_decimal_shape(n: nat)
    ensures
        decimal(n).len() >= 1,
        n < 10 <==> decimal(n).len() == 1,
        decimal(n).last() == digit(n % 10),
        forall|j: int| 0 <= j < decimal(n).len() ==> '0' <= #[trigger] decimal(n)[j] <= '9',
    decreases n,
{
    if n >= 10 {
        lemma_decimal_shape(n / 10);
        assert forall|j: int| 0 <= j < decimal(n).len() implies '0' <= #[trigger] decimal(n)[j] <= '9' by {
            if j < decimal(n).len() - 1 {
                assert(decimal(n)[j] == decimal(n / 10)[j]);
            }
        }
    }
}

/// Different numbers have different decimal forms.
pub proof fn lemma_decimal_injective(a: nat, b: nat)
    requires
        decimal(a) == decimal(b),
    ensures
        a == b,
    decreases a,
{
    lemma_decimal_shape(a);
    lemma_decimal_shape(b);
    assert(digit(a % 10) == digit(b % 10));
    assert(a % 10 == b % 10);
    if a >= 10 && b >= 10 {
        assert(decimal(a / 10) =~= decimal(a).drop_last());
        assert(decimal(b / 10) =~= decimal(b).drop_last());
        lemma_decimal_injective(a / 10, b / 10);
    }
}

/// Whether `v` (a list of strings) holds `s`.
pub(crate) fn contains_str(v: &Vec<String>, s: &Vec<char>) -> (r: bool)
    ensures
        r == strs(v@).contains(s@),
{
    let mut k: usize = 0;
    while k < v.len()
        invariant
            k <= v.len(),
            forall|j: int| 0 <= j < k ==> strs(v@)[j] != s@,
        decreases v.len() - k,
    {
        let c = chars_of(v[k].as_str());
        if chars_equal(&c, s) {
            assert(strs(v@)[k as int] == s@);
            return true;
        }
        k += 1;
    }
    false
}

/// `s` with every leading repetition of `pat` removed.
pub open spec fn strip_repeated(s: Seq<char>, pat: Seq<char>) -> Seq<char>
    decreases s.len(),
{
    if pat.len() > 0 && pat.is_prefix_of(s) {
        strip_repeated(s.skip(pat.len() as int), pat)
    } else {
        s
    }
}

/// `v` with every leading repetition of `pat` removed.
pub(crate) fn strip_repeated_chars(v: &Vec<char>, pat: &Vec<char>) -> (r: Vec<char>)
    ensures
        r@ == strip_repeated(v@, pat@),
{
    let mut k: usize = 0;
    assert(v@.skip(0) =~= v@);
    while pat.len() > 0 && k <= v.len() && v.len() - k >= pat.len()
        && crate::text::prefix_at(v, k, pat)
        invariant
            k <= v.len(),
            strip_repeated(v@, pat@) == strip_repeated(v@.skip(k as int), pat@),
        decreases v.len() - k,
    {
        assert(v@.skip(k as int).skip(pat.len() as int) =~= v@.skip(k + pat.len()));
        k += pat.len();
    }
    if pat.len() > 0 && k <= v.len() && v.len() - k < pat.len() {
        assert(!pat@.is_prefix_of(v@.skip(k as int)));
    }
    slice_chars(v, k, v.len())
}

/// Whether `pat` occurs in `v` at position `k`.
pub(crate) fn prefix_at(v: &Vec<char>, k: usize, pat: &Vec<char>) -> (r: bool)
    requires
        k <= v.len(),
        v.len() - k >= pat.len(),
    ensures
        r == pat@.is_prefix_of(v@.skip(k as int)),
{
    let mut j: usize = 0;
    while j < pat.len()
        invariant
            j <= pat.len(),
            k <= v.len(),
            v.len() - k >= pat.len(),
            forall|m: int| 0 <= m < j ==> pat@[m] == v@[k + m],
        decreases pat.len() - j,
    {
        if pat[j] != v[k + j] {
            assert(v@.skip(k as int)[j as int] == v@[k + j]);
            return false;
        }
        j += 1;
    }
    true
}

/// `v` with leading and trailing whitespace removed.
pub(crate) fn trim_chars(v: &Vec<char>) -> (r: Vec<char>)
    ensures
        r@ == trim(v@),
{
    let a = skip_ws_front(v, 0, v.len());
    let b = skip_ws_back(v, a, v.len());
    assert(v@.subrange(0, v.len() as int) =~= v@);
    slice_chars(v, a, b)
}

/// What `str::to_lowercase` makes of `s`: the full Unicode lower-case mapping,
/// a function of `s` alone.
pub uninterp spec fn unicode_lowercase(s: Seq<char>) -> Seq<char>;

/// Calls std's `str::to_lowercase`. Its result (the full Unicode lower-case
/// mapping, which this library does not restate) is only claimed to be
/// `unicode_lowercase` of the input: the same text always lowers the same way.
#[verifier::external_body]
pub(crate) fn to_lowercase(s: &str) -> (r: String)
    ensures
        r@ == unicode_lowercase(s@),
{
    s.to_lowercase()
}

} // verus!
