//! The non-interactive command line, `zipline lock <path>...` and `zipline
//! open <file>`, for scripts: reading their arguments. Several items locked
//! together share one folder, and the archive is named after it. The password
//! is never an argument; it is asked for on the terminal.

use vstd::prelude::*;

use crate::backend::{spec_ext, spec_suggested_output_multi, suggested_output_multi, Backend};
use crate::paths::{parent, spec_parent};
use crate::text::{chars_equal, chars_of, lower_chars, lower_seq, push_str, string_of, strs};

verus! {

pub const LOCK_USAGE: &'static str = "usage: zipline lock <file-or-folder> [--out FILE] [--backend age|7z|zip] [--level 0-9]";

pub const OPEN_USAGE: &'static str = "usage: zipline open <file> [--out DIR]";

pub open spec fn lock_usage() -> Seq<char> {
    "usage: zipline lock <file-or-folder> [--out FILE] [--backend age|7z|zip] [--level 0-9]"@
}

pub open spec fn open_usage() -> Seq<char> {
    "usage: zipline open <file> [--out DIR]"@
}

/// What `zipline lock` was asked to do.
#[derive(Debug)]
pub struct LockArgs {
    /// The item to lock (the first one named).
    pub path: String,
    /// The items named after it, locked together with it, all from its folder.
    pub more: Vec<String>,
    pub out: Option<String>,
    pub backend: Backend,
    pub level: u8,
}

/// What `zipline open` was asked to do.
#[derive(Debug)]
pub struct OpenArgs {
    pub archive: String,
    pub out: Option<String>,
}

pub open spec fn is_digit(c: char) -> bool {
    '0' <= c && c <= '9'
}

/// The value of a string of decimal digits.
pub open spec fn digits_value(s: Seq<char>) -> nat
    decreases s.len(),
{
    if s.len() == 0 {
        0
    } else {
        digits_value(s.drop_last()) * 10 + ((s.last() as int) - ('0' as int)) as nat
    }
}

/// The digits of an unsigned number: the text after an optional leading `+`.
pub open spec fn unsigned_body(s: Seq<char>) -> Seq<char> {
    if s.len() > 0 && s[0] == '+' {
        s.skip(1)
    } else {
        s
    }
}

/// A `u8` as the standard library reads it from text: an optional `+`, then
/// one or more decimal digits, worth at most 255.
pub open spec fn spec_parse_u8(s: Seq<char>) -> Option<u8> {
    let body = unsigned_body(s);
    if body.len() == 0 || exists|i: int| 0 <= i < body.len() && !is_digit(#[trigger] body[i]) {
        None
    } else if digits_value(body) > 255 {
        None
    } else {
        Some(digits_value(body) as u8)
    }
}

proof fn lemma_digits_value_grows(s: Seq<char>, k: int)
    requires
        0 <= k <= s.len(),
        forall|i: int| 0 <= i < s.len() ==> is_digit(#[trigger] s[i]),
    ensures
        digits_value(s.take(k)) <= digits_value(s),
    decreases s.len() - k,
{
    if k < s.len() {
        lemma_digits_value_grows(s, k + 1);
        assert(s.take(k + 1).drop_last() =~= s.take(k));
        assert(is_digit(s[k]));
    } else {
        assert(s.take(k) =~= s);
    }
}

/// Read a `u8` the way the standard library does.
pub fn parse_u8(s: &str) -> (r: Option<u8>)
    ensures
        r == spec_parse_u8(s@),
{
    let v = chars_of(s);
    let start: usize = if v.len() > 0 && v[0] == '+' {
        1
    } else {
        0
    };
    let ghost body = unsigned_body(s@);
    assert(body =~= v@.skip(start as int));
    if start >= v.len() {
        return None;
    }
    let mut acc: u32 = 0;
    let mut k = start;
    while k < v.len()
        invariant
            start <= k <= v.len(),
            body == v@.skip(start as int),
            body == unsigned_body(s@),
            forall|i: int| 0 <= i < k - start ==> is_digit(#[trigger] body[i]),
            acc == digits_value(body.take(k - start)),
            acc <= 255,
        decreases v.len() - k,
    {
        let c = v[k];
        assert(body[k - start] == c);
        if !('0' <= c && c <= '9') {
            assert(!is_digit(body[k - start]));
            assert(0 <= k - start < body.len());
            assert(exists|i: int| 0 <= i < body.len() && !is_digit(#[trigger] body[i]));
            return None;
        }
        assert(body.take(k - start + 1).drop_last() =~= body.take(k - start));
        assert(body.take(k - start + 1).last() == c);
        acc = acc * 10 + ((c as u32) - 48);
        assert(acc == digits_value(body.take(k - start + 1)));
        if acc > 255 {
            proof {
                if forall|i: int| 0 <= i < body.len() ==> is_digit(#[trigger] body[i]) {
                    lemma_digits_value_grows(body, k - start + 1);
                    assert(digits_value(body) > 255);
                } else {
                    assert(exists|i: int| 0 <= i < body.len() && !is_digit(#[trigger] body[i]));
                }
            }
            return None;
        }
        k += 1;
    }
    assert(body.take(v.len() - start) =~= body);
    Some(acc as u8)
}

pub open spec fn level_not_number() -> Seq<char> {
    "level must be a number from 0 to 9"@
}

pub open spec fn level_out_of_range() -> Seq<char> {
    "level must be from 0 to 9"@
}

/// A compression level from 0 to 9.
pub open spec fn spec_parse_level(s: Seq<char>) -> Result<u8, Seq<char>> {
    match spec_parse_u8(s) {
        None => Err(level_not_number()),
        Some(n) => if n > 9 {
            Err(level_out_of_range())
        } else {
            Ok(n)
        },
    }
}

/// Read a compression level from 0 to 9.
pub fn parse_level(s: &str) -> (r: Result<u8, String>)
    ensures
        match r {
            Ok(n) => spec_parse_level(s@) == Ok::<u8, Seq<char>>(n),
            Err(e) => spec_parse_level(s@) == Err::<u8, Seq<char>>(e@),
        },
{
    match parse_u8(s) {
        None => Err(string_of(&chars_of("level must be a number from 0 to 9"))),
        Some(n) => if n > 9 {
            Err(string_of(&chars_of("level must be from 0 to 9")))
        } else {
            Ok(n)
        },
    }
}

/// A backend named on the command line, without regard to ASCII case.
pub open spec fn spec_parse_backend(s: Seq<char>) -> Result<Backend, Seq<char>> {
    let l = lower_seq(s);
    if l == "age"@ {
        Ok(Backend::Age)
    } else if l == "7z"@ || l == "7zip"@ {
        Ok(Backend::SevenZip)
    } else if l == "zip"@ {
        Ok(Backend::Zip)
    } else {
        Err("unknown backend '"@ + l + "' (use age, 7z, or zip)"@)
    }
}

/// A backend's archive extension also names it for `--backend`.
pub proof fn lemma_extension_names_backend(b: Backend)
    ensures
        spec_parse_backend(spec_ext(b)) == Ok::<Backend, Seq<char>>(b),
{
    reveal_strlit("age");
    reveal_strlit("7z");
    reveal_strlit("7zip");
    reveal_strlit("zip");
    let l = lower_seq(spec_ext(b));
    assert(l =~= spec_ext(b));
    match b {
        Backend::Age => {},
        Backend::SevenZip => {
            assert(l != "age"@);
        },
        Backend::Zip => {
            assert(l[0] != "age"@[0]);
            assert(l != "7z"@ && l != "7zip"@);
        },
    }
}

/// Read a backend name: `age`, `7z` (or `7zip`), or `zip`.
pub fn parse_backend(s: &str) -> (r: Result<Backend, String>)
    ensures
        match r {
            Ok(b) => spec_parse_backend(s@) == Ok::<Backend, Seq<char>>(b),
            Err(e) => spec_parse_backend(s@) == Err::<Backend, Seq<char>>(e@),
        },
{
    let l = lower_chars(&chars_of(s));
    if chars_equal(&l, &chars_of("age")) {
        Ok(Backend::Age)
    } else if chars_equal(&l, &chars_of("7z")) || chars_equal(&l, &chars_of("7zip")) {
        Ok(Backend::SevenZip)
    } else if chars_equal(&l, &chars_of("zip")) {
        Ok(Backend::Zip)
    } else {
        let mut e = String::new();
        push_str(&mut e, "unknown backend '");
        push_str(&mut e, string_of(&l).as_str());
        push_str(&mut e, "' (use age, 7z, or zip)");
        Err(e)
    }
}

/// The value following the flag at `args[*i]`, moving `*i` onto it.
pub fn value(args: &Vec<String>, i: &mut usize, flag: &str) -> (r: Result<String, String>)
    requires
        *old(i) < usize::MAX,
    ensures
        *final(i) == *old(i) + 1,
        match r {
            Ok(v) => *final(i) < args.len() && v@ == args@[*final(i) as int]@,
            Err(e) => *final(i) >= args.len() && e@ == flag@ + " needs a value"@,
        },
{
    *i += 1;
    if *i < args.len() {
        Ok(args[*i].clone())
    } else {
        let mut e = string_of(&chars_of(flag));
        push_str(&mut e, " needs a value");
        Err(e)
    }
}

pub open spec fn is_flag(a: Seq<char>, long: Seq<char>, short: Seq<char>) -> bool {
    a == long || a == short
}

/// What has been read of a `lock` command line so far.
pub struct LockSoFar {
    pub items: Seq<Seq<char>>,
    pub out: Option<Seq<char>>,
    pub backend: Option<Backend>,
    pub level: u8,
}

/// Reads `args[i..]` of a `lock` command line.
pub open spec fn lock_scan(args: Seq<Seq<char>>, i: int, st: LockSoFar) -> Result<LockSoFar, Seq<char>>
    decreases args.len() - i,
{
    if i < 0 || i >= args.len() {
        Ok(st)
    } else {
        let a = args[i];
        if is_flag(a, "--out"@, "-o"@) {
            if i + 1 < args.len() {
                lock_scan(args, i + 2, LockSoFar { out: Some(args[i + 1]), ..st })
            } else {
                Err("--out"@ + " needs a value"@)
            }
        } else if is_flag(a, "--backend"@, "-b"@) {
            if i + 1 < args.len() {
                match spec_parse_backend(args[i + 1]) {
                    Ok(b) => lock_scan(args, i + 2, LockSoFar { backend: Some(b), ..st }),
                    Err(e) => Err(e),
                }
            } else {
                Err("--backend"@ + " needs a value"@)
            }
        } else if is_flag(a, "--level"@, "-l"@) {
            if i + 1 < args.len() {
                match spec_parse_level(args[i + 1]) {
                    Ok(n) => lock_scan(args, i + 2, LockSoFar { level: n, ..st }),
                    Err(e) => Err(e),
                }
            } else {
                Err("--level"@ + " needs a value"@)
            }
        } else if a.len() > 0 && a[0] == '-' {
            Err("unknown option '"@ + a + "'\n"@ + lock_usage())
        } else {
            lock_scan(args, i + 1, LockSoFar { items: st.items.push(a), ..st })
        }
    }
}

/// The message for several items when one of them does not name its folder.
pub open spec fn several_need_folders() -> Seq<char> {
    "to lock several items together, give each with its folder\n"@
}

/// Whether a path names the folder it is in.
pub open spec fn names_folder(p: Seq<char>) -> bool {
    p.contains('/')
}

/// The meaning of a `lock` command line: one or more items (several only
/// when each names its folder), and optionally an output, a backend (age
/// unless named) and a level (5 unless named).
pub open spec fn spec_parse_lock(args: Seq<Seq<char>>) -> Result<
    (Seq<Seq<char>>, Option<Seq<char>>, Backend, u8),
    Seq<char>,
> {
    match lock_scan(args, 0, LockSoFar { items: Seq::empty(), out: None, backend: None, level: 5 }) {
        Err(e) => Err(e),
        Ok(st) => if st.items.len() == 0 {
            Err(lock_usage())
        } else if st.items.len() > 1 && exists|k: int| 0 <= k < st.items.len() && !names_folder(#[trigger] st.items[k]) {
            Err(several_need_folders() + lock_usage())
        } else {
            Ok(
                (
                    st.items,
                    st.out,
                    match st.backend {
                        Some(b) => b,
                        None => Backend::Age,
                    },
                    st.level,
                ),
            )
        },
    }
}

pub open spec fn opt_view(o: Option<String>) -> Option<Seq<char>> {
    match o {
        Some(s) => Some(s@),
        None => None,
    }
}

fn is_flag_exec(a: &Vec<char>, long: &str, short: &str) -> (r: bool)
    ensures
        r == is_flag(a@, long@, short@),
{
    chars_equal(a, &chars_of(long)) || chars_equal(a, &chars_of(short))
}

fn with_usage(head: &str, arg: Option<&String>, tail: &str, usage: &str) -> (r: String)
    ensures
        match arg {
            Some(a) => r@ == head@ + a@ + tail@ + usage@,
            None => r@ == head@ + usage@,
        },
{
    let mut e = String::new();
    push_str(&mut e, head);
    match arg {
        Some(a) => {
            push_str(&mut e, a.as_str());
            push_str(&mut e, tail);
        },
        None => {},
    }
    push_str(&mut e, usage);
    e
}

/// Reading `args` from `i` goes on unchanged into whatever follows `args`,
/// once `args` itself was read to its end.
proof fn lemma_scan_goes_on(args: Seq<Seq<char>>, extra: Seq<Seq<char>>, i: int, st: LockSoFar)
    requires
        0 <= i <= args.len(),
        lock_scan(args, i, st) is Ok,
    ensures
        lock_scan(args + extra, i, st) == lock_scan(
            args + extra,
            args.len() as int,
            match lock_scan(args, i, st) {
                Ok(t) => t,
                Err(_) => st,
            },
        ),
    decreases args.len() - i,
{
    let all = args + extra;
    if i < args.len() {
        let a = args[i];
        assert(all[i] == a);
        if i + 1 < args.len() {
            assert(all[i + 1] == args[i + 1]);
        }
        if is_flag(a, "--out"@, "-o"@) {
            lemma_scan_goes_on(args, extra, i + 2, LockSoFar { out: Some(args[i + 1]), ..st });
        } else if is_flag(a, "--backend"@, "-b"@) {
            match spec_parse_backend(args[i + 1]) {
                Ok(b) => lemma_scan_goes_on(args, extra, i + 2, LockSoFar { backend: Some(b), ..st }),
                Err(_) => {},
            }
        } else if is_flag(a, "--level"@, "-l"@) {
            match spec_parse_level(args[i + 1]) {
                Ok(n) => lemma_scan_goes_on(args, extra, i + 2, LockSoFar { level: n, ..st }),
                Err(_) => {},
            }
        } else if a.len() > 0 && a[0] == '-' {
        } else {
            lemma_scan_goes_on(args, extra, i + 1, LockSoFar { items: st.items.push(a), ..st });
        }
    }
}

/// The state a `lock` command line is read into, from its start.
pub open spec fn lock_read(args: Seq<Seq<char>>) -> Result<LockSoFar, Seq<char>> {
    lock_scan(args, 0, LockSoFar { items: Seq::empty(), out: None, backend: None, level: 5 })
}

/// One item alone is locked with age at level 5, written beside it.
pub proof fn lemma_lock_defaults(p: Seq<char>)
    requires
        !(p.len() > 0 && p[0] == '-'),
    ensures
        spec_parse_lock(seq![p]) == Ok::<(Seq<Seq<char>>, Option<Seq<char>>, Backend, u8), Seq<char>>(
            (seq![p], None, Backend::Age, 5),
        ),
{
    reveal_strlit("--out");
    reveal_strlit("-o");
    reveal_strlit("--backend");
    reveal_strlit("-b");
    reveal_strlit("--level");
    reveal_strlit("-l");
    let args = seq![p];
    let init = LockSoFar { items: Seq::empty(), out: None, backend: None, level: 5 };
    assert(args[0] == p);
    if p.len() > 0 {
        assert("--out"@[0] == '-' && "-o"@[0] == '-' && "--backend"@[0] == '-');
        assert("-b"@[0] == '-' && "--level"@[0] == '-' && "-l"@[0] == '-');
        assert(p != "--out"@ && p != "-o"@ && p != "--backend"@ && p != "-b"@ && p != "--level"@ && p != "-l"@);
    } else {
        assert(p != "--out"@ && p != "-o"@ && p != "--backend"@ && p != "-b"@ && p != "--level"@ && p != "-l"@);
    }
    assert(lock_scan(args, 1, LockSoFar { items: init.items.push(p), ..init }) == Ok::<LockSoFar, Seq<char>>(
        LockSoFar { items: seq![p], ..init },
    )) by {
        assert(init.items.push(p) =~= seq![p]);
    }
}

/// Naming a backend changes nothing else that was read: after a command line
/// that reads, `--backend x` or `-b x` with a known name gives the same
/// items, output and level, with that backend.
pub proof fn lemma_backend_flag_keeps_the_rest(args: Seq<Seq<char>>, flag: Seq<char>, name: Seq<char>)
    requires
        is_flag(flag, "--backend"@, "-b"@),
        spec_parse_backend(name) is Ok,
        spec_parse_lock(args) is Ok,
    ensures
        spec_parse_lock(args + seq![flag, name]) == Ok::<(Seq<Seq<char>>, Option<Seq<char>>, Backend, u8), Seq<char>>(
            (
                spec_parse_lock(args)->Ok_0.0,
                spec_parse_lock(args)->Ok_0.1,
                spec_parse_backend(name)->Ok_0,
                spec_parse_lock(args)->Ok_0.3,
            ),
        ),
{
    reveal_strlit("--out");
    reveal_strlit("-o");
    reveal_strlit("--backend");
    reveal_strlit("-b");
    let extra = seq![flag, name];
    let all = args + extra;
    let init = LockSoFar { items: Seq::empty(), out: None, backend: None, level: 5 };
    lemma_scan_goes_on(args, extra, 0, init);
    let st = lock_read(args)->Ok_0;
    assert(all[args.len() as int] == flag);
    assert(all[args.len() + 1int] == name);
    assert(!is_flag(flag, "--out"@, "-o"@)) by {
        if flag == "--out"@ {
            assert(flag[2] != "--out"@[2]);
        }
        if flag == "-o"@ {
            assert(flag[1] != "-o"@[1]);
        }
    }
    let b = spec_parse_backend(name)->Ok_0;
    assert(lock_scan(all, args.len() + 2int, LockSoFar { backend: Some(b), ..st }) == Ok::<LockSoFar, Seq<char>>(
        LockSoFar { backend: Some(b), ..st },
    ));
}

/// Naming a level changes nothing else that was read: after a command line
/// that reads, `--level n` or `-l n` with `n` from 0 to 9 gives the same
/// items, output and backend, with level `n`.
pub proof fn lemma_level_flag_sets_the_level(args: Seq<Seq<char>>, flag: Seq<char>, value: Seq<char>)
    requires
        is_flag(flag, "--level"@, "-l"@),
        spec_parse_level(value) is Ok,
        spec_parse_lock(args) is Ok,
    ensures
        spec_parse_lock(args + seq![flag, value]) == Ok::<(Seq<Seq<char>>, Option<Seq<char>>, Backend, u8), Seq<char>>(
            (
                spec_parse_lock(args)->Ok_0.0,
                spec_parse_lock(args)->Ok_0.1,
                spec_parse_lock(args)->Ok_0.2,
                spec_parse_level(value)->Ok_0,
            ),
        ),
{
    reveal_strlit("--out");
    reveal_strlit("-o");
    reveal_strlit("--backend");
    reveal_strlit("-b");
    reveal_strlit("--level");
    reveal_strlit("-l");
    let extra = seq![flag, value];
    let all = args + extra;
    let init = LockSoFar { items: Seq::empty(), out: None, backend: None, level: 5 };
    lemma_scan_goes_on(args, extra, 0, init);
    let st = lock_read(args)->Ok_0;
    assert(all[args.len() as int] == flag);
    assert(all[args.len() + 1int] == value);
    assert(!is_flag(flag, "--out"@, "-o"@) && !is_flag(flag, "--backend"@, "-b"@)) by {
        if flag == "--level"@ {
            assert(flag[2] != "--out"@[2]);
            assert(flag[2] != "--backend"@[2]);
            assert(flag.len() != "-o"@.len() && flag.len() != "-b"@.len());
        } else {
            assert(flag[1] != "-o"@[1]);
            assert(flag[1] != "-b"@[1]);
            assert(flag.len() != "--out"@.len() && flag.len() != "--backend"@.len());
        }
    }
    let n = spec_parse_level(value)->Ok_0;
    assert(lock_scan(all, args.len() + 2int, LockSoFar { level: n, ..st }) == Ok::<LockSoFar, Seq<char>>(
        LockSoFar { level: n, ..st },
    ));
}

/// Whether `s` names the folder it is in.
fn names_folder_exec(s: &String) -> (r: bool)
    ensures
        r == names_folder(s@),
{
    let v = chars_of(s.as_str());
    let mut k: usize = 0;
    while k < v.len()
        invariant
            k <= v.len(),
            v@ == s@,
            forall|j: int| 0 <= j < k ==> v@[j] != '/',
        decreases v.len() - k,
    {
        if v[k] == '/' {
            assert(s@[k as int] == '/');
            return true;
        }
        k += 1;
    }
    false
}

/// The items of a `lock` command line, in the order named.
pub open spec fn lock_items(a: LockArgs) -> Seq<Seq<char>> {
    seq![a.path@] + strs(a.more@)
}

/// Read the arguments of `zipline lock`.
pub fn parse_lock(args: &Vec<String>) -> (r: Result<LockArgs, String>)
    ensures
        match r {
            Ok(a) => spec_parse_lock(strs(args@)) == Ok::<
                (Seq<Seq<char>>, Option<Seq<char>>, Backend, u8),
                Seq<char>,
            >((lock_items(a), opt_view(a.out), a.backend, a.level)),
            Err(e) => spec_parse_lock(strs(args@)) == Err::<
                (Seq<Seq<char>>, Option<Seq<char>>, Backend, u8),
                Seq<char>,
            >(e@),
        },
{
    let ghost sa = strs(args@);
    let mut items: Vec<String> = Vec::new();
    let mut out: Option<String> = None;
    let mut backend: Option<Backend> = None;
    let mut level: u8 = 5;
    let mut i: usize = 0;
    assert(strs(items@) =~= Seq::<Seq<char>>::empty());
    while i < args.len()
        invariant
            i <= args.len(),
            sa == strs(args@),
            lock_scan(sa, 0, LockSoFar { items: Seq::empty(), out: None, backend: None, level: 5 })
                == lock_scan(
                sa,
                i as int,
                LockSoFar { items: strs(items@), out: opt_view(out), backend, level },
            ),
        decreases args.len() - i,
    {
        let a = chars_of(args[i].as_str());
        assert(sa[i as int] == a@);
        if is_flag_exec(&a, "--out", "-o") {
            match value(args, &mut i, "--out") {
                Ok(v) => {
                    out = Some(v);
                },
                Err(e) => {
                    return Err(e);
                },
            }
        } else if is_flag_exec(&a, "--backend", "-b") {
            let v = match value(args, &mut i, "--backend") {
                Ok(v) => v,
                Err(e) => {
                    return Err(e);
                },
            };
            match parse_backend(v.as_str()) {
                Ok(b) => {
                    backend = Some(b);
                },
                Err(e) => {
                    return Err(e);
                },
            }
        } else if is_flag_exec(&a, "--level", "-l") {
            let v = match value(args, &mut i, "--level") {
                Ok(v) => v,
                Err(e) => {
                    return Err(e);
                },
            };
            match parse_level(v.as_str()) {
                Ok(n) => {
                    level = n;
                },
                Err(e) => {
                    return Err(e);
                },
            }
        } else if a.len() > 0 && a[0] == '-' {
            return Err(with_usage("unknown option '", Some(&args[i]), "'\n", LOCK_USAGE));
        } else {
            let ghost before = strs(items@);
            items.push(args[i].clone());
            assert(strs(items@) =~= before.push(sa[i as int]));
        }
        i += 1;
    }
    let ghost all = strs(items@);
    assert(lock_scan(sa, 0, LockSoFar { items: Seq::empty(), out: None, backend: None, level: 5 })
        == Ok::<LockSoFar, Seq<char>>(LockSoFar { items: all, out: opt_view(out), backend, level }));
    if items.len() == 0 {
        return Err(string_of(&chars_of(LOCK_USAGE)));
    }
    if items.len() > 1 {
        let mut k: usize = 0;
        let mut fine = true;
        while k < items.len() && fine
            invariant
                k <= items.len(),
                all == strs(items@),
                fine ==> forall|j: int| 0 <= j < k ==> names_folder(#[trigger] all[j]),
                !fine ==> 0 < k && !names_folder(all[k - 1]),
            decreases items.len() - k,
        {
            fine = names_folder_exec(&items[k]);
            k += 1;
        }
        if !fine {
            assert(!names_folder(all[k - 1]));
            return Err(with_usage("to lock several items together, give each with its folder\n", None, "", LOCK_USAGE));
        }
    }
    let path = items.remove(0);
    assert(all =~= seq![path@] + strs(items@));
    Ok(
        LockArgs {
            path,
            more: items,
            out,
            backend: match backend {
                Some(b) => b,
                None => Backend::Age,
            },
            level,
        },
    )
}

/// Reads `args[i..]` of an `open` command line: the archive and the output so far.
pub open spec fn open_scan(
    args: Seq<Seq<char>>,
    i: int,
    archive: Option<Seq<char>>,
    out: Option<Seq<char>>,
) -> Result<(Option<Seq<char>>, Option<Seq<char>>), Seq<char>>
    decreases args.len() - i,
{
    if i < 0 || i >= args.len() {
        Ok((archive, out))
    } else {
        let a = args[i];
        if is_flag(a, "--out"@, "-o"@) {
            if i + 1 < args.len() {
                open_scan(args, i + 2, archive, Some(args[i + 1]))
            } else {
                Err("--out"@ + " needs a value"@)
            }
        } else if a.len() > 0 && a[0] == '-' {
            Err("unknown option '"@ + a + "'\n"@ + open_usage())
        } else if archive is Some {
            Err("only one archive can be opened at a time\n"@ + open_usage())
        } else {
            open_scan(args, i + 1, Some(a), out)
        }
    }
}

/// The meaning of an `open` command line: one archive, and optionally an output folder.
pub open spec fn spec_parse_open(args: Seq<Seq<char>>) -> Result<(Seq<char>, Option<Seq<char>>), Seq<char>> {
    match open_scan(args, 0, None, None) {
        Err(e) => Err(e),
        Ok((archive, out)) => match archive {
            None => Err(open_usage()),
            Some(a) => Ok((a, out)),
        },
    }
}

/// Read the arguments of `zipline open`.
pub fn parse_open(args: &Vec<String>) -> (r: Result<OpenArgs, String>)
    ensures
        match r {
            Ok(a) => spec_parse_open(strs(args@)) == Ok::<(Seq<char>, Option<Seq<char>>), Seq<char>>(
                (a.archive@, opt_view(a.out)),
            ),
            Err(e) => spec_parse_open(strs(args@)) == Err::<(Seq<char>, Option<Seq<char>>), Seq<char>>(
                e@,
            ),
        },
{
    let ghost sa = strs(args@);
    let mut archive: Option<String> = None;
    let mut out: Option<String> = None;
    let mut i: usize = 0;
    while i < args.len()
        invariant
            i <= args.len(),
            sa == strs(args@),
            open_scan(sa, 0, None, None) == open_scan(sa, i as int, opt_view(archive), opt_view(out)),
        decreases args.len() - i,
    {
        let a = chars_of(args[i].as_str());
        assert(sa[i as int] == a@);
        if is_flag_exec(&a, "--out", "-o") {
            match value(args, &mut i, "--out") {
                Ok(v) => {
                    out = Some(v);
                },
                Err(e) => {
                    return Err(e);
                },
            }
        } else if a.len() > 0 && a[0] == '-' {
            return Err(with_usage("unknown option '", Some(&args[i]), "'\n", OPEN_USAGE));
        } else {
            if archive.is_some() {
                return Err(with_usage("only one archive can be opened at a time\n", None, "", OPEN_USAGE));
            }
            archive = Some(args[i].clone());
        }
        i += 1;
    }
    match archive {
        None => Err(string_of(&chars_of(OPEN_USAGE))),
        Some(a) => Ok(OpenArgs { archive: a, out }),
    }
}

/// Where `zipline lock` writes: the `--out` path, else beside the item, or
/// for several items in their folder, named after it.
pub fn lock_output(a: &LockArgs) -> (r: String)
    ensures
        r@ == match a.out {
            Some(o) => o@,
            None => spec_suggested_output_multi(lock_items(*a), a.backend),
        },
{
    match &a.out {
        Some(o) => o.clone(),
        None => suggested_output_multi(&a.items(), a.backend),
    }
}

impl LockArgs {
    /// Every item to lock, in the order named.
    pub fn items(&self) -> (r: Vec<String>)
        ensures
            strs(r@) == lock_items(*self),
    {
        let mut r: Vec<String> = Vec::new();
        r.push(self.path.clone());
        let mut k: usize = 0;
        while k < self.more.len()
            invariant
                k <= self.more.len(),
                strs(r@) == seq![self.path@] + strs(self.more@).take(k as int),
            decreases self.more.len() - k,
        {
            let ghost before = strs(r@);
            r.push(self.more[k].clone());
            assert(strs(r@) =~= before.push(self.more@[k as int]@));
            assert(strs(self.more@).take(k as int + 1) =~= strs(self.more@).take(k as int).push(self.more@[k as int]@));
            k += 1;
        }
        assert(strs(self.more@).take(self.more.len() as int) =~= strs(self.more@));
        r
    }
}

/// Where `zipline open` unpacks: the `--out` folder, else the archive's own
/// folder, else the current one.
pub fn open_destination(a: &OpenArgs) -> (r: String)
    ensures
        r@ == match a.out {
            Some(o) => o@,
            None => match spec_parent(a.archive@) {
                Some(p) => p,
                None => "."@,
            },
        },
{
    match &a.out {
        Some(o) => o.clone(),
        None => match parent(a.archive.as_str()) {
            Some(p) => p,
            None => string_of(&chars_of(".")),
        },
    }
}

} // verus!
