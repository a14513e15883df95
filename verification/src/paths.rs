//! Unix paths, held as strings and taken apart the way the standard library's
//! `Path` does: `/` separates components, trailing separators and `.`
//! components (but a leading one) are ignored, and the lexical `.`/`..`
//! resolution never touches the filesystem.

use vstd::prelude::*;

use crate::text::{chars_of, string_of, views};

verus! {

/// `p` without its trailing separators (so `"/"` becomes empty).
pub open spec fn trim_seps(p: Seq<char>) -> Seq<char>
    decreases p.len(),
{
    if p.len() > 0 && p.last() == '/' {
        trim_seps(p.drop_last())
    } else {
        p
    }
}

/// Index of the last occurrence of `c` in `s`, or -1.
pub open spec fn last_index(s: Seq<char>, c: char) -> int
    decreases s.len(),
{
    if s.len() == 0 {
        -1
    } else if s.last() == c {
        s.len() - 1
    } else {
        last_index(s.drop_last(), c)
    }
}

/// `p` without what its end adds no component by: trailing separators and
/// `.` components, but a leading `.` (so `"/"` and `"/."` become empty,
/// `"a/./"` becomes `"a"` and `"./."` becomes `"."`).
pub open spec fn trim_end(p: Seq<char>) -> Seq<char>
    decreases p.len(),
{
    if p.len() > 0 && p.last() == '/' {
        trim_end(p.drop_last())
    } else if p.len() >= 2 && p.last() == '.' && p[p.len() - 2] == '/' {
        trim_end(p.drop_last())
    } else {
        p
    }
}

pub open spec fn dot() -> Seq<char> {
    seq!['.']
}

pub open spec fn dotdot() -> Seq<char> {
    seq!['.', '.']
}

/// The final component of `p`, unless it is `..`, the path is `.` or empty,
/// or it is the root.
pub open spec fn spec_file_name(p: Seq<char>) -> Option<Seq<char>> {
    let q = trim_end(p);
    if q.len() == 0 {
        None
    } else {
        let seg = q.subrange(last_index(q, '/') + 1, q.len() as int);
        if seg == dot() || seg == dotdot() {
            None
        } else {
            Some(seg)
        }
    }
}

/// `p` without its final component; `None` for the root and the empty path.
pub open spec fn spec_parent(p: Seq<char>) -> Option<Seq<char>> {
    let q = trim_end(p);
    if q.len() == 0 {
        None
    } else if last_index(q, '/') < 0 {
        Some(Seq::empty())
    } else {
        let head = trim_end(q.take(last_index(q, '/')));
        if head.len() == 0 {
            Some(seq!['/'])
        } else {
            Some(head)
        }
    }
}

/// `name` appended to `base` with one separator; an absolute `name` replaces `base`.
pub open spec fn spec_join(base: Seq<char>, name: Seq<char>) -> Seq<char> {
    if name.len() > 0 && name[0] == '/' {
        name
    } else if base.len() == 0 {
        name
    } else if base.last() == '/' {
        base + name
    } else {
        base + seq!['/'] + name
    }
}

/// What follows the last `.` of the file name, when that dot is not its first character.
pub open spec fn spec_extension(p: Seq<char>) -> Option<Seq<char>> {
    match spec_file_name(p) {
        None => None,
        Some(f) => {
            let i = last_index(f, '.');
            if i <= 0 {
                None
            } else {
                Some(f.subrange(i + 1, f.len() as int))
            }
        },
    }
}

pub open spec fn is_absolute(p: Seq<char>) -> bool {
    p.len() > 0 && p[0] == '/'
}

/// Length of `p[..n]` once [`trim_end`] has trimmed it.
fn trimmed_len(p: &Vec<char>, n: usize) -> (r: usize)
    requires
        n <= p.len(),
    ensures
        r <= n,
        p@.take(r as int) == trim_end(p@.take(n as int)),
{
    let mut k = n;
    while k > 0 && (p[k - 1] == '/' || (k >= 2 && p[k - 1] == '.' && p[k - 2] == '/'))
        invariant
            k <= n <= p.len(),
            trim_end(p@.take(k as int)) == trim_end(p@.take(n as int)),
        decreases k,
    {
        assert(p@.take(k as int).drop_last() =~= p@.take(k - 1));
        k -= 1;
    }
    k
}

/// Position of the last `c` in `p[..n]`.
fn last_index_in(p: &Vec<char>, n: usize, c: char) -> (r: Option<usize>)
    requires
        n <= p.len(),
    ensures
        match r {
            None => last_index(p@.take(n as int), c) == -1,
            Some(i) => i < n && last_index(p@.take(n as int), c) == i,
        },
{
    let mut k = n;
    while k > 0
        invariant
            k <= n <= p.len(),
            last_index(p@.take(k as int), c) == last_index(p@.take(n as int), c),
        decreases k,
    {
        if p[k - 1] == c {
            return Some(k - 1);
        }
        assert(p@.take(k as int).drop_last() =~= p@.take(k - 1));
        k -= 1;
    }
    None
}

pub(crate) proof fn lemma_last_index_bounds(s: Seq<char>, c: char)
    ensures
        -1 <= last_index(s, c) < s.len(),
        last_index(s, c) >= 0 ==> s[last_index(s, c)] == c,
        forall|j: int| last_index(s, c) < j < s.len() ==> s[j] != c,
    decreases s.len(),
{
    if s.len() > 0 && s.last() != c {
        lemma_last_index_bounds(s.drop_last(), c);
        assert forall|j: int| last_index(s, c) < j < s.len() implies s[j] != c by {
            if j < s.len() - 1 {
                assert(s.drop_last()[j] == s[j]);
            }
        }
    }
}

pub(crate) proof fn lemma_trim_is_prefix(p: Seq<char>)
    ensures
        trim_end(p).len() <= p.len(),
        trim_end(p) == p.take(trim_end(p).len() as int),
        trim_end(p).len() > 0 ==> trim_end(p).last() != '/',
        trim_end(p).len() > 1 && trim_end(p).last() == '.' ==> trim_end(p)[trim_end(p).len() - 2] != '/',
    decreases p.len(),
{
    if (p.len() > 0 && p.last() == '/') || (p.len() >= 2 && p.last() == '.' && p[p.len() - 2] == '/') {
        lemma_trim_is_prefix(p.drop_last());
        assert(p.drop_last().take(trim_end(p).len() as int) =~= p.take(trim_end(p).len() as int));
    } else {
        assert(p.take(p.len() as int) =~= p);
    }
}

/// The last `c` of `s + t` is the last of `s` when `t` holds none.
pub(crate) proof fn lemma_last_index_append(s: Seq<char>, t: Seq<char>, c: char)
    requires
        forall|j: int| 0 <= j < t.len() ==> t[j] != c,
    ensures
        last_index(s + t, c) == last_index(s, c),
    decreases t.len(),
{
    if t.len() > 0 {
        assert((s + t).drop_last() =~= s + t.drop_last());
        lemma_last_index_append(s, t.drop_last(), c);
    } else {
        assert(s + t =~= s);
    }
}

/// A file name is a non-empty run of characters without `/`.
pub proof fn lemma_file_name_is_plain(p: Seq<char>)
    ensures
        spec_file_name(p) matches Some(n) ==> n.len() > 0 && forall|j: int| 0 <= j < n.len() ==> n[j] != '/',
{
    let q = trim_end(p);
    if q.len() > 0 {
        lemma_trim_is_prefix(p);
        lemma_last_index_bounds(q, '/');
        let i = last_index(q, '/');
        assert(i < q.len() - 1);
        let n = q.subrange(i + 1, q.len() as int);
        assert forall|j: int| 0 <= j < n.len() implies n[j] != '/' by {
            assert(n[j] == q[i + 1 + j]);
        }
    }
}

/// Joining a folder with a plain name (no `/`, longer than `..`) gives a path
/// whose file name is that name.
pub proof fn lemma_file_name_of_join(dir: Seq<char>, f: Seq<char>)
    requires
        f.len() > 2,
        forall|j: int| 0 <= j < f.len() ==> f[j] != '/',
    ensures
        spec_file_name(spec_join(dir, f)) == Some(f),
{
    let pre = if dir.len() == 0 {
        Seq::<char>::empty()
    } else if dir.last() == '/' {
        dir
    } else {
        dir + seq!['/']
    };
    let j = spec_join(dir, f);
    assert(j =~= pre + f);
    assert(j.last() == f.last());
    assert(j[j.len() - 2] == f[f.len() - 2]);
    assert(trim_end(j) == j);
    lemma_last_index_append(pre, f, '/');
    if pre.len() > 0 {
        assert(pre.last() == '/');
        assert(last_index(pre, '/') == pre.len() - 1);
    }
    assert(j.subrange(pre.len() as int, j.len() as int) =~= f);
    assert(f != dot());
    assert(f != dotdot());
}

/// File name of a path held as characters.
pub(crate) fn file_name_chars(p: &Vec<char>) -> (r: Option<Vec<char>>)
    ensures
        match r {
            None => spec_file_name(p@) is None,
            Some(v) => spec_file_name(p@) == Some(v@),
        },
{
    let n = trimmed_len(p, p.len());
    assert(p@.take(p.len() as int) =~= p@);
    if n == 0 {
        return None;
    }
    let start = match last_index_in(p, n, '/') {
        None => 0,
        Some(i) => i + 1,
    };
    let ghost q = p@.take(n as int);
    proof {
        lemma_last_index_bounds(q, '/');
    }
    let mut seg: Vec<char> = Vec::new();
    let mut k = start;
    while k < n
        invariant
            start <= k <= n <= p.len(),
            seg@ == p@.subrange(start as int, k as int),
        decreases n - k,
    {
        seg.push(p[k]);
        assert(p@.subrange(start as int, k + 1) =~= p@.subrange(start as int, k as int).push(p@[k as int]));
        k += 1;
    }
    assert(seg@ =~= q.subrange(last_index(q, '/') + 1, q.len() as int));
    if (seg.len() == 1 && seg[0] == '.') || (seg.len() == 2 && seg[0] == '.' && seg[1] == '.') {
        assert(seg@ =~= dot() || seg@ =~= dotdot());
        return None;
    }
    assert(seg@ != dot() && seg@ != dotdot()) by {
        if seg@ == dot() {
            assert(seg@.len() == 1 && seg@[0] == '.');
        }
        if seg@ == dotdot() {
            assert(seg@.len() == 2 && seg@[0] == '.' && seg@[1] == '.');
        }
    }
    Some(seg)
}

/// The final component of `path`: `None` for the root, the empty path, `.`,
/// and paths ending in `..`; a `.` after the first component is skipped.
pub fn file_name(path: &str) -> (r: Option<String>)
    ensures
        match r {
            None => spec_file_name(path@) is None,
            Some(s) => spec_file_name(path@) == Some(s@),
        },
{
    let p = chars_of(path);
    match file_name_chars(&p) {
        None => None,
        Some(v) => Some(string_of(&v)),
    }
}

/// Parent of a path held as characters.
pub(crate) fn parent_chars(p: &Vec<char>) -> (r: Option<Vec<char>>)
    ensures
        match r {
            None => spec_parent(p@) is None,
            Some(v) => spec_parent(p@) == Some(v@),
        },
{
    let n = trimmed_len(p, p.len());
    assert(p@.take(p.len() as int) =~= p@);
    if n == 0 {
        return None;
    }
    let ghost q = p@.take(n as int);
    match last_index_in(p, n, '/') {
        None => Some(Vec::new()),
        Some(i) => {
            let h = trimmed_len(p, i);
            assert(q.take(i as int) =~= p@.take(i as int));
            if h == 0 {
                let mut v = Vec::new();
                v.push('/');
                assert(v@ =~= seq!['/']);
                Some(v)
            } else {
                let mut v: Vec<char> = Vec::new();
                let mut k: usize = 0;
                while k < h
                    invariant
                        k <= h <= p.len(),
                        v@ == p@.take(k as int),
                    decreases h - k,
                {
                    v.push(p[k]);
                    assert(p@.take(k + 1) =~= p@.take(k as int).push(p@[k as int]));
                    k += 1;
                }
                Some(v)
            }
        },
    }
}

/// The path without its final component: `None` for the root and the empty
/// path, the empty path for a bare name.
pub fn parent(path: &str) -> (r: Option<String>)
    ensures
        match r {
            None => spec_parent(path@) is None,
            Some(s) => spec_parent(path@) == Some(s@),
        },
{
    let p = chars_of(path);
    match parent_chars(&p) {
        None => None,
        Some(v) => Some(string_of(&v)),
    }
}

/// `name` appended to `base` (characters).
pub(crate) fn join_chars(base: &Vec<char>, name: &Vec<char>) -> (r: Vec<char>)
    ensures
        r@ == spec_join(base@, name@),
{
    if name.len() > 0 && name[0] == '/' {
        return name.clone();
    }
    let mut r = base.clone();
    if base.len() > 0 && base[base.len() - 1] != '/' {
        r.push('/');
    }
    let ghost mid = r@;
    let mut k: usize = 0;
    while k < name.len()
        invariant
            k <= name.len(),
            r@ == mid + name@.take(k as int),
        decreases name.len() - k,
    {
        r.push(name[k]);
        assert(name@.take(k + 1) =~= name@.take(k as int).push(name@[k as int]));
        k += 1;
    }
    assert(name@.take(name.len() as int) =~= name@);
    assert(base.len() > 0 ==> base@.last() == base@[base.len() - 1]);
    r
}

/// `name` placed under `base`, with exactly one separator between them; an
/// absolute `name` stands alone.
pub fn join(base: &str, name: &str) -> (r: String)
    ensures
        r@ == spec_join(base@, name@),
{
    let b = chars_of(base);
    let n = chars_of(name);
    string_of(&join_chars(&b, &n))
}

/// Extension of a path held as characters.
pub(crate) fn extension_chars(p: &Vec<char>) -> (r: Option<Vec<char>>)
    ensures
        match r {
            None => spec_extension(p@) is None,
            Some(v) => spec_extension(p@) == Some(v@),
        },
{
    match file_name_chars(p) {
        None => None,
        Some(f) => {
            match last_index_in(&f, f.len(), '.') {
                None => {
                    assert(f@.take(f.len() as int) =~= f@);
                    None
                },
                Some(i) => {
                    assert(f@.take(f.len() as int) =~= f@);
                    if i == 0 {
                        return None;
                    }
                    let mut v: Vec<char> = Vec::new();
                    let mut k = i + 1;
                    while k < f.len()
                        invariant
                            i + 1 <= k <= f.len(),
                            v@ == f@.subrange(i + 1, k as int),
                        decreases f.len() - k,
                    {
                        v.push(f[k]);
                        assert(f@.subrange(i + 1, k + 1) =~= f@.subrange(i + 1, k as int).push(f@[k as int]));
                        k += 1;
                    }
                    Some(v)
                },
            }
        },
    }
}

/// The extension of the file name of `path`: what follows its last `.`,
/// provided that dot is not the name's first character.
pub fn extension(path: &str) -> (r: Option<String>)
    ensures
        match r {
            None => spec_extension(path@) is None,
            Some(s) => spec_extension(path@) == Some(s@),
        },
{
    let p = chars_of(path);
    match extension_chars(&p) {
        None => None,
        Some(v) => Some(string_of(&v)),
    }
}

/// Splits `p` at separators, left to right: the finished segments and the one in progress.
pub open spec fn split_acc(p: Seq<char>) -> (Seq<Seq<char>>, Seq<char>)
    decreases p.len(),
{
    if p.len() == 0 {
        (Seq::empty(), Seq::empty())
    } else {
        let (done, cur) = split_acc(p.drop_last());
        if p.last() == '/' {
            (done.push(cur), Seq::empty())
        } else {
            (done, cur.push(p.last()))
        }
    }
}

/// The text between separators, in order (empty where separators repeat).
pub open spec fn segments(p: Seq<char>) -> Seq<Seq<char>> {
    split_acc(p).0.push(split_acc(p).1)
}

/// Apply one segment to a stack of names: `..` pops, empty and `.` do nothing.
pub open spec fn resolve(stack: Seq<Seq<char>>, seg: Seq<char>) -> Seq<Seq<char>> {
    if seg.len() == 0 || seg == dot() {
        stack
    } else if seg == dotdot() {
        if stack.len() > 0 {
            stack.drop_last()
        } else {
            stack
        }
    } else {
        stack.push(seg)
    }
}

pub open spec fn resolve_all(segs: Seq<Seq<char>>) -> Seq<Seq<char>>
    decreases segs.len(),
{
    if segs.len() == 0 {
        Seq::empty()
    } else {
        resolve(resolve_all(segs.drop_last()), segs.last())
    }
}

/// The names left after lexically resolving `.` and `..` in `p`.
pub open spec fn normal_names(p: Seq<char>) -> Seq<Seq<char>> {
    resolve_all(segments(p))
}

/// No `.`, `..` or empty name is left once a path is resolved lexically.
proof fn lemma_resolved_names_are_plain(segs: Seq<Seq<char>>)
    ensures
        forall|i: int|
            0 <= i < resolve_all(segs).len() ==> {
                let n = #[trigger] resolve_all(segs)[i];
                n.len() > 0 && n != dot() && n != dotdot()
            },
    decreases segs.len(),
{
    if segs.len() > 0 {
        lemma_resolved_names_are_plain(segs.drop_last());
        let prev = resolve_all(segs.drop_last());
        let seg = segs.last();
        assert forall|i: int| 0 <= i < resolve_all(segs).len() implies {
            let n = #[trigger] resolve_all(segs)[i];
            n.len() > 0 && n != dot() && n != dotdot()
        } by {
            if i < prev.len() {
                assert(resolve_all(segs)[i] == prev[i]);
            }
        }
    }
}

/// Normalizing leaves only plain names: no `.`, `..` or empty component.
pub proof fn lemma_normal_names_are_plain(p: Seq<char>)
    ensures
        forall|i: int|
            0 <= i < normal_names(p).len() ==> {
                let n = #[trigger] normal_names(p)[i];
                n.len() > 0 && n != dot() && n != dotdot()
            },
{
    lemma_resolved_names_are_plain(segments(p));
}

/// The components of `p` as the standard library lists them (after the root):
/// every segment but the empty ones and `.`.
pub open spec fn keep_names(segs: Seq<Seq<char>>) -> Seq<Seq<char>>
    decreases segs.len(),
{
    if segs.len() == 0 {
        Seq::empty()
    } else if segs.last().len() == 0 || segs.last() == dot() {
        keep_names(segs.drop_last())
    } else {
        keep_names(segs.drop_last()).push(segs.last())
    }
}

pub open spec fn components(p: Seq<char>) -> Seq<Seq<char>> {
    keep_names(segments(p))
}

/// Names joined with single separators.
pub open spec fn joined(names: Seq<Seq<char>>) -> Seq<char>
    decreases names.len(),
{
    if names.len() == 0 {
        Seq::empty()
    } else if names.len() == 1 {
        names[0]
    } else {
        joined(names.drop_last()) + seq!['/'] + names.last()
    }
}

/// A path of `names`, rooted or relative.
pub open spec fn render(rooted: bool, names: Seq<Seq<char>>) -> Seq<char> {
    if rooted {
        seq!['/'] + joined(names)
    } else {
        joined(names)
    }
}

/// `p` with `.` and `..` resolved lexically; `..` at the top stays at the top.
pub open spec fn spec_normalize(p: Seq<char>) -> Seq<char> {
    render(is_absolute(p), normal_names(p))
}

/// Whether `names` (as a rooted or relative path) lies under `base`, component by component.
pub open spec fn under(rooted: bool, names: Seq<Seq<char>>, base: Seq<char>) -> bool {
    rooted == is_absolute(base) && components(base).is_prefix_of(names)
}

fn seq_is(v: &Vec<char>, a: char, b: Option<char>) -> (r: bool)
    ensures
        r == (match b {
            None => v@ == seq![a],
            Some(b) => v@ == seq![a, b],
        }),
{
    match b {
        None => {
            let r = v.len() == 1 && v[0] == a;
            proof {
                if !r && v@ == seq![a] {
                    assert(v@.len() == 1 && v@[0] == a);
                }
                if r {
                    assert(v@ =~= seq![a]);
                }
            }
            r
        },
        Some(b) => {
            let r = v.len() == 2 && v[0] == a && v[1] == b;
            proof {
                if !r && v@ == seq![a, b] {
                    assert(v@.len() == 2 && v@[0] == a && v@[1] == b);
                }
                if r {
                    assert(v@ =~= seq![a, b]);
                }
            }
            r
        },
    }
}

fn resolve_exec(stack: &mut Vec<Vec<char>>, seg: Vec<char>)
    ensures
        final(stack)@.map_values(|x: Vec<char>| x@) == resolve(
            old(stack)@.map_values(|x: Vec<char>| x@),
            seg@,
        ),
{
    let ghost before = stack@.map_values(|x: Vec<char>| x@);
    let is_dot = seq_is(&seg, '.', None);
    let is_dotdot = seq_is(&seg, '.', Some('.'));
    if seg.len() == 0 || is_dot {
    } else if is_dotdot {
        if stack.len() > 0 {
            stack.pop();
            assert(stack@.map_values(|x: Vec<char>| x@) =~= before.drop_last());
        }
    } else {
        stack.push(seg);
        assert(stack@.map_values(|x: Vec<char>| x@) =~= before.push(seg@));
    }
}

/// The resolved names of a path, as characters.
pub(crate) fn normal_names_of(p: &Vec<char>) -> (r: Vec<Vec<char>>)
    ensures
        r@.map_values(|x: Vec<char>| x@) == normal_names(p@),
{
    let mut stack: Vec<Vec<char>> = Vec::new();
    let mut cur: Vec<char> = Vec::new();
    let mut i: usize = 0;
    while i < p.len()
        invariant
            i <= p.len(),
            stack@.map_values(|x: Vec<char>| x@) == resolve_all(split_acc(p@.take(i as int)).0),
            cur@ == split_acc(p@.take(i as int)).1,
        decreases p.len() - i,
    {
        assert(p@.take(i + 1).drop_last() =~= p@.take(i as int));
        let c = p[i];
        if c == '/' {
            let seg = cur;
            cur = Vec::new();
            proof {
                let d = split_acc(p@.take(i as int)).0;
                assert(d.push(seg@).drop_last() =~= d);
            }
            resolve_exec(&mut stack, seg);
        } else {
            cur.push(c);
        }
        i += 1;
    }
    assert(p@.take(p.len() as int) =~= p@);
    proof {
        let d = split_acc(p@).0;
        assert(d.push(cur@).drop_last() =~= d);
    }
    resolve_exec(&mut stack, cur);
    stack
}

/// A rooted or relative path made of `names`.
fn render_exec(rooted: bool, names: &Vec<Vec<char>>) -> (r: Vec<char>)
    ensures
        r@ == render(rooted, names@.map_values(|x: Vec<char>| x@)),
{
    let ghost ns = names@.map_values(|x: Vec<char>| x@);
    let mut out: Vec<char> = Vec::new();
    if rooted {
        out.push('/');
    }
    let ghost lead = out@;
    let mut k: usize = 0;
    while k < names.len()
        invariant
            k <= names.len(),
            ns == names@.map_values(|x: Vec<char>| x@),
            out@ == lead + joined(ns.take(k as int)),
        decreases names.len() - k,
    {
        let ghost before = out@;
        if k > 0 {
            out.push('/');
        }
        let name = &names[k];
        let mut j: usize = 0;
        let ghost mid = out@;
        while j < name.len()
            invariant
                j <= name.len(),
                out@ == mid + name@.take(j as int),
            decreases name.len() - j,
        {
            out.push(name[j]);
            assert(name@.take(j + 1) =~= name@.take(j as int).push(name@[j as int]));
            j += 1;
        }
        assert(name@.take(name.len() as int) =~= name@);
        assert(ns.take(k + 1).drop_last() =~= ns.take(k as int));
        assert(ns[k as int] == name@);
        if k == 0 {
            assert(ns.take(1) =~= seq![name@]);
            assert(out@ =~= lead + joined(ns.take(k + 1)));
        } else {
            assert(out@ =~= lead + joined(ns.take(k + 1)));
        }
        k += 1;
    }
    assert(ns.take(names.len() as int) =~= ns);
    if rooted {
        assert(lead =~= seq!['/']);
    } else {
        assert(lead =~= Seq::<char>::empty());
        assert(out@ =~= joined(ns));
    }
    out
}

/// `path` with `.` and `..` resolved lexically, without touching the filesystem.
/// A `..` that would climb above the start is dropped.
pub fn normalize(path: &str) -> (r: String)
    ensures
        r@ == spec_normalize(path@),
{
    let p = chars_of(path);
    let names = normal_names_of(&p);
    let rooted = p.len() > 0 && p[0] == '/';
    string_of(&render_exec(rooted, &names))
}

fn keep_exec(stack: &mut Vec<Vec<char>>, seg: Vec<char>)
    ensures
        views(final(stack)@) == (if seg@.len() == 0 || seg@ == dot() {
            views(old(stack)@)
        } else {
            views(old(stack)@).push(seg@)
        }),
{
    let ghost before = views(stack@);
    let is_dot = seq_is(&seg, '.', None);
    if seg.len() == 0 || is_dot {
    } else {
        stack.push(seg);
        assert(views(stack@) =~= before.push(seg@));
    }
}

/// The components of a path after its root, as the standard library lists them.
pub(crate) fn components_of(p: &Vec<char>) -> (r: Vec<Vec<char>>)
    ensures
        views(r@) == components(p@),
{
    let mut stack: Vec<Vec<char>> = Vec::new();
    let mut cur: Vec<char> = Vec::new();
    let mut i: usize = 0;
    while i < p.len()
        invariant
            i <= p.len(),
            views(stack@) == keep_names(split_acc(p@.take(i as int)).0),
            cur@ == split_acc(p@.take(i as int)).1,
        decreases p.len() - i,
    {
        assert(p@.take(i + 1).drop_last() =~= p@.take(i as int));
        let c = p[i];
        if c == '/' {
            let seg = cur;
            cur = Vec::new();
            proof {
                let d = split_acc(p@.take(i as int)).0;
                assert(d.push(seg@).drop_last() =~= d);
            }
            keep_exec(&mut stack, seg);
        } else {
            cur.push(c);
        }
        i += 1;
    }
    assert(p@.take(p.len() as int) =~= p@);
    proof {
        let d = split_acc(p@).0;
        assert(d.push(cur@).drop_last() =~= d);
    }
    keep_exec(&mut stack, cur);
    stack
}

fn chars_eq(a: &Vec<char>, b: &Vec<char>) -> (r: bool)
    ensures
        r == (a@ == b@),
{
    if a.len() != b.len() {
        return false;
    }
    let mut k: usize = 0;
    while k < a.len()
        invariant
            k <= a.len() == b.len(),
            forall|j: int| 0 <= j < k ==> a@[j] == b@[j],
        decreases a.len() - k,
    {
        if a[k] != b[k] {
            return false;
        }
        k += 1;
    }
    assert(a@ =~= b@);
    true
}

/// Whether the names `a` begin the names `b`.
pub(crate) fn names_prefix(a: &Vec<Vec<char>>, b: &Vec<Vec<char>>) -> (r: bool)
    ensures
        r == views(a@).is_prefix_of(views(b@)),
{
    if a.len() > b.len() {
        return false;
    }
    let mut k: usize = 0;
    while k < a.len()
        invariant
            k <= a.len() <= b.len(),
            forall|j: int| 0 <= j < k ==> views(a@)[j] == views(b@)[j],
        decreases a.len() - k,
    {
        if !chars_eq(&a[k], &b[k]) {
            assert(views(a@)[k as int] != views(b@)[k as int]);
            return false;
        }
        k += 1;
    }
    true
}

} // verus!
