//! Vetting what an archive would write before and after it is unpacked: member
//! names that escape the extraction folder, links that point outside it, and
//! what a listing says about encryption.

use vstd::prelude::*;

use crate::paths::{
    components, is_absolute, normal_names, spec_join, spec_parent, trim_seps, join_chars,
    parent_chars,
};
use crate::text::{
    chars_of, has_prefix, lines_of, skip_ws_front, slice_chars, spec_lines, string_of, trim_start,
    views,
};

verus! {

/// `\` read as a separator too, so Windows-style names are judged like unix ones.
pub open spec fn unify_seps(s: Seq<char>) -> Seq<char> {
    s.map_values(|c: char| if c == '\\' { '/' } else { c })
}

/// Whether a `..` component of `s` starts at `i`.
pub open spec fn dotdot_at(s: Seq<char>, i: int) -> bool {
    0 <= i && i + 2 <= s.len() && s[i] == '.' && s[i + 1] == '.' && (i == 0 || s[i - 1] == '/')
        && (i + 2 == s.len() || s[i + 2] == '/')
}

/// Whether `s` has a `..` component.
pub open spec fn has_dotdot(s: Seq<char>) -> bool {
    exists|i: int| dotdot_at(s, i)
}

pub open spec fn is_ascii_alpha(c: char) -> bool {
    ('a' <= c && c <= 'z') || ('A' <= c && c <= 'Z')
}

/// Whether a member named `p` would land outside the extraction folder: an
/// absolute name (a leading `/` or a drive such as `C:`) or one with a `..` component.
pub open spec fn spec_unsafe_member(p: Seq<char>) -> bool {
    let n = unify_seps(p);
    (n.len() > 0 && n[0] == '/') || (n.len() >= 2 && is_ascii_alpha(n[0]) && n[1] == ':')
        || has_dotdot(n)
}

fn has_dotdot_exec(s: &Vec<char>) -> (r: bool)
    ensures
        r == has_dotdot(s@),
{
    let mut i: usize = 0;
    while i < s.len() && s.len() - i >= 2
        invariant
            i <= s.len(),
            forall|j: int| 0 <= j < i ==> !#[trigger] dotdot_at(s@, j),
        decreases s.len() - i,
    {
        if s[i] == '.' && s[i + 1] == '.' && (i == 0 || s[i - 1] == '/') && (i + 2 == s.len()
            || s[i + 2] == '/') {
            assert(dotdot_at(s@, i as int));
            return true;
        }
        i += 1;
    }
    assert forall|j: int| !#[trigger] dotdot_at(s@, j) by {
        if j >= i && dotdot_at(s@, j) {
            assert(j + 2 <= s@.len());
        }
    }
    false
}

fn unsafe_member_chars(p: &Vec<char>) -> (r: bool)
    ensures
        r == spec_unsafe_member(p@),
{
    let mut n: Vec<char> = Vec::new();
    let mut k: usize = 0;
    while k < p.len()
        invariant
            k <= p.len(),
            n@ == unify_seps(p@.take(k as int)),
        decreases p.len() - k,
    {
        let c = p[k];
        n.push(if c == '\\' { '/' } else { c });
        assert(unify_seps(p@.take(k + 1)) =~= unify_seps(p@.take(k as int)).push(
            if c == '\\' { '/' } else { c },
        ));
        k += 1;
    }
    assert(p@.take(p.len() as int) =~= p@);
    let drive = n.len() >= 2 && (('a' <= n[0] && n[0] <= 'z') || ('A' <= n[0] && n[0] <= 'Z'))
        && n[1] == ':';
    (n.len() > 0 && n[0] == '/') || drive || has_dotdot_exec(&n)
}

/// Whether a member named `path` would be written outside the extraction
/// folder: an absolute path (unix `/`, or a Windows drive such as `C:`) or one
/// with a `..` component, counting both `/` and `\` as separators.
pub fn is_unsafe_member(path: &str) -> (r: bool)
    ensures
        r == spec_unsafe_member(path@),
{
    unsafe_member_chars(&chars_of(path))
}

pub open spec fn divider() -> Seq<char> {
    "----------"@
}

pub open spec fn path_tag() -> Seq<char> {
    "Path = "@
}

/// Scans the lines of a `7z l -slt` listing: the first unsafe `Path = ` entry
/// after the first divider line.
pub open spec fn scan_members(ls: Seq<Seq<char>>, in_members: bool) -> Option<Seq<char>>
    decreases ls.len(),
{
    if ls.len() == 0 {
        None
    } else if divider().is_prefix_of(ls[0]) {
        scan_members(ls.drop_first(), true)
    } else if in_members && path_tag().is_prefix_of(ls[0]) && spec_unsafe_member(
        ls[0].skip(path_tag().len() as int),
    ) {
        Some(ls[0].skip(path_tag().len() as int))
    } else {
        scan_members(ls.drop_first(), in_members)
    }
}

/// The first member of a `7z l -slt` listing that is unsafe to extract. The
/// archive's own path, in the header before the `----------` divider, is not
/// a member and is never reported.
pub fn first_unsafe_member(listing: &str) -> (r: Option<String>)
    ensures
        match r {
            None => scan_members(spec_lines(listing@), false) is None,
            Some(m) => scan_members(spec_lines(listing@), false) == Some(m@),
        },
{
    let lines = lines_of(&chars_of(listing));
    let dashes = chars_of("----------");
    let tag = chars_of("Path = ");
    let ghost ls = views(lines@);
    let mut in_members = false;
    let mut i: usize = 0;
    assert(ls.skip(0) =~= ls);
    while i < lines.len()
        invariant
            i <= lines.len(),
            ls == views(lines@),
            ls == spec_lines(listing@),
            dashes@ == divider(),
            tag@ == path_tag(),
            scan_members(ls, false) == scan_members(ls.skip(i as int), in_members),
        decreases lines.len() - i,
    {
        let line = &lines[i];
        assert(ls.skip(i as int)[0] == line@);
        assert(ls.skip(i as int).drop_first() =~= ls.skip(i + 1));
        if has_prefix(line, &dashes) {
            in_members = true;
        } else if in_members && has_prefix(line, &tag) {
            let rest = slice_chars(line, tag.len(), line.len());
            assert(rest@ =~= line@.skip(path_tag().len() as int));
            if unsafe_member_chars(&rest) {
                assert(!divider().is_prefix_of(line@));
                assert(scan_members(ls.skip(i as int), in_members) == Some(rest@));
                return Some(string_of(&rest));
            }
        }
        i += 1;
    }
    assert(ls.skip(lines.len() as int) =~= Seq::<Seq<char>>::empty());
    None
}

/// Whether any name in a `tar -t` listing (trailing `/` ignored) is absolute or
/// has a `..` component.
pub open spec fn spec_tar_listing_unsafe(listing: Seq<char>) -> bool {
    exists|i: int|
        0 <= i < spec_lines(listing).len() && {
            let m = trim_seps(#[trigger] spec_lines(listing)[i]);
            (m.len() > 0 && m[0] == '/') || has_dotdot(m)
        }
}

/// Whether a `tar -t` listing names a member that would be written outside the
/// extraction folder.
pub fn tar_listing_unsafe(listing: &str) -> (r: bool)
    ensures
        r == spec_tar_listing_unsafe(listing@),
{
    let lines = lines_of(&chars_of(listing));
    let ghost ls = views(lines@);
    let mut i: usize = 0;
    while i < lines.len()
        invariant
            i <= lines.len(),
            ls == views(lines@),
            ls == spec_lines(listing@),
            forall|j: int|
                0 <= j < i ==> {
                    let m = trim_seps(#[trigger] ls[j]);
                    !((m.len() > 0 && m[0] == '/') || has_dotdot(m))
                },
        decreases lines.len() - i,
    {
        let line = &lines[i];
        let mut n = line.len();
        assert(line@.take(line.len() as int) =~= line@);
        while n > 0 && line[n - 1] == '/'
            invariant
                n <= line.len(),
                trim_seps(line@.take(n as int)) == trim_seps(line@),
            decreases n,
        {
            assert(line@.take(n as int).drop_last() =~= line@.take(n - 1));
            n -= 1;
        }
        assert(line@.take(line.len() as int) =~= line@);
        let m = slice_chars(line, 0, n);
        assert(m@ =~= line@.take(n as int));
        assert(trim_seps(m@) == m@);
        assert(ls[i as int] == line@);
        if (m.len() > 0 && m[0] == '/') || has_dotdot_exec(&m) {
            return true;
        }
        i += 1;
    }
    false
}

pub open spec fn encrypted_tag() -> Seq<char> {
    "Encrypted = +"@
}

/// Whether some line of a `7z l -slt` listing, leading whitespace aside, begins
/// with `Encrypted = +`.
pub open spec fn spec_listing_encrypted(listing: Seq<char>) -> bool {
    exists|i: int|
        0 <= i < spec_lines(listing).len() && encrypted_tag().is_prefix_of(
            trim_start(#[trigger] spec_lines(listing)[i]),
        )
}

/// Whether a `7z l -slt` listing reports any encrypted member.
pub fn listing_reports_encryption(listing: &str) -> (r: bool)
    ensures
        r == spec_listing_encrypted(listing@),
{
    let lines = lines_of(&chars_of(listing));
    let tag = chars_of("Encrypted = +");
    let ghost ls = views(lines@);
    let mut i: usize = 0;
    while i < lines.len()
        invariant
            i <= lines.len(),
            ls == views(lines@),
            ls == spec_lines(listing@),
            tag@ == encrypted_tag(),
            forall|j: int| 0 <= j < i ==> !encrypted_tag().is_prefix_of(trim_start(#[trigger] ls[j])),
        decreases lines.len() - i,
    {
        let line = &lines[i];
        let start = skip_ws_front(line, 0, line.len());
        let rest = slice_chars(line, start, line.len());
        assert(line@.subrange(0, line.len() as int) =~= line@);
        assert(ls[i as int] == line@);
        if has_prefix(&rest, &tag) {
            return true;
        }
        i += 1;
    }
    false
}

/// Whether a link at `link` with relative-or-absolute `target` resolves outside
/// `root`: an absolute target always does; a relative one is resolved
/// lexically against the link's folder.
pub open spec fn spec_symlink_escapes(link: Seq<char>, target: Seq<char>, root: Seq<char>) -> bool {
    if is_absolute(target) {
        true
    } else {
        let base = match spec_parent(link) {
            Some(b) => b,
            None => root,
        };
        let resolved = spec_join(base, target);
        !(is_absolute(resolved) == is_absolute(root) && components(root).is_prefix_of(
            normal_names(resolved),
        ))
    }
}

/// Whether the symbolic link at `link`, pointing at `target`, escapes `root`.
/// The filesystem is not consulted: the target may not exist.
pub fn symlink_escapes(link: &str, target: &str, root: &str) -> (r: bool)
    ensures
        r == spec_symlink_escapes(link@, target@, root@),
{
    let t = chars_of(target);
    if t.len() > 0 && t[0] == '/' {
        return true;
    }
    let rt = chars_of(root);
    let base = match parent_chars(&chars_of(link)) {
        Some(b) => b,
        None => rt.clone(),
    };
    let resolved = join_chars(&base, &t);
    let names = crate::paths::normal_names_of(&resolved);
    let root_names = crate::paths::components_of(&rt);
    let rooted = resolved.len() > 0 && resolved[0] == '/';
    let root_rooted = rt.len() > 0 && rt[0] == '/';
    !(rooted == root_rooted && crate::paths::names_prefix(&root_names, &names))
}

} // verus!
