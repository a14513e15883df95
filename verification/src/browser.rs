//! A small keyboard file browser: people pick a file or folder by arrowing
//! through a list, typing to filter it, or pasting a path, instead of typing
//! a path from memory. The folder's contents are handed in by the caller
//! whenever [`Browser::needs_listing`] says so.

use vstd::prelude::*;

use crate::order::{
    before, key_views, lemma_seq_lt_irreflexive, lemma_seq_lt_total, seq_lt, sort_entries, sorted, SortKey,
};
use crate::paths::{
    extension_chars, file_name_chars, join_chars, parent_chars, spec_extension, spec_file_name,
    spec_join, spec_parent,
};
use crate::text::{
    chars_equal, chars_of, contains_str, lower_chars, lower_seq, push_char, push_str, skip_ws_back,
    skip_ws_front, slice_chars, string_of, strs, to_lowercase, trim, unicode_lowercase, pop_char,
    clear_string,
};

verus! {

/// What kind of row a row is.
#[derive(Clone, Copy, Debug, PartialEq, Eq, Structural)]
pub enum RowKind {
    UseCurrent,
    Up,
    Dir,
    File,
}

/// What a row in the list represents.
#[derive(Debug)]
pub enum Row {
    /// "Lock this whole folder": only shown when picking something to encrypt.
    UseCurrent,
    /// Go up to the parent folder.
    Up,
    Dir(String),
    File(String),
}

impl View for Row {
    type V = (RowKind, Seq<char>);

    open spec fn view(&self) -> (RowKind, Seq<char>) {
        match self {
            Row::UseCurrent => (RowKind::UseCurrent, Seq::empty()),
            Row::Up => (RowKind::Up, Seq::empty()),
            Row::Dir(p) => (RowKind::Dir, p@),
            Row::File(p) => (RowKind::File, p@),
        }
    }
}

/// The result of pressing Enter on the highlighted row.
pub enum Action {
    /// Moved into another folder (the browser handled it).
    Browsed,
    /// The user chose this path as their file, folder or archive.
    Chosen(String),
    /// Nothing to act on (for example an empty folder).
    Nothing,
}

/// One entry of a folder, as read from the filesystem.
pub struct Entry {
    pub name: String,
    pub is_dir: bool,
}

/// What a typed path turned out to be on disk.
#[derive(Clone, Copy, Debug, PartialEq, Eq, Structural)]
pub enum PathKind {
    Dir,
    File,
    /// Missing, or neither a folder nor a file.
    Other,
}

pub open spec fn row_views(v: Seq<Row>) -> Seq<(RowKind, Seq<char>)> {
    v.map_values(|r: Row| r@)
}

fn row_copy(r: &Row) -> (c: Row)
    ensures
        c@ == r@,
{
    match r {
        Row::UseCurrent => Row::UseCurrent,
        Row::Up => Row::Up,
        Row::Dir(p) => Row::Dir(p.clone()),
        Row::File(p) => Row::File(p.clone()),
    }
}

/// How a path is named in the list: its file name, or the whole path when it has none.
pub open spec fn display_name(p: Seq<char>) -> Seq<char> {
    match spec_file_name(p) {
        Some(n) => n,
        None => p,
    }
}

fn display_name_chars(p: &Vec<char>) -> (r: Vec<char>)
    ensures
        r@ == display_name(p@),
{
    match file_name_chars(p) {
        Some(n) => n,
        None => p.clone(),
    }
}

pub open spec fn is_word_sep(c: char) -> bool {
    c == '.' || c == '-' || c == '_' || c == ' ' || c == '/'
}

pub open spec fn cap(x: int) -> int {
    if x > 0x7fff_ffff {
        0x7fff_ffff
    } else {
        x
    }
}

/// Scoring of the lower-cased `n[ni..]` against `h[hi..]`: each needle
/// character is matched by the next equal character of `h`; a match scores 1,
/// 3 more right after another match, and 2 more at the start of `h` or after
/// a separator (`.`, `-`, `_`, space, `/`).
pub open spec fn fuzzy_from(n: Seq<char>, h: Seq<char>, ni: int, hi: int, score: int, prev: bool) -> Option<int>
    decreases h.len() - hi,
{
    if ni >= n.len() {
        Some(score)
    } else if hi < 0 || hi >= h.len() {
        None
    } else if h[hi] == n[ni] {
        fuzzy_from(
            n,
            h,
            ni + 1,
            hi + 1,
            cap(score + 1 + (if prev { 3int } else { 0int }) + (if hi == 0 || is_word_sep(h[hi - 1]) {
                2int
            } else {
                0int
            })),
            true,
        )
    } else {
        fuzzy_from(n, h, ni, hi + 1, score, false)
    }
}

/// How well `haystack` matches `needle` as a case-insensitive subsequence;
/// `None` when it does not.
pub open spec fn spec_fuzzy_score(needle: Seq<char>, haystack: Seq<char>) -> Option<int> {
    fuzzy_from(unicode_lowercase(needle), unicode_lowercase(haystack), 0, 0, 0, false)
}

/// Score `haystack` against `needle` as a case-insensitive subsequence: every
/// character of `needle` must appear in order. Consecutive matches and matches
/// at a word boundary score higher, so `rep` ranks `report` above `xrxexp`.
/// `None` means no match. (Scores stop growing at `i32::MAX`.)
pub fn fuzzy_score(needle: &str, haystack: &str) -> (r: Option<i32>)
    ensures
        match r {
            None => spec_fuzzy_score(needle@, haystack@) is None,
            Some(s) => spec_fuzzy_score(needle@, haystack@) == Some(s as int),
        },
{
    lowered_fuzzy_score(to_lowercase(needle).as_str(), to_lowercase(haystack).as_str())
}

/// [`fuzzy_score`] once both sides are in lower case: `needle` matched, in
/// order and exactly, against `haystack`.
pub fn lowered_fuzzy_score(needle: &str, haystack: &str) -> (r: Option<i32>)
    ensures
        match r {
            None => fuzzy_from(needle@, haystack@, 0, 0, 0, false) is None,
            Some(s) => fuzzy_from(needle@, haystack@, 0, 0, 0, false) == Some(s as int),
        },
{
    let n = chars_of(needle);
    let h = chars_of(haystack);
    let ghost nn = n@;
    let ghost hh = h@;
    let mut score: i32 = 0;
    let mut ni: usize = 0;
    let mut prev = false;
    let mut hi: usize = 0;
    while hi < h.len() && ni < n.len()
        invariant
            hi <= h.len(),
            ni <= n.len(),
            nn == n@,
            hh == h@,
            fuzzy_from(nn, hh, 0, 0, 0, false) == fuzzy_from(nn, hh, ni as int, hi as int, score as int, prev),
            score >= 0,
        decreases h.len() - hi,
    {
        if h[hi] == n[ni] {
            let boundary = hi == 0 || {
                let c = h[hi - 1];
                c == '.' || c == '-' || c == '_' || c == ' ' || c == '/'
            };
            let add: i32 = 1 + if prev {
                3
            } else {
                0
            } + if boundary {
                2
            } else {
                0
            };
            score = if score > 0x7fff_ffff - add {
                0x7fff_ffff
            } else {
                score + add
            };
            ni += 1;
            prev = true;
        } else {
            prev = false;
        }
        hi += 1;
    }
    if ni >= n.len() {
        Some(score)
    } else {
        None
    }
}

/// `a` is a subsequence of `b`.
pub open spec fn subsequence(a: Seq<char>, b: Seq<char>) -> bool
    decreases b.len(),
{
    if a.len() == 0 {
        true
    } else if b.len() == 0 {
        false
    } else if a[0] == b[0] {
        subsequence(a.drop_first(), b.drop_first())
    } else {
        subsequence(a, b.drop_first())
    }
}

proof fn lemma_fuzzy_from_subsequence(n: Seq<char>, h: Seq<char>, ni: int, hi: int, score: int, prev: bool)
    requires
        0 <= ni <= n.len(),
        0 <= hi <= h.len(),
    ensures
        fuzzy_from(n, h, ni, hi, score, prev) is Some <==> subsequence(n.skip(ni), h.skip(hi)),
    decreases h.len() - hi,
{
    if ni >= n.len() {
    } else if hi >= h.len() {
    } else {
        assert(n.skip(ni)[0] == n[ni]);
        assert(h.skip(hi)[0] == h[hi]);
        assert(n.skip(ni).drop_first() =~= n.skip(ni + 1));
        assert(h.skip(hi).drop_first() =~= h.skip(hi + 1));
        let s2 = cap(score + 1 + (if prev { 3int } else { 0int }) + (if hi == 0 || is_word_sep(h[hi - 1]) {
            2int
        } else {
            0int
        }));
        lemma_fuzzy_from_subsequence(n, h, ni + 1, hi + 1, s2, true);
        lemma_fuzzy_from_subsequence(n, h, ni, hi + 1, score, false);
    }
}

/// A name matches a filter exactly when the filter, in lower case, is a
/// subsequence of the name in lower case.
pub proof fn lemma_fuzzy_matches_subsequences(needle: Seq<char>, haystack: Seq<char>)
    ensures
        spec_fuzzy_score(needle, haystack) is Some <==> subsequence(
            unicode_lowercase(needle),
            unicode_lowercase(haystack),
        ),
{
    let n = unicode_lowercase(needle);
    let h = unicode_lowercase(haystack);
    lemma_fuzzy_from_subsequence(n, h, 0, 0, 0, false);
    assert(n.skip(0) =~= n);
    assert(h.skip(0) =~= h);
}

/// Whether a file passes the extension filter `only` (`None` lets everything through).
pub open spec fn allowed(only: Option<Seq<Seq<char>>>, path: Seq<char>) -> bool {
    match only {
        None => true,
        Some(exts) => match spec_extension(path) {
            Some(e) => exts.contains(lower_seq(e)),
            None => false,
        },
    }
}

pub open spec fn is_hidden(p: Seq<char>) -> bool {
    display_name(p).len() > 0 && display_name(p)[0] == '.'
}

/// The indices `i < n` for which `pred(i)` holds, in increasing order.
pub open spec fn select_indices(n: int, pred: spec_fn(int) -> bool) -> Seq<usize>
    decreases n,
{
    if n <= 0 {
        Seq::empty()
    } else if pred(n - 1) {
        select_indices(n - 1, pred).push((n - 1) as usize)
    } else {
        select_indices(n - 1, pred)
    }
}

pub open spec fn entry_path(cwd: Seq<char>, entries: Seq<(Seq<char>, bool)>, i: int) -> Seq<char> {
    spec_join(cwd, entries[i].0)
}

pub open spec fn lists_dir(cwd: Seq<char>, entries: Seq<(Seq<char>, bool)>, show_hidden: bool, i: int) -> bool {
    entries[i].1 && (show_hidden || !is_hidden(entry_path(cwd, entries, i)))
}

pub open spec fn lists_file(
    cwd: Seq<char>,
    entries: Seq<(Seq<char>, bool)>,
    show_hidden: bool,
    only: Option<Seq<Seq<char>>>,
    i: int,
) -> bool {
    !entries[i].1 && (show_hidden || !is_hidden(entry_path(cwd, entries, i))) && allowed(
        only,
        entry_path(cwd, entries, i),
    )
}

pub open spec fn dir_pred(cwd: Seq<char>, entries: Seq<(Seq<char>, bool)>, show_hidden: bool) -> spec_fn(int) -> bool {
    |i: int| lists_dir(cwd, entries, show_hidden, i)
}

pub open spec fn file_pred(
    cwd: Seq<char>,
    entries: Seq<(Seq<char>, bool)>,
    show_hidden: bool,
    only: Option<Seq<Seq<char>>>,
) -> spec_fn(int) -> bool {
    |i: int| lists_file(cwd, entries, show_hidden, only, i)
}

/// Entries are ordered by their name in lower case, ties kept in listing order.
pub open spec fn listing_keys(cwd: Seq<char>, entries: Seq<(Seq<char>, bool)>) -> Seq<(int, Seq<char>)> {
    Seq::new(
        entries.len(),
        |i: int| (0int, unicode_lowercase(display_name(entry_path(cwd, entries, i)))),
    )
}

/// The rows for a folder `cwd` holding `entries`, before any filter: "lock
/// this folder" (when encrypting), "up" (unless at the root), then the folders
/// and then the allowed files, each group by name in lower case. Dot-files are
/// left out unless `show_hidden`.
pub open spec fn listed_rows(
    cwd: Seq<char>,
    entries: Seq<(Seq<char>, bool)>,
    show_hidden: bool,
    only: Option<Seq<Seq<char>>>,
    rows: Seq<(RowKind, Seq<char>)>,
) -> bool {
    exists|dirs: Seq<usize>, files: Seq<usize>|
        {
            &&& dirs.to_multiset() == select_indices(
                entries.len() as int,
                dir_pred(cwd, entries, show_hidden),
            ).to_multiset()
            &&& files.to_multiset() == select_indices(
                entries.len() as int,
                file_pred(cwd, entries, show_hidden, only),
            ).to_multiset()
            &&& sorted(listing_keys(cwd, entries), dirs)
            &&& sorted(listing_keys(cwd, entries), files)
            &&& rows == (if only is None {
                seq![(RowKind::UseCurrent, Seq::<char>::empty())]
            } else {
                Seq::empty()
            }) + (if spec_parent(cwd) is Some {
                seq![(RowKind::Up, Seq::<char>::empty())]
            } else {
                Seq::empty()
            }) + dirs.map_values(|i: usize| (RowKind::Dir, entry_path(cwd, entries, i as int)))
                + files.map_values(|i: usize| (RowKind::File, entry_path(cwd, entries, i as int)))
        }
}

/// Where a listing's chosen index comes from: one of `entries` that `pred` keeps.
proof fn lemma_selected_from(n: int, pred: spec_fn(int) -> bool, chosen: Seq<usize>, j: int)
    requires
        n <= usize::MAX,
        chosen.to_multiset() == select_indices(n, pred).to_multiset(),
        0 <= j < chosen.len(),
    ensures
        0 <= chosen[j] < n,
        pred(chosen[j] as int),
{
    broadcast use vstd::seq_lib::group_to_multiset_ensures;

    lemma_select_indices(n, pred);
    let sel = select_indices(n, pred);
    assert(chosen.contains(chosen[j]));
    assert(chosen.to_multiset().count(chosen[j]) > 0);
    assert(sel.contains(chosen[j]));
    let k = choose|k: int| 0 <= k < sel.len() && sel[k] == chosen[j];
    assert(sel[k] == chosen[j]);
}

/// A listing shows dot-files only when they are asked for, only files with
/// an allowed extension when picking an archive, and "lock this whole folder"
/// only when locking.
pub proof fn lemma_listing_respects_its_filters(
    cwd: Seq<char>,
    entries: Seq<(Seq<char>, bool)>,
    show_hidden: bool,
    only: Option<Seq<Seq<char>>>,
    rows: Seq<(RowKind, Seq<char>)>,
)
    requires
        listed_rows(cwd, entries, show_hidden, only, rows),
        entries.len() <= usize::MAX,
    ensures
        forall|k: int|
            0 <= k < rows.len() && (#[trigger] rows[k].0 == RowKind::Dir || rows[k].0 == RowKind::File)
                ==> show_hidden || !is_hidden(rows[k].1),
        forall|k: int| 0 <= k < rows.len() && #[trigger] rows[k].0 == RowKind::File ==> allowed(only, rows[k].1),
        only is Some ==> forall|k: int| 0 <= k < rows.len() ==> #[trigger] rows[k].0 != RowKind::UseCurrent,
{
    let (dirs, files) = choose|dirs: Seq<usize>, files: Seq<usize>|
        {
            &&& dirs.to_multiset() == select_indices(
                entries.len() as int,
                dir_pred(cwd, entries, show_hidden),
            ).to_multiset()
            &&& files.to_multiset() == select_indices(
                entries.len() as int,
                file_pred(cwd, entries, show_hidden, only),
            ).to_multiset()
            &&& sorted(listing_keys(cwd, entries), dirs)
            &&& sorted(listing_keys(cwd, entries), files)
            &&& rows == (if only is None {
                seq![(RowKind::UseCurrent, Seq::<char>::empty())]
            } else {
                Seq::empty()
            }) + (if spec_parent(cwd) is Some {
                seq![(RowKind::Up, Seq::<char>::empty())]
            } else {
                Seq::empty()
            }) + dirs.map_values(|i: usize| (RowKind::Dir, entry_path(cwd, entries, i as int)))
                + files.map_values(|i: usize| (RowKind::File, entry_path(cwd, entries, i as int)))
        };
    let head = (if only is None {
        seq![(RowKind::UseCurrent, Seq::<char>::empty())]
    } else {
        Seq::empty()
    }) + (if spec_parent(cwd) is Some {
        seq![(RowKind::Up, Seq::<char>::empty())]
    } else {
        Seq::empty()
    });
    let dm = dirs.map_values(|i: usize| (RowKind::Dir, entry_path(cwd, entries, i as int)));
    let fm = files.map_values(|i: usize| (RowKind::File, entry_path(cwd, entries, i as int)));
    assert(rows == head + dm + fm);
    assert forall|k: int| 0 <= k < rows.len() implies {
        &&& (#[trigger] rows[k].0 == RowKind::Dir || rows[k].0 == RowKind::File) ==> show_hidden
            || !is_hidden(rows[k].1)
        &&& rows[k].0 == RowKind::File ==> allowed(only, rows[k].1)
        &&& only is Some ==> rows[k].0 != RowKind::UseCurrent
    } by {
        if k >= head.len() + dm.len() {
            let j = k - head.len() - dm.len();
            assert(rows[k] == fm[j]);
            lemma_selected_from(entries.len() as int, file_pred(cwd, entries, show_hidden, only), files, j);
        } else if k >= head.len() {
            let j = k - head.len();
            assert(rows[k] == dm[j]);
            lemma_selected_from(entries.len() as int, dir_pred(cwd, entries, show_hidden), dirs, j);
        } else {
            assert(rows[k] == head[k]);
        }
    }
}

/// Every index below `n` that `pred` keeps is selected, and so is in any
/// reordering of the selection.
proof fn lemma_chosen_has(n: int, pred: spec_fn(int) -> bool, chosen: Seq<usize>, i: int)
    requires
        0 <= i < n <= usize::MAX,
        pred(i),
        chosen.to_multiset() == select_indices(n, pred).to_multiset(),
    ensures
        exists|k: int| 0 <= k < chosen.len() && chosen[k] == i,
    decreases n,
{
    broadcast use vstd::seq_lib::group_to_multiset_ensures;

    lemma_select_has(n, pred, i);
    let sel = select_indices(n, pred);
    assert(sel.to_multiset().count(i as usize) > 0);
    assert(chosen.contains(i as usize));
}

proof fn lemma_select_has(n: int, pred: spec_fn(int) -> bool, i: int)
    requires
        0 <= i < n <= usize::MAX,
        pred(i),
    ensures
        select_indices(n, pred).contains(i as usize),
    decreases n,
{
    if i < n - 1 {
        lemma_select_has(n - 1, pred, i);
        let s0 = select_indices(n - 1, pred);
        let k = choose|k: int| 0 <= k < s0.len() && s0[k] == i as usize;
        if pred(n - 1) {
            assert(select_indices(n, pred)[k] == i as usize);
        }
    } else {
        let s = select_indices(n, pred);
        assert(s[s.len() - 1] == i as usize);
    }
}

/// A listing shows every folder and file that its filters let through,
/// every folder before any file, and within the folders and within the files
/// a name never comes after one that sorts after it once both are in lower
/// case: the order is by name without regard to case.
pub proof fn lemma_listing_in_name_order(
    cwd: Seq<char>,
    entries: Seq<(Seq<char>, bool)>,
    show_hidden: bool,
    only: Option<Seq<Seq<char>>>,
    rows: Seq<(RowKind, Seq<char>)>,
)
    requires
        listed_rows(cwd, entries, show_hidden, only, rows),
        entries.len() <= usize::MAX,
    ensures
        forall|k: int, l: int|
            0 <= k < l < rows.len() && #[trigger] rows[k].0 == RowKind::File && filterable(#[trigger] rows[l])
                ==> rows[l].0 == RowKind::File,
        forall|k: int, l: int|
            0 <= k < l < rows.len() && filterable(#[trigger] rows[k]) && #[trigger] rows[l].0 == rows[k].0 ==> !seq_lt(
                unicode_lowercase(display_name(rows[l].1)),
                unicode_lowercase(display_name(rows[k].1)),
            ),
        forall|i: int|
            0 <= i < entries.len() && #[trigger] lists_dir(cwd, entries, show_hidden, i) ==> exists|k: int|
                0 <= k < rows.len() && rows[k] == (RowKind::Dir, entry_path(cwd, entries, i)),
        forall|i: int|
            0 <= i < entries.len() && #[trigger] lists_file(cwd, entries, show_hidden, only, i) ==> exists|k: int|
                0 <= k < rows.len() && rows[k] == (RowKind::File, entry_path(cwd, entries, i)),
{
    let (dirs, files) = choose|dirs: Seq<usize>, files: Seq<usize>|
        {
            &&& dirs.to_multiset() == select_indices(
                entries.len() as int,
                dir_pred(cwd, entries, show_hidden),
            ).to_multiset()
            &&& files.to_multiset() == select_indices(
                entries.len() as int,
                file_pred(cwd, entries, show_hidden, only),
            ).to_multiset()
            &&& sorted(listing_keys(cwd, entries), dirs)
            &&& sorted(listing_keys(cwd, entries), files)
            &&& rows == (if only is None {
                seq![(RowKind::UseCurrent, Seq::<char>::empty())]
            } else {
                Seq::empty()
            }) + (if spec_parent(cwd) is Some {
                seq![(RowKind::Up, Seq::<char>::empty())]
            } else {
                Seq::empty()
            }) + dirs.map_values(|i: usize| (RowKind::Dir, entry_path(cwd, entries, i as int)))
                + files.map_values(|i: usize| (RowKind::File, entry_path(cwd, entries, i as int)))
        };
    let head = (if only is None {
        seq![(RowKind::UseCurrent, Seq::<char>::empty())]
    } else {
        Seq::empty()
    }) + (if spec_parent(cwd) is Some {
        seq![(RowKind::Up, Seq::<char>::empty())]
    } else {
        Seq::empty()
    });
    let keys = listing_keys(cwd, entries);
    let dm = dirs.map_values(|i: usize| (RowKind::Dir, entry_path(cwd, entries, i as int)));
    let fm = files.map_values(|i: usize| (RowKind::File, entry_path(cwd, entries, i as int)));
    assert(rows == head + dm + fm);
    let h = head.len() as int;
    let m = dm.len() as int;
    assert forall|k: int| 0 <= k < rows.len() implies (rows[k].0 == RowKind::Dir <==> h <= k < h + m) && (
    rows[k].0 == RowKind::File <==> h + m <= k) by {
        if k >= h + m {
            assert(rows[k] == fm[k - h - m]);
        } else if k >= h {
            assert(rows[k] == dm[k - h]);
        } else {
            assert(rows[k] == head[k]);
        }
    }
    assert forall|k: int, l: int|
        0 <= k < l < rows.len() && filterable(#[trigger] rows[k]) && #[trigger] rows[l].0 == rows[k].0 implies !seq_lt(
            unicode_lowercase(display_name(rows[l].1)),
            unicode_lowercase(display_name(rows[k].1)),
        ) by {
        let (order, base) = if rows[k].0 == RowKind::Dir {
            (dirs, h)
        } else {
            (files, h + m)
        };
        let a = k - base;
        let c = l - base;
        if rows[k].0 == RowKind::Dir {
            assert(rows[k] == dm[a]);
            assert(rows[l] == dm[c]);
            lemma_selected_from(entries.len() as int, dir_pred(cwd, entries, show_hidden), dirs, a);
            lemma_selected_from(entries.len() as int, dir_pred(cwd, entries, show_hidden), dirs, c);
        } else {
            assert(rows[k] == fm[a]);
            assert(rows[l] == fm[c]);
            lemma_selected_from(entries.len() as int, file_pred(cwd, entries, show_hidden, only), files, a);
            lemma_selected_from(entries.len() as int, file_pred(cwd, entries, show_hidden, only), files, c);
        }
        assert(before(keys, order[a] as int, order[c] as int));
        let ka = keys[order[a] as int].1;
        let kc = keys[order[c] as int].1;
        assert(ka == unicode_lowercase(display_name(rows[k].1)));
        assert(kc == unicode_lowercase(display_name(rows[l].1)));
        lemma_seq_lt_total(ka, kc);
        lemma_seq_lt_irreflexive(ka);
    }
    assert forall|i: int|
        0 <= i < entries.len() && #[trigger] lists_dir(cwd, entries, show_hidden, i) implies exists|k: int|
            0 <= k < rows.len() && rows[k] == (RowKind::Dir, entry_path(cwd, entries, i)) by {
        assert(dir_pred(cwd, entries, show_hidden)(i));
        lemma_chosen_has(entries.len() as int, dir_pred(cwd, entries, show_hidden), dirs, i);
        let j = choose|j: int| 0 <= j < dirs.len() && dirs[j] == i;
        assert(rows[h + j] == dm[j]);
    }
    assert forall|i: int|
        0 <= i < entries.len() && #[trigger] lists_file(cwd, entries, show_hidden, only, i) implies exists|k: int|
            0 <= k < rows.len() && rows[k] == (RowKind::File, entry_path(cwd, entries, i)) by {
        assert(file_pred(cwd, entries, show_hidden, only)(i));
        lemma_chosen_has(entries.len() as int, file_pred(cwd, entries, show_hidden, only), files, i);
        let j = choose|j: int| 0 <= j < files.len() && files[j] == i;
        assert(rows[h + m + j] == fm[j]);
    }
}

/// For a query that filters (not empty and not a path), the rows shown are
/// the folders and files that match it, each of them, and they come best
/// match first: a row's score is never below that of a row after it, and
/// rows of equal score are in order of name.
pub proof fn lemma_filter_shows_best_first(
    all: Seq<(RowKind, Seq<char>)>,
    q: Seq<char>,
    rows: Seq<(RowKind, Seq<char>)>,
)
    requires
        filtered_rows(all, q, rows),
        q.len() > 0,
        !is_path_query(q),
        all.len() <= usize::MAX,
    ensures
        forall|k: int| 0 <= k < rows.len() ==> #[trigger] spec_fuzzy_score(q, display_name(rows[k].1)) is Some,
        forall|k: int, l: int|
            0 <= k < l < rows.len() ==> #[trigger] spec_fuzzy_score(q, display_name(rows[k].1))->0
                >= #[trigger] spec_fuzzy_score(q, display_name(rows[l].1))->0,
        forall|k: int, l: int|
            0 <= k < l < rows.len() && #[trigger] spec_fuzzy_score(q, display_name(rows[k].1))
                == #[trigger] spec_fuzzy_score(q, display_name(rows[l].1)) ==> !seq_lt(
                display_name(rows[l].1),
                display_name(rows[k].1),
            ),
        forall|k: int| 0 <= k < rows.len() ==> filterable(#[trigger] rows[k]),
        forall|i: int|
            0 <= i < all.len() && filterable(all[i]) && #[trigger] spec_fuzzy_score(q, display_name(all[i].1)) is Some
                ==> exists|k: int| 0 <= k < rows.len() && rows[k] == all[i],
{
    let order = choose|order: Seq<usize>|
        {
            &&& order.to_multiset() == select_indices(all.len() as int, match_pred(all, q)).to_multiset()
            &&& sorted(match_keys(all, q), order)
            &&& rows == order.map_values(|i: usize| all[i as int])
        };
    let keys = match_keys(all, q);
    assert forall|k: int| 0 <= k < rows.len() implies #[trigger] spec_fuzzy_score(q, display_name(rows[k].1)) is Some
        && filterable(rows[k]) by {
        lemma_selected_from(all.len() as int, match_pred(all, q), order, k);
        assert(rows[k] == all[order[k] as int]);
    }
    assert forall|k: int, l: int|
        0 <= k < l < rows.len() && #[trigger] spec_fuzzy_score(q, display_name(rows[k].1))
            == #[trigger] spec_fuzzy_score(q, display_name(rows[l].1)) implies !seq_lt(
            display_name(rows[l].1),
            display_name(rows[k].1),
        ) by {
        lemma_selected_from(all.len() as int, match_pred(all, q), order, k);
        lemma_selected_from(all.len() as int, match_pred(all, q), order, l);
        assert(rows[k] == all[order[k] as int]);
        assert(rows[l] == all[order[l] as int]);
        assert(before(keys, order[k] as int, order[l] as int));
        lemma_seq_lt_total(display_name(rows[k].1), display_name(rows[l].1));
        lemma_seq_lt_irreflexive(display_name(rows[k].1));
    }
    assert forall|i: int|
        0 <= i < all.len() && filterable(all[i]) && #[trigger] spec_fuzzy_score(q, display_name(all[i].1)) is Some
            implies exists|k: int| 0 <= k < rows.len() && rows[k] == all[i] by {
        assert(match_pred(all, q)(i));
        lemma_chosen_has(all.len() as int, match_pred(all, q), order, i);
        let k = choose|k: int| 0 <= k < order.len() && order[k] == i;
        assert(rows[k] == all[i]);
    }
    assert forall|k: int, l: int|
        0 <= k < l < rows.len() implies #[trigger] spec_fuzzy_score(q, display_name(rows[k].1))->0
            >= #[trigger] spec_fuzzy_score(q, display_name(rows[l].1))->0 by {
        lemma_selected_from(all.len() as int, match_pred(all, q), order, k);
        lemma_selected_from(all.len() as int, match_pred(all, q), order, l);
        assert(rows[k] == all[order[k] as int]);
        assert(rows[l] == all[order[l] as int]);
        assert(before(keys, order[k] as int, order[l] as int));
    }
}

/// A query naming a path rather than a filter: it contains a separator or starts at home.
pub open spec fn is_path_query(q: Seq<char>) -> bool {
    (exists|i: int| 0 <= i < q.len() && q[i] == '/') || (q.len() > 0 && q[0] == '~')
}

pub open spec fn filterable(r: (RowKind, Seq<char>)) -> bool {
    r.0 == RowKind::Dir || r.0 == RowKind::File
}

/// The rows a plain query keeps: folders and files whose name matches it.
pub open spec fn matching(all: Seq<(RowKind, Seq<char>)>, q: Seq<char>, i: int) -> bool {
    filterable(all[i]) && spec_fuzzy_score(q, display_name(all[i].1)) is Some
}

pub open spec fn match_pred(all: Seq<(RowKind, Seq<char>)>, q: Seq<char>) -> spec_fn(int) -> bool {
    |i: int| matching(all, q, i)
}

/// Matches are ordered best score first, then by name, ties kept in list order.
pub open spec fn match_keys(all: Seq<(RowKind, Seq<char>)>, q: Seq<char>) -> Seq<(int, Seq<char>)> {
    Seq::new(
        all.len(),
        |i: int|
            (
                if matching(all, q, i) {
                    -(spec_fuzzy_score(q, display_name(all[i].1))->0)
                } else {
                    0
                },
                display_name(all[i].1),
            ),
    )
}

/// The rows shown for a query: everything for an empty or path-like query;
/// otherwise the matching folders and files, best first.
pub open spec fn filtered_rows(all: Seq<(RowKind, Seq<char>)>, q: Seq<char>, rows: Seq<(RowKind, Seq<char>)>) -> bool {
    if q.len() == 0 || is_path_query(q) {
        rows == all
    } else {
        exists|order: Seq<usize>|
            {
                &&& order.to_multiset() == select_indices(all.len() as int, match_pred(all, q)).to_multiset()
                &&& sorted(match_keys(all, q), order)
                &&& rows == order.map_values(|i: usize| all[i as int])
            }
    }
}

pub open spec fn entries_v(e: Seq<Entry>) -> Seq<(Seq<char>, bool)> {
    e.map_values(|x: Entry| (x.name@, x.is_dir))
}

pub open spec fn opt_strs(o: Option<Vec<String>>) -> Option<Seq<Seq<char>>> {
    match o {
        Some(v) => Some(strs(v@)),
        None => None,
    }
}

pub open spec fn opt_view(o: Option<String>) -> Option<Seq<char>> {
    match o {
        Some(s) => Some(s@),
        None => None,
    }
}

/// Where a typed path points: a leading `~` is the home folder (when known),
/// an absolute path stands, and anything else is taken relative to `base`.
pub open spec fn spec_expand(raw: Seq<char>, base: Seq<char>, home: Option<Seq<char>>) -> Seq<char> {
    let t = trim(raw);
    if t.len() > 0 && t[0] == '~' && home is Some {
        let rest = t.skip(1);
        let rest = if rest.len() > 0 && rest[0] == '/' {
            rest.skip(1)
        } else {
            rest
        };
        spec_join(home->0, rest)
    } else if t.len() > 0 && t[0] == '/' {
        t
    } else {
        spec_join(base, t)
    }
}

/// Resolve a typed path against `base`, expanding a leading `~` to `home`.
pub fn expand_path(raw: &str, base: &str, home: Option<&str>) -> (r: String)
    ensures
        r@ == spec_expand(
            raw@,
            base@,
            match home {
                Some(h) => Some(h@),
                None => None,
            },
        ),
{
    let v = chars_of(raw);
    let a = skip_ws_front(&v, 0, v.len());
    let b = skip_ws_back(&v, a, v.len());
    assert(v@.subrange(0, v.len() as int) =~= v@);
    let t = slice_chars(&v, a, b);
    if t.len() > 0 && t[0] == '~' && home.is_some() {
        let start: usize = if t.len() > 1 && t[1] == '/' {
            2
        } else {
            1
        };
        let rest = slice_chars(&t, start, t.len());
        proof {
            let r1 = t@.skip(1);
            if t@.len() > 1 && t@[1] == '/' {
                assert(r1.skip(1) =~= rest@);
            } else {
                assert(r1 =~= rest@);
            }
        }
        let h = chars_of(home.unwrap());
        return string_of(&join_chars(&h, &rest));
    }
    if t.len() > 0 && t[0] == '/' {
        return string_of(&t);
    }
    string_of(&join_chars(&chars_of(base), &t))
}

proof fn lemma_select_indices(n: int, pred: spec_fn(int) -> bool)
    requires
        n <= usize::MAX,
    ensures
        forall|k: int| 0 <= k < select_indices(n, pred).len() ==> #[trigger] select_indices(n, pred)[k] < n
            && pred(select_indices(n, pred)[k] as int) && select_indices(n, pred)[k] >= 0,
        select_indices(n, pred).no_duplicates(),
    decreases n,
{
    if n > 0 {
        lemma_select_indices(n - 1, pred);
        let s0 = select_indices(n - 1, pred);
        if pred(n - 1) {
            let s1 = s0.push((n - 1) as usize);
            assert(select_indices(n, pred) == s1);
            assert(((n - 1) as usize) as int == n - 1);
            assert forall|a: int, b: int| 0 <= a < s1.len() && 0 <= b < s1.len() && a != b implies s1[a] != s1[b] by {
                if a < s0.len() && b < s0.len() {
                    assert(s0[a] != s0[b]);
                } else if a < s0.len() {
                    assert(s0[a] < n - 1);
                } else {
                    assert(s0[b] < n - 1);
                }
            }
        }
    }
}

fn is_path_query_chars(q: &Vec<char>) -> (r: bool)
    ensures
        r == is_path_query(q@),
{
    let mut k: usize = 0;
    while k < q.len()
        invariant
            k <= q.len(),
            forall|j: int| 0 <= j < k ==> q@[j] != '/',
        decreases q.len() - k,
    {
        if q[k] == '/' {
            return true;
        }
        k += 1;
    }
    q.len() > 0 && q[0] == '~'
}

/// The extension filter passes `path`.
fn allowed_exec(only: &Option<Vec<String>>, path: &Vec<char>) -> (r: bool)
    ensures
        r == allowed(opt_strs(*only), path@),
{
    match only {
        None => true,
        Some(exts) => match extension_chars(path) {
            Some(e) => contains_str(exts, &lower_chars(&e)),
            None => false,
        },
    }
}

pub struct Browser {
    cwd: String,
    /// Everything listed for `cwd`; `rows` is this list narrowed by the query.
    all_rows: Vec<Row>,
    rows: Vec<Row>,
    selected: Option<usize>,
    /// A live filter, or a path being typed. Empty shows everything.
    query: String,
    /// When set, only folders and files with these extensions are listed (picking
    /// an archive to open); `None` lists everything and offers "lock this folder".
    only: Option<Vec<String>>,
    show_hidden: bool,
    home: Option<String>,
    /// The listing of `cwd` is out of date.
    stale: bool,
    /// Items of `cwd` marked to be locked together, in the order marked.
    marked: Vec<String>,
}

/// The text shown for a row of the folder `cwd`.
pub open spec fn row_label(cwd: Seq<char>, row: (RowKind, Seq<char>)) -> Seq<char> {
    match row.0 {
        RowKind::UseCurrent => "Lock this whole folder  ("@ + (match spec_file_name(cwd) {
            Some(n) => n,
            None => "/"@,
        }) + ")"@,
        RowKind::Up => "..  (up one level)"@,
        RowKind::Dir => display_name(row.1) + "/"@,
        RowKind::File => display_name(row.1),
    }
}

/// Everything but the highlight is as it was.
pub open spec fn same_but_selection(a: Browser, b: Browser) -> bool {
    &&& b.rows_v() == a.rows_v()
    &&& b.all_rows_v() == a.all_rows_v()
    &&& b.cwd_v() == a.cwd_v()
    &&& b.query_v() == a.query_v()
    &&& b.only_v() == a.only_v()
    &&& b.home_v() == a.home_v()
    &&& b.show_hidden_v() == a.show_hidden_v()
    &&& b.stale_v() == a.stale_v()
    &&& b.marked_v() == a.marked_v()
}

/// `b` is a new browser at `start`, with nothing listed yet.
pub open spec fn fresh_browser(
    b: Browser,
    start: Seq<char>,
    only: Option<Seq<Seq<char>>>,
    home: Option<Seq<char>>,
) -> bool {
    &&& b.cwd_v() == start
    &&& b.only_v() == only
    &&& b.home_v() == home
    &&& b.query_v() == Seq::<char>::empty()
    &&& b.rows_v() == Seq::<(RowKind, Seq<char>)>::empty()
    &&& b.all_rows_v() == Seq::<(RowKind, Seq<char>)>::empty()
    &&& b.selected_v() is None
    &&& !b.show_hidden_v()
    &&& b.stale_v()
    &&& b.marked_v() == Seq::<Seq<char>>::empty()
}

/// The highlight as a row number, the top when there is none.
pub open spec fn highlight(a: Browser) -> usize {
    match a.selected_v() {
        Some(i) => i,
        None => 0,
    }
}

/// The highlight moved up one row, from the top to the bottom.
pub open spec fn moved_up(a: Browser, b: Browser) -> bool {
    &&& b.selected_v() == Some(
        if highlight(a) == 0 {
            if a.rows_v().len() == 0 {
                0usize
            } else {
                (a.rows_v().len() - 1) as usize
            }
        } else {
            (highlight(a) - 1) as usize
        },
    )
    &&& same_but_selection(a, b)
}

/// The highlight moved down one row, from the bottom to the top.
pub open spec fn moved_down(a: Browser, b: Browser) -> bool {
    &&& b.selected_v() == Some(
        if highlight(a) + 1 >= a.rows_v().len() {
            0usize
        } else {
            (highlight(a) + 1) as usize
        },
    )
    &&& same_but_selection(a, b)
}

/// Only the folder (and whether its listing is needed) may differ.
pub open spec fn same_but_folder(a: Browser, b: Browser) -> bool {
    &&& b.rows_v() == a.rows_v()
    &&& b.all_rows_v() == a.all_rows_v()
    &&& b.selected_v() == a.selected_v()
    &&& b.query_v() == a.query_v()
    &&& b.only_v() == a.only_v()
    &&& b.home_v() == a.home_v()
    &&& b.show_hidden_v() == a.show_hidden_v()
}

/// The browser went to the parent folder, if there is one (dropping the
/// marks, which belong to a folder).
pub open spec fn went_up(a: Browser, b: Browser) -> bool {
    &&& match spec_parent(a.cwd_v()) {
        Some(p) => b.cwd_v() == p && b.stale_v() && b.marked_v() == Seq::<Seq<char>>::empty(),
        None => b.cwd_v() == a.cwd_v() && b.stale_v() == a.stale_v() && b.marked_v() == a.marked_v(),
    }
    &&& same_but_folder(a, b)
}

/// The browser entered the folder `dir`, dropping the marks.
pub open spec fn entered(a: Browser, b: Browser, dir: Seq<char>) -> bool {
    &&& b.cwd_v() == dir
    &&& b.stale_v()
    &&& b.marked_v() == Seq::<Seq<char>>::empty()
    &&& same_but_folder(a, b)
}

/// Dot-files were shown or hidden.
pub open spec fn hidden_toggled(a: Browser, b: Browser) -> bool {
    &&& b.show_hidden_v() == !a.show_hidden_v()
    &&& b.stale_v()
    &&& b.rows_v() == a.rows_v()
    &&& b.all_rows_v() == a.all_rows_v()
    &&& b.selected_v() == a.selected_v()
    &&& b.cwd_v() == a.cwd_v()
    &&& b.query_v() == a.query_v()
    &&& b.only_v() == a.only_v()
    &&& b.home_v() == a.home_v()
    &&& b.marked_v() == a.marked_v()
}

/// The first row is highlighted, if there is one.
pub open spec fn first_highlighted(b: Browser) -> bool {
    b.selected_v() == (if b.rows_v().len() == 0 {
        None
    } else {
        Some(0usize)
    })
}

/// The query became `q`, and the rows shown are the listing narrowed by it.
pub open spec fn refiltered(a: Browser, b: Browser, q: Seq<char>) -> bool {
    &&& b.query_v() == q
    &&& filtered_rows(a.all_rows_v(), q, b.rows_v())
    &&& first_highlighted(b)
    &&& b.all_rows_v() == a.all_rows_v()
    &&& b.cwd_v() == a.cwd_v()
    &&& b.only_v() == a.only_v()
    &&& b.home_v() == a.home_v()
    &&& b.show_hidden_v() == a.show_hidden_v()
    &&& b.stale_v() == a.stale_v()
    &&& b.marked_v() == a.marked_v()
}

/// The query lost its last character, if it had one.
pub open spec fn popped(q: Seq<char>) -> Seq<char> {
    if q.len() > 0 {
        q.drop_last()
    } else {
        q
    }
}

/// The query was emptied and the whole listing is shown again.
pub open spec fn query_cleared(a: Browser, b: Browser) -> bool {
    &&& b.query_v() == Seq::<char>::empty()
    &&& b.rows_v() == a.all_rows_v()
    &&& first_highlighted(b)
    &&& b.all_rows_v() == a.all_rows_v()
    &&& b.cwd_v() == a.cwd_v()
    &&& b.only_v() == a.only_v()
    &&& b.home_v() == a.home_v()
    &&& b.show_hidden_v() == a.show_hidden_v()
    &&& b.stale_v() == a.stale_v()
    &&& b.marked_v() == a.marked_v()
}

/// The browser jumped to the folder `dir` a typed path named, clearing the
/// query and the marks.
pub open spec fn jumped(a: Browser, b: Browser, dir: Seq<char>) -> bool {
    &&& b.cwd_v() == dir
    &&& b.marked_v() == Seq::<Seq<char>>::empty()
    &&& b.query_v() == Seq::<char>::empty()
    &&& b.stale_v()
    &&& b.rows_v() == a.rows_v()
    &&& b.all_rows_v() == a.all_rows_v()
    &&& b.selected_v() == a.selected_v()
    &&& b.only_v() == a.only_v()
    &&& b.home_v() == a.home_v()
    &&& b.show_hidden_v() == a.show_hidden_v()
}

/// `m` without the name `p`.
pub open spec fn without(m: Seq<Seq<char>>, p: Seq<char>) -> Seq<Seq<char>>
    decreases m.len(),
{
    if m.len() == 0 {
        m
    } else if m.last() == p {
        without(m.drop_last(), p)
    } else {
        without(m.drop_last(), p).push(m.last())
    }
}

/// The marks after Space: the highlighted folder or file is marked, or
/// unmarked when it was; nothing changes while picking an archive or on the
/// "lock this folder" and "up" rows.
pub open spec fn marks_after_toggle(a: Browser) -> Seq<Seq<char>> {
    match a.current_row() {
        Some((k, p)) => if a.only_v() is None && (k == RowKind::Dir || k == RowKind::File) {
            if a.marked_v().contains(p) {
                without(a.marked_v(), p)
            } else {
                a.marked_v().push(p)
            }
        } else {
            a.marked_v()
        },
        None => a.marked_v(),
    }
}

/// Only the marks changed, as [`marks_after_toggle`] says.
pub open spec fn mark_toggled(a: Browser, b: Browser) -> bool {
    &&& b.marked_v() == marks_after_toggle(a)
    &&& b.rows_v() == a.rows_v()
    &&& b.all_rows_v() == a.all_rows_v()
    &&& b.selected_v() == a.selected_v()
    &&& b.cwd_v() == a.cwd_v()
    &&& b.query_v() == a.query_v()
    &&& b.only_v() == a.only_v()
    &&& b.home_v() == a.home_v()
    &&& b.show_hidden_v() == a.show_hidden_v()
    &&& b.stale_v() == a.stale_v()
}

/// Where a path-like query in `a` points.
pub open spec fn query_target_of(a: Browser) -> Seq<char> {
    spec_expand(a.query_v(), a.cwd_v(), a.home_v())
}


/// Moving the highlight down and then up returns it to the row it was on.
pub proof fn lemma_up_undoes_down(a: Browser, b: Browser, c: Browser)
    requires
        moved_down(a, b),
        moved_up(b, c),
        a.selected_v() matches Some(i) && i < a.rows_v().len(),
    ensures
        c.selected_v() == a.selected_v(),
{
    a.lemma_rows_fit();
}

/// Moving the highlight up and then down returns it to the row it was on.
pub proof fn lemma_down_undoes_up(a: Browser, b: Browser, c: Browser)
    requires
        moved_up(a, b),
        moved_down(b, c),
        a.selected_v() matches Some(i) && i < a.rows_v().len(),
    ensures
        c.selected_v() == a.selected_v(),
{
    a.lemma_rows_fit();
}

/// Each browser of a run of query edits (typed or deleted characters, each
/// re-filtering) keeps the listing of the first.
proof fn lemma_edits_keep_listing(bs: Seq<Browser>, n: int)
    requires
        0 <= n < bs.len(),
        forall|i: int| 0 <= i < bs.len() - 1 ==> #[trigger] refiltered(bs[i], bs[i + 1], bs[i + 1].query_v()),
    ensures
        bs[n].all_rows_v() == bs[0].all_rows_v(),
    decreases n,
{
    if n > 0 {
        let k = n - 1;
        lemma_edits_keep_listing(bs, k);
        assert(refiltered(bs[k], bs[k + 1], bs[k + 1].query_v()));
        assert(k + 1 == n);
    }
}

/// Clearing the query restores the listing: after any run of query edits,
/// each re-filtering what the browser had read, emptying the query shows the
/// whole folder again, in the order it was listed, with the first row
/// highlighted; when the run began with an empty query, these are exactly
/// the rows shown before the first edit.
pub proof fn lemma_clearing_restores_listing(bs: Seq<Browser>, end: Browser)
    requires
        bs.len() > 0,
        forall|i: int| 0 <= i < bs.len() - 1 ==> #[trigger] refiltered(bs[i], bs[i + 1], bs[i + 1].query_v()),
        query_cleared(bs.last(), end),
    ensures
        end.rows_v() == bs[0].all_rows_v(),
        end.all_rows_v() == bs[0].all_rows_v(),
        end.query_v() == Seq::<char>::empty(),
        first_highlighted(end),
        bs[0].query_v().len() == 0 && filtered_rows(bs[0].all_rows_v(), bs[0].query_v(), bs[0].rows_v())
            ==> end.rows_v() == bs[0].rows_v(),
{
    lemma_edits_keep_listing(bs, bs.len() - 1);
}

impl Browser {
    pub closed spec fn cwd_v(&self) -> Seq<char> {
        self.cwd@
    }

    pub closed spec fn all_rows_v(&self) -> Seq<(RowKind, Seq<char>)> {
        row_views(self.all_rows@)
    }

    pub closed spec fn rows_v(&self) -> Seq<(RowKind, Seq<char>)> {
        row_views(self.rows@)
    }

    pub closed spec fn selected_v(&self) -> Option<usize> {
        self.selected
    }

    pub closed spec fn query_v(&self) -> Seq<char> {
        self.query@
    }

    pub closed spec fn only_v(&self) -> Option<Seq<Seq<char>>> {
        opt_strs(self.only)
    }

    pub closed spec fn show_hidden_v(&self) -> bool {
        self.show_hidden
    }

    pub closed spec fn home_v(&self) -> Option<Seq<char>> {
        opt_view(self.home)
    }

    pub closed spec fn stale_v(&self) -> bool {
        self.stale
    }

    pub closed spec fn marked_v(&self) -> Seq<Seq<char>> {
        strs(self.marked@)
    }

    /// The rows shown number no more than a `usize` counts.
    pub proof fn lemma_rows_fit(&self)
        ensures
            self.rows_v().len() <= usize::MAX,
    {
        assert(self.rows_v().len() == self.rows@.len());
        assert(self.rows.len() == self.rows@.len());
    }

    /// A browser at `start`. `only = None` picks something to encrypt;
    /// `Some(exts)` picks an existing archive with one of those extensions.
    /// Its listing is needed before it shows anything.
    pub fn new(start: String, only: Option<Vec<String>>, home: Option<String>) -> (r: Self)
        ensures
            fresh_browser(r, start@, opt_strs(only), opt_view(home)),
    {
        let r = Browser {
            cwd: start,
            all_rows: Vec::new(),
            rows: Vec::new(),
            selected: None,
            query: String::new(),
            only,
            show_hidden: false,
            home,
            stale: true,
            marked: Vec::new(),
        };
        assert(row_views(r.rows@) =~= Seq::<(RowKind, Seq<char>)>::empty());
        assert(row_views(r.all_rows@) =~= Seq::<(RowKind, Seq<char>)>::empty());
        assert(strs(r.marked@) =~= Seq::<Seq<char>>::empty());
        r
    }

    /// The folder being shown.
    pub fn cwd(&self) -> (r: &String)
        ensures
            r@ == self.cwd_v(),
    {
        &self.cwd
    }

    /// The rows being shown.
    pub fn rows(&self) -> (r: &Vec<Row>)
        ensures
            row_views(r@) == self.rows_v(),
    {
        &self.rows
    }

    /// The highlighted row.
    pub fn selected(&self) -> (r: Option<usize>)
        ensures
            r == self.selected_v(),
    {
        self.selected
    }

    /// Highlight a row.
    pub fn select(&mut self, i: Option<usize>)
        ensures
            final(self).selected_v() == i,
            same_but_selection(*old(self), *final(self)),
    {
        self.selected = i;
    }

    /// Whether the folder's contents must be read (and handed to [`Browser::load`]).
    pub fn needs_listing(&self) -> (r: bool)
        ensures
            r == self.stale_v(),
    {
        self.stale
    }

    /// Whether this browser is selecting an archive to open (rather than
    /// something to encrypt).
    pub fn picking_archive(&self) -> (r: bool)
        ensures
            r == (self.only_v() is Some),
    {
        self.only.is_some()
    }

    /// The live filter or typed path.
    pub fn query(&self) -> (r: &String)
        ensures
            r@ == self.query_v(),
    {
        &self.query
    }

    /// Whether the query names a path (it holds a `/` or starts with `~`)
    /// rather than a filter.
    pub fn is_path_query(&self) -> (r: bool)
        ensures
            r == is_path_query(self.query_v()),
    {
        is_path_query_chars(&chars_of(self.query.as_str()))
    }

    /// Add a character to the query and re-filter.
    pub fn push_query(&mut self, c: char)
        ensures
            refiltered(*old(self), *final(self), old(self).query_v().push(c)),
    {
        push_char(&mut self.query, c);
        self.apply_filter();
    }

    /// Remove the query's last character and re-filter.
    pub fn pop_query(&mut self)
        ensures
            refiltered(*old(self), *final(self), popped(old(self).query_v())),
    {
        pop_char(&mut self.query);
        self.apply_filter();
    }

    /// Empty the query, showing the whole folder again.
    pub fn clear_query(&mut self)
        ensures
            query_cleared(*old(self), *final(self)),
    {
        clear_string(&mut self.query);
        self.apply_filter();
    }

    /// Move the highlight up one row, from the top to the bottom.
    pub fn move_up(&mut self)
        ensures
            moved_up(*old(self), *final(self)),
    {
        let i = match self.selected {
            Some(i) => i,
            None => 0,
        };
        let next = if i == 0 {
            if self.rows.len() == 0 {
                0
            } else {
                self.rows.len() - 1
            }
        } else {
            i - 1
        };
        self.selected = Some(next);
    }

    /// Move the highlight down one row, from the bottom to the top.
    pub fn move_down(&mut self)
        ensures
            moved_down(*old(self), *final(self)),
    {
        let i = match self.selected {
            Some(i) => i,
            None => 0,
        };
        let next = if self.rows.len() == 0 || i >= self.rows.len() - 1 {
            0
        } else {
            i + 1
        };
        self.selected = Some(next);
    }

    /// Go to the parent folder (its listing is then needed).
    pub fn go_up(&mut self)
        ensures
            went_up(*old(self), *final(self)),
    {
        match parent_chars(&chars_of(self.cwd.as_str())) {
            Some(p) => {
                self.cwd = string_of(&p);
                self.stale = true;
                self.marked = Vec::new();
                assert(strs(self.marked@) =~= Seq::<Seq<char>>::empty());
            },
            None => {},
        }
    }

    /// Show or hide dot-files (the listing is then needed again).
    pub fn toggle_hidden(&mut self)
        ensures
            hidden_toggled(*old(self), *final(self)),
    {
        self.show_hidden = !self.show_hidden;
        self.stale = true;
    }

    /// The items marked to be locked together, in the order marked.
    pub fn marked(&self) -> (r: &Vec<String>)
        ensures
            strs(r@) == self.marked_v(),
    {
        &self.marked
    }

    /// Mark the highlighted folder or file to be locked with the others
    /// marked, or unmark it (Space). Nothing is marked while picking an archive.
    pub fn toggle_mark(&mut self)
        ensures
            mark_toggled(*old(self), *final(self)),
    {
        if self.only.is_some() {
            return;
        }
        let i = match self.selected {
            Some(i) => i,
            None => {
                return;
            },
        };
        if i >= self.rows.len() {
            return;
        }
        assert(self.rows_v()[i as int] == self.rows@[i as int]@);
        let p = match &self.rows[i] {
            Row::Dir(p) => p.clone(),
            Row::File(p) => p.clone(),
            _ => {
                return;
            },
        };
        let ghost m = strs(self.marked@);
        let mut kept: Vec<String> = Vec::new();
        let mut found = false;
        let mut k: usize = 0;
        while k < self.marked.len()
            invariant
                k <= self.marked.len(),
                m == strs(self.marked@),
                strs(kept@) == without(m.take(k as int), p@),
                found == m.take(k as int).contains(p@),
            decreases self.marked.len() - k,
        {
            let ghost t = m.take(k + 1);
            assert(t.drop_last() =~= m.take(k as int));
            assert(t.last() == self.marked@[k as int]@);
            if self.marked[k] == p {
                found = true;
                assert(t.contains(p@)) by {
                    assert(t[k as int] == p@);
                }
            } else {
                let ghost before = strs(kept@);
                kept.push(self.marked[k].clone());
                assert(strs(kept@) =~= before.push(self.marked@[k as int]@));
                assert(t.contains(p@) == m.take(k as int).contains(p@)) by {
                    if t.contains(p@) {
                        let j = choose|j: int| 0 <= j < t.len() && t[j] == p@;
                        if j < k {
                            assert(m.take(k as int)[j] == p@);
                        }
                    }
                    if m.take(k as int).contains(p@) {
                        let j = choose|j: int| 0 <= j < k && m.take(k as int)[j] == p@;
                        assert(t[j] == p@);
                    }
                }
            }
            k += 1;
        }
        assert(m.take(m.len() as int) =~= m);
        if found {
            self.marked = kept;
        } else {
            let ghost before = strs(self.marked@);
            self.marked.push(p);
            assert(strs(self.marked@) =~= before.push(p@));
        }
    }

    /// The text shown for `row`.
    pub fn label(&self, row: &Row) -> (r: String)
        ensures
            r@ == row_label(self.cwd_v(), row@),
    {
        match row {
            Row::UseCurrent => {
                let name = match file_name_chars(&chars_of(self.cwd.as_str())) {
                    Some(n) => n,
                    None => chars_of("/"),
                };
                let mut s = string_of(&chars_of("Lock this whole folder  ("));
                push_str(&mut s, string_of(&name).as_str());
                push_str(&mut s, ")");
                s
            },
            Row::Up => string_of(&chars_of("..  (up one level)")),
            Row::Dir(p) => {
                let mut s = string_of(&display_name_chars(&chars_of(p.as_str())));
                push_str(&mut s, "/");
                s
            },
            Row::File(p) => string_of(&display_name_chars(&chars_of(p.as_str()))),
        }
    }

    /// The highlighted row, when it exists.
    pub open spec fn current_row(&self) -> Option<(RowKind, Seq<char>)> {
        match self.selected_v() {
            Some(i) => if i < self.rows_v().len() {
                Some(self.rows_v()[i as int])
            } else {
                None
            },
            None => None,
        }
    }

    /// Act on the highlighted row: "lock this folder" and files are chosen;
    /// "up" and folders are entered (their listing is then needed).
    pub fn activate(&mut self) -> (r: Action)
        ensures
            match old(self).current_row() {
                None => r is Nothing && *final(self) == *old(self),
                Some((kind, p)) => match kind {
                    RowKind::UseCurrent => (match r {
                        Action::Chosen(c) => c@ == old(self).cwd_v(),
                        _ => false,
                    }) && *final(self) == *old(self),
                    RowKind::File => (match r {
                        Action::Chosen(c) => c@ == p,
                        _ => false,
                    }) && *final(self) == *old(self),
                    RowKind::Dir => r is Browsed && entered(*old(self), *final(self), p),
                    RowKind::Up => r is Browsed && went_up(*old(self), *final(self)),
                },
            },
    {
        let i = match self.selected {
            Some(i) => i,
            None => {
                return Action::Nothing;
            },
        };
        if i >= self.rows.len() {
            return Action::Nothing;
        }
        assert(self.rows_v()[i as int] == self.rows@[i as int]@);
        match &self.rows[i] {
            Row::UseCurrent => Action::Chosen(self.cwd.clone()),
            Row::Up => {
                self.go_up();
                Action::Browsed
            },
            Row::Dir(p) => {
                let p = p.clone();
                self.cwd = p;
                self.stale = true;
                self.marked = Vec::new();
                assert(strs(self.marked@) =~= Seq::<Seq<char>>::empty());
                Action::Browsed
            },
            Row::File(p) => Action::Chosen(p.clone()),
        }
    }

    /// Where a path-like query points: `~` is the home folder, and a relative
    /// path is taken from the folder being shown.
    pub fn query_target(&self) -> (r: String)
        ensures
            r@ == query_target_of(*self),
    {
        let home: Option<&str> = match &self.home {
            Some(h) => Some(h.as_str()),
            None => None,
        };
        expand_path(self.query.as_str(), self.cwd.as_str(), home)
    }

    /// Act on a path-like query, given what its target is on disk: a folder is
    /// entered (clearing the query; its listing is then needed), a file that
    /// passes the extension filter is chosen, and anything else does nothing.
    pub fn resolve_query(&mut self, target: PathKind) -> (r: Action)
        ensures
            ({
                let t = query_target_of(*old(self));
                if target == PathKind::Dir {
                    r is Browsed && jumped(*old(self), *final(self), t)
                } else if target == PathKind::File && allowed(old(self).only_v(), t) {
                    (match r {
                        Action::Chosen(c) => c@ == t,
                        _ => false,
                    }) && *final(self) == *old(self)
                } else {
                    r is Nothing && *final(self) == *old(self)
                }
            }),
    {
        let t = self.query_target();
        match target {
            PathKind::Dir => {
                self.cwd = t;
                clear_string(&mut self.query);
                self.stale = true;
                self.marked = Vec::new();
                assert(strs(self.marked@) =~= Seq::<Seq<char>>::empty());
                Action::Browsed
            },
            PathKind::File => {
                if allowed_exec(&self.only, &chars_of(t.as_str())) {
                    Action::Chosen(t)
                } else {
                    Action::Nothing
                }
            },
            PathKind::Other => Action::Nothing,
        }
    }

    /// Take in the contents of the folder being shown and rebuild the list
    /// (then narrowed by the current query, the first row highlighted).
    pub fn load(&mut self, entries: &Vec<Entry>)
        ensures
            listed_rows(
                old(self).cwd_v(),
                entries_v(entries@),
                old(self).show_hidden_v(),
                old(self).only_v(),
                final(self).all_rows_v(),
            ),
            filtered_rows(final(self).all_rows_v(), old(self).query_v(), final(self).rows_v()),
            first_highlighted(*final(self)),
            !final(self).stale_v(),
            final(self).marked_v() == old(self).marked_v(),
            final(self).cwd_v() == old(self).cwd_v(),
            final(self).query_v() == old(self).query_v(),
            final(self).only_v() == old(self).only_v(),
            final(self).home_v() == old(self).home_v(),
            final(self).show_hidden_v() == old(self).show_hidden_v(),
    {
        let ghost es = entries_v(entries@);
        let ghost cwd = self.cwd@;
        let ghost sh = self.show_hidden;
        let ghost only = opt_strs(self.only);
        let cw = chars_of(self.cwd.as_str());
        let mut keys: Vec<SortKey> = Vec::new();
        let mut paths: Vec<String> = Vec::new();
        let mut dirs: Vec<usize> = Vec::new();
        let mut files: Vec<usize> = Vec::new();
        let mut k: usize = 0;
        while k < entries.len()
            invariant
                k <= entries.len(),
                es == entries_v(entries@),
                cw@ == cwd,
                cwd == self.cwd@,
                sh == self.show_hidden,
                only == opt_strs(self.only),
                keys.len() == k,
                paths.len() == k,
                key_views(keys@) == listing_keys(cwd, es).take(k as int),
                forall|m: int| 0 <= m < k ==> #[trigger] paths@[m]@ == entry_path(cwd, es, m),
                dirs@ == select_indices(k as int, dir_pred(cwd, es, sh)),
                files@ == select_indices(k as int, file_pred(cwd, es, sh, only)),
            decreases entries.len() - k,
        {
            let e = &entries[k];
            assert(es[k as int] == (e.name@, e.is_dir));
            let path = join_chars(&cw, &chars_of(e.name.as_str()));
            let shown = display_name_chars(&path);
            let hidden = shown.len() > 0 && shown[0] == '.';
            let visible = self.show_hidden || !hidden;
            let key_name = chars_of(to_lowercase(string_of(&shown).as_str()).as_str());
            let ghost before = key_views(keys@);
            keys.push(SortKey { rank: 0, name: key_name });
            assert(listing_keys(cwd, es).take(k + 1) =~= listing_keys(cwd, es).take(k as int).push(
                listing_keys(cwd, es)[k as int],
            ));
            assert(key_views(keys@) =~= before.push((0int, key_name@)));
            if e.is_dir && visible {
                dirs.push(k);
            }
            if !e.is_dir && visible && allowed_exec(&self.only, &path) {
                files.push(k);
            }
            paths.push(string_of(&path));
            assert(dir_pred(cwd, es, sh)(k as int) == (e.is_dir && visible));
            k += 1;
        }
        assert(listing_keys(cwd, es).take(entries.len() as int) =~= listing_keys(cwd, es));
        proof {
            lemma_select_indices(entries.len() as int, dir_pred(cwd, es, sh));
            lemma_select_indices(entries.len() as int, file_pred(cwd, es, sh, only));
        }
        let dirs = sort_entries(&keys, dirs);
        let files = sort_entries(&keys, files);
        let mut rows: Vec<Row> = Vec::new();
        if self.only.is_none() {
            rows.push(Row::UseCurrent);
        }
        if parent_chars(&cw).is_some() {
            rows.push(Row::Up);
        }
        let ghost head = row_views(rows@);
        proof {
            assert(head =~= (if only is None {
                seq![(RowKind::UseCurrent, Seq::<char>::empty())]
            } else {
                Seq::empty()
            }) + (if spec_parent(cwd) is Some {
                seq![(RowKind::Up, Seq::<char>::empty())]
            } else {
                Seq::empty()
            }));
        }
        let mut j: usize = 0;
        while j < dirs.len()
            invariant
                j <= dirs.len(),
                forall|m: int| 0 <= m < dirs.len() ==> dirs@[m] < paths.len(),
                forall|m: int| 0 <= m < paths.len() ==> #[trigger] paths@[m]@ == entry_path(cwd, es, m),
                row_views(rows@) == head + dirs@.take(j as int).map_values(
                    |i: usize| (RowKind::Dir, entry_path(cwd, es, i as int)),
                ),
            decreases dirs.len() - j,
        {
            let ghost before = row_views(rows@);
            let x = dirs[j];
            rows.push(Row::Dir(paths[x].clone()));
            assert(dirs@.take(j + 1) =~= dirs@.take(j as int).push(x));
            assert(row_views(rows@) =~= before.push((RowKind::Dir, entry_path(cwd, es, x as int))));
            assert(row_views(rows@) =~= head + dirs@.take(j + 1).map_values(
                |i: usize| (RowKind::Dir, entry_path(cwd, es, i as int)),
            ));
            j += 1;
        }
        assert(dirs@.take(dirs.len() as int) =~= dirs@);
        let ghost mid = row_views(rows@);
        let mut j: usize = 0;
        while j < files.len()
            invariant
                j <= files.len(),
                forall|m: int| 0 <= m < files.len() ==> files@[m] < paths.len(),
                forall|m: int| 0 <= m < paths.len() ==> #[trigger] paths@[m]@ == entry_path(cwd, es, m),
                row_views(rows@) == mid + files@.take(j as int).map_values(
                    |i: usize| (RowKind::File, entry_path(cwd, es, i as int)),
                ),
            decreases files.len() - j,
        {
            let ghost before = row_views(rows@);
            let x = files[j];
            rows.push(Row::File(paths[x].clone()));
            assert(files@.take(j + 1) =~= files@.take(j as int).push(x));
            assert(row_views(rows@) =~= before.push((RowKind::File, entry_path(cwd, es, x as int))));
            assert(row_views(rows@) =~= mid + files@.take(j + 1).map_values(
                |i: usize| (RowKind::File, entry_path(cwd, es, i as int)),
            ));
            j += 1;
        }
        assert(files@.take(files.len() as int) =~= files@);
        assert(listed_rows(cwd, es, sh, only, row_views(rows@)));
        self.all_rows = rows;
        self.stale = false;
        self.apply_filter();
    }

    /// Narrow the full list to the rows the query keeps, highlighting the first.
    fn apply_filter(&mut self)
        ensures
            refiltered(*old(self), *final(self), old(self).query_v()),
    {
        let ghost all = row_views(self.all_rows@);
        let ghost q = self.query@;
        let qc = chars_of(self.query.as_str());
        let mut rows: Vec<Row> = Vec::new();
        if qc.len() == 0 || is_path_query_chars(&qc) {
            let mut k: usize = 0;
            while k < self.all_rows.len()
                invariant
                    k <= self.all_rows.len(),
                    all == row_views(self.all_rows@),
                    row_views(rows@) == all.take(k as int),
                decreases self.all_rows.len() - k,
            {
                let ghost before = row_views(rows@);
                rows.push(row_copy(&self.all_rows[k]));
                assert(row_views(rows@) =~= before.push(all[k as int]));
                assert(all.take(k + 1) =~= all.take(k as int).push(all[k as int]));
                k += 1;
            }
            assert(all.take(all.len() as int) =~= all);
        } else {
            let mut keys: Vec<SortKey> = Vec::new();
            let mut cand: Vec<usize> = Vec::new();
            let mut k: usize = 0;
            while k < self.all_rows.len()
                invariant
                    k <= self.all_rows.len(),
                    all == row_views(self.all_rows@),
                    q == self.query@,
                    keys.len() == k,
                    key_views(keys@) == match_keys(all, q).take(k as int),
                    cand@ == select_indices(k as int, match_pred(all, q)),
                decreases self.all_rows.len() - k,
            {
                let ghost before = key_views(keys@);
                let (rank, name, hit) = match &self.all_rows[k] {
                    Row::Dir(p) | Row::File(p) => {
                        let d = display_name_chars(&chars_of(p.as_str()));
                        match fuzzy_score(self.query.as_str(), string_of(&d).as_str()) {
                            Some(sc) => ((0 - (sc as i64)) as i64, d, true),
                            None => (0i64, d, false),
                        }
                    },
                    Row::UseCurrent | Row::Up => (0i64, Vec::new(), false),
                };
                proof {
                    assert(all[k as int] == self.all_rows@[k as int]@);
                    assert(matching(all, q, k as int) == hit);
                    assert(match_pred(all, q)(k as int) == hit);
                    if !filterable(all[k as int]) {
                        assert(name@ =~= display_name(all[k as int].1));
                    }
                }
                keys.push(SortKey { rank, name });
                if hit {
                    cand.push(k);
                }
                assert(match_keys(all, q).take(k + 1) =~= match_keys(all, q).take(k as int).push(
                    match_keys(all, q)[k as int],
                ));
                assert(key_views(keys@) =~= before.push((rank as int, name@)));
                k += 1;
            }
            assert(match_keys(all, q).take(all.len() as int) =~= match_keys(all, q));
            proof {
                lemma_select_indices(all.len() as int, match_pred(all, q));
            }
            let order = sort_entries(&keys, cand);
            let mut j: usize = 0;
            while j < order.len()
                invariant
                    j <= order.len(),
                    all == row_views(self.all_rows@),
                    forall|m: int| 0 <= m < order.len() ==> order@[m] < keys.len(),
                    keys.len() == self.all_rows.len(),
                    row_views(rows@) == order@.take(j as int).map_values(|i: usize| all[i as int]),
                decreases order.len() - j,
            {
                let ghost before = row_views(rows@);
                let x = order[j];
                rows.push(row_copy(&self.all_rows[x]));
                assert(all[x as int] == self.all_rows@[x as int]@);
                assert(order@.take(j + 1) =~= order@.take(j as int).push(x));
                assert(row_views(rows@) =~= before.push(all[x as int]));
                assert(row_views(rows@) =~= order@.take(j + 1).map_values(|i: usize| all[i as int]));
                j += 1;
            }
            assert(order@.take(order.len() as int) =~= order@);
            assert(filtered_rows(all, q, row_views(rows@)));
        }
        self.selected = if rows.len() == 0 {
            None
        } else {
            Some(0)
        };
        self.rows = rows;
    }
}

} // verus!
