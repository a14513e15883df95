//! What zipline knows about its three backends (age, 7-Zip's 7z, and plain
//! zip): their names, where their tools are found, how archives are named, and
//! which backend an archive needs.

use vstd::prelude::*;

use crate::paths::{
    extension_chars, file_name_chars, join_chars, last_index, lemma_file_name_is_plain,
    lemma_file_name_of_join, lemma_last_index_append, lemma_trim_is_prefix, parent_chars,
    spec_extension, spec_file_name, spec_join, spec_parent, trim_end,
};
use crate::text::{
    chars_equal, chars_of, contains_chars, contains_seq, contains_str, decimal, decimal_string,
    lemma_decimal_injective, lemma_decimal_shape, lines_of, lower_chars, lower_seq, push_str,
    skip_ws_back, skip_ws_front, slice_chars, spec_lines, string_of, strip_repeated,
    strip_repeated_chars, strs, trim, trim_chars, views,
};

verus! {

/// The three ways zipline can pack a file or folder.
#[derive(Clone, Copy, Debug, PartialEq, Eq, Structural)]
pub enum Backend {
    /// age: authenticated ChaCha20-Poly1305, the strongest option.
    Age,
    /// 7-Zip AES-256: opens in 7-Zip / Keka on Windows and macOS.
    SevenZip,
    /// Zip: compress-only, opens on any computer by double-click. zipline never
    /// encrypts a zip; for a password, use age or 7z.
    Zip,
}

pub open spec fn spec_ext(b: Backend) -> Seq<char> {
    match b {
        Backend::Age => "age"@,
        Backend::SevenZip => "7z"@,
        Backend::Zip => "zip"@,
    }
}

pub open spec fn spec_title(b: Backend) -> Seq<char> {
    match b {
        Backend::Age => "Secure (age)"@,
        Backend::SevenZip => "Portable (7z)"@,
        Backend::Zip => "Compatible (zip)"@,
    }
}

pub open spec fn spec_tagline(b: Backend) -> Seq<char> {
    match b {
        Backend::Age => "Strongest protection. Opens with zipline on any Linux machine."@,
        Backend::SevenZip => "Opens in 7-Zip / Keka on Windows and macOS, without zipline."@,
        Backend::Zip => "Compress only, no password. Opens on any computer by double-clicking."@,
    }
}

pub open spec fn spec_install_hint(b: Backend) -> Seq<char> {
    match b {
        Backend::Age => "Install it with:  sudo apt install age   (or: sudo dnf install age)"@,
        _ => "Install it with:  sudo apt install 7zip || sudo apt install p7zip-full   (or: sudo dnf install p7zip)"@,
    }
}

/// The executable names that can run a backend, in order of preference.
pub open spec fn spec_candidates(b: Backend) -> Seq<Seq<char>> {
    match b {
        Backend::Age => seq!["age"@],
        _ => seq!["7zz"@, "7z"@, "7za"@],
    }
}

/// The tools found on the search path: the directories of `PATH`, in order,
/// and every file among the looked-up candidates that is an executable.
pub struct ToolSearch {
    pub dirs: Vec<String>,
    pub executables: Vec<String>,
}

/// The first directory of `dirs` holding an executable `name`, joined with it.
pub open spec fn spec_which(dirs: Seq<Seq<char>>, executables: Seq<Seq<char>>, name: Seq<char>) -> Option<
    Seq<char>,
>
    decreases dirs.len(),
{
    if dirs.len() == 0 {
        None
    } else if executables.contains(spec_join(dirs[0], name)) {
        Some(spec_join(dirs[0], name))
    } else {
        spec_which(dirs.drop_first(), executables, name)
    }
}

/// The first of `names` that `which` finds.
pub open spec fn spec_locate_among(
    dirs: Seq<Seq<char>>,
    executables: Seq<Seq<char>>,
    names: Seq<Seq<char>>,
) -> Option<Seq<char>>
    decreases names.len(),
{
    if names.len() == 0 {
        None
    } else if spec_which(dirs, executables, names[0]) is Some {
        spec_which(dirs, executables, names[0])
    } else {
        spec_locate_among(dirs, executables, names.drop_first())
    }
}

impl ToolSearch {
    pub open spec fn spec_find(&self, name: Seq<char>) -> Option<Seq<char>> {
        spec_which(strs(self.dirs@), strs(self.executables@), name)
    }

    pub open spec fn spec_locate(&self, b: Backend) -> Option<Seq<char>> {
        spec_locate_among(strs(self.dirs@), strs(self.executables@), spec_candidates(b))
    }
}

fn contains_string(v: &Vec<String>, s: &Vec<char>) -> (r: bool)
    ensures
        r == strs(v@).contains(s@),
{
    let mut k: usize = 0;
    while k < v.len()
        invariant
            k <= v.len(),
            forall|j: int| 0 <= j < k ==> strs(v@)[j] != s@,
        decreases v.len() - k,
    {
        let c = chars_of(v[k].as_str());
        if crate::text::chars_equal(&c, s) {
            assert(strs(v@)[k as int] == s@);
            return true;
        }
        k += 1;
    }
    false
}

/// Where the executable `name` is found on the search path, if anywhere: the
/// first directory, in `PATH` order, that holds it as an executable file.
pub fn which(search: &ToolSearch, name: &str) -> (r: Option<String>)
    ensures
        match r {
            None => search.spec_find(name@) is None,
            Some(p) => search.spec_find(name@) == Some(p@),
        },
{
    let n = chars_of(name);
    let ghost dirs = strs(search.dirs@);
    let ghost ex = strs(search.executables@);
    let mut k: usize = 0;
    assert(dirs.skip(0) =~= dirs);
    while k < search.dirs.len()
        invariant
            k <= search.dirs.len(),
            dirs == strs(search.dirs@),
            ex == strs(search.executables@),
            n@ == name@,
            spec_which(dirs, ex, name@) == spec_which(dirs.skip(k as int), ex, name@),
        decreases search.dirs.len() - k,
    {
        let d = chars_of(search.dirs[k].as_str());
        let cand = join_chars(&d, &n);
        assert(dirs.skip(k as int)[0] == d@);
        assert(dirs.skip(k as int).drop_first() =~= dirs.skip(k + 1));
        if contains_string(&search.executables, &cand) {
            return Some(string_of(&cand));
        }
        k += 1;
    }
    None
}

impl Backend {
    /// The file extension of this backend's archives.
    pub fn extension(self) -> (r: &'static str)
        ensures
            r@ == spec_ext(self),
    {
        match self {
            Backend::Age => "age",
            Backend::SevenZip => "7z",
            Backend::Zip => "zip",
        }
    }

    /// The name shown on the method menu.
    pub fn title(self) -> (r: &'static str)
        ensures
            r@ == spec_title(self),
    {
        match self {
            Backend::Age => "Secure (age)",
            Backend::SevenZip => "Portable (7z)",
            Backend::Zip => "Compatible (zip)",
        }
    }

    /// One line on what this backend is good for.
    pub fn tagline(self) -> (r: &'static str)
        ensures
            r@ == spec_tagline(self),
    {
        match self {
            Backend::Age => "Strongest protection. Opens with zipline on any Linux machine.",
            Backend::SevenZip => "Opens in 7-Zip / Keka on Windows and macOS, without zipline.",
            Backend::Zip => "Compress only, no password. Opens on any computer by double-clicking.",
        }
    }

    /// How to install the backend if it is missing.
    pub fn install_hint(self) -> (r: &'static str)
        ensures
            r@ == spec_install_hint(self),
    {
        match self {
            Backend::Age => "Install it with:  sudo apt install age   (or: sudo dnf install age)",
            Backend::SevenZip | Backend::Zip => {
                "Install it with:  sudo apt install 7zip || sudo apt install p7zip-full   (or: sudo dnf install p7zip)"
            },
        }
    }

    /// The executable names that can run this backend, most preferred first.
    pub fn candidates(self) -> (r: Vec<&'static str>)
        ensures
            r@.map_values(|s: &str| s@) == spec_candidates(self),
    {
        let mut v: Vec<&'static str> = Vec::new();
        match self {
            Backend::Age => {
                v.push("age");
            },
            Backend::SevenZip | Backend::Zip => {
                v.push("7zz");
                v.push("7z");
                v.push("7za");
            },
        }
        assert(v@.map_values(|s: &str| s@) =~= spec_candidates(self));
        v
    }

    /// The backend's executable on the search path, if present: the first
    /// candidate name that is found.
    pub fn locate(self, search: &ToolSearch) -> (r: Option<String>)
        ensures
            match r {
                None => search.spec_locate(self) is None,
                Some(p) => search.spec_locate(self) == Some(p@),
            },
    {
        let names = self.candidates();
        let ghost ns = names@.map_values(|s: &str| s@);
        let ghost dirs = strs(search.dirs@);
        let ghost ex = strs(search.executables@);
        let mut k: usize = 0;
        assert(ns.skip(0) =~= ns);
        while k < names.len()
            invariant
                k <= names.len(),
                ns == names@.map_values(|s: &str| s@),
                ns == spec_candidates(self),
                dirs == strs(search.dirs@),
                ex == strs(search.executables@),
                spec_locate_among(dirs, ex, ns) == spec_locate_among(dirs, ex, ns.skip(k as int)),
            decreases names.len() - k,
        {
            assert(ns.skip(k as int)[0] == names@[k as int]@);
            assert(ns.skip(k as int).drop_first() =~= ns.skip(k + 1));
            let found = which(search, names[k]);
            if found.is_some() {
                return found;
            }
            k += 1;
        }
        None
    }

    /// The backend's executable, or an error naming the tool and how to install it.
    pub fn program(self, search: &ToolSearch) -> (r: Result<String, String>)
        ensures
            match r {
                Ok(p) => search.spec_locate(self) == Some(p@),
                Err(e) => search.spec_locate(self) is None && e@ == "the '"@ + spec_candidates(
                    self,
                )[0] + "' tool is not installed.\n"@ + spec_install_hint(self),
            },
    {
        match self.locate(search) {
            Some(p) => Ok(p),
            None => {
                let names = self.candidates();
                let mut e = String::new();
                push_str(&mut e, "the '");
                push_str(&mut e, names[0]);
                push_str(&mut e, "' tool is not installed.\n");
                push_str(&mut e, self.install_hint());
                assert(names@[0]@ == names@.map_values(|s: &str| s@)[0]);
                Err(e)
            },
        }
    }
}

/// The name given to an archive of `source`: its file name, or `archive`.
pub open spec fn name_or_archive(p: Seq<char>) -> Seq<char> {
    match spec_file_name(p) {
        Some(n) => n,
        None => "archive"@,
    }
}

/// The folder of `source`, or `.`.
pub open spec fn parent_or_dot(p: Seq<char>) -> Seq<char> {
    match spec_parent(p) {
        Some(d) => d,
        None => "."@,
    }
}

pub open spec fn spec_suggested_output(source: Seq<char>, b: Backend) -> Seq<char> {
    spec_join(parent_or_dot(source), name_or_archive(source) + "."@ + spec_ext(b))
}

/// `dir` joined with `name.ext`.
fn place(dir: &Vec<char>, name: &Vec<char>, b: Backend) -> (r: String)
    ensures
        r@ == spec_join(dir@, name@ + "."@ + spec_ext(b)),
{
    let mut file = string_of(name);
    push_str(&mut file, ".");
    push_str(&mut file, b.extension());
    let f = chars_of(file.as_str());
    string_of(&join_chars(dir, &f))
}

fn name_or_archive_chars(p: &Vec<char>) -> (r: Vec<char>)
    ensures
        r@ == name_or_archive(p@),
{
    match file_name_chars(p) {
        Some(n) => n,
        None => chars_of("archive"),
    }
}

/// The default output path for encrypting `source`: beside it, with the
/// backend's extension appended (`Photos` becomes `Photos.age`).
pub fn suggested_output(source: &str, backend: Backend) -> (r: String)
    ensures
        r@ == spec_suggested_output(source@, backend),
{
    let p = chars_of(source);
    let name = name_or_archive_chars(&p);
    let parent = match parent_chars(&p) {
        Some(d) => d,
        None => chars_of("."),
    };
    place(&parent, &name, backend)
}

pub open spec fn spec_suggested_output_multi(sources: Seq<Seq<char>>, b: Backend) -> Seq<char> {
    if sources.len() == 1 {
        spec_suggested_output(sources[0], b)
    } else {
        let parent = if sources.len() > 0 && spec_parent(sources[0]) is Some {
            spec_parent(sources[0])->0
        } else {
            "."@
        };
        spec_join(parent, name_or_archive(parent) + "."@ + spec_ext(b))
    }
}

/// An archive written under its suggested name opens with the backend that
/// wrote it: the name ends in that backend's extension.
pub proof fn lemma_suggested_output_opens_with_its_backend(source: Seq<char>, b: Backend)
    ensures
        spec_backend_for(spec_suggested_output(source, b)) == Ok::<Backend, Seq<char>>(b),
{
    reveal_strlit("age");
    reveal_strlit("7z");
    reveal_strlit("zip");
    reveal_strlit("archive");
    reveal_strlit(".");
    lemma_file_name_is_plain(source);
    let n = name_or_archive(source);
    assert(n.len() > 0 && forall|j: int| 0 <= j < n.len() ==> n[j] != '/');
    let ext = spec_ext(b);
    let nd = n + "."@;
    let f = nd + ext;
    assert forall|j: int| 0 <= j < f.len() implies f[j] != '/' by {
        if j < n.len() {
            assert(f[j] == n[j]);
        }
    }
    lemma_file_name_of_join(parent_or_dot(source), f);
    assert(spec_suggested_output(source, b) == spec_join(parent_or_dot(source), f));
    lemma_last_index_append(nd, ext, '.');
    assert(nd.last() == '.');
    assert(last_index(nd, '.') == n.len());
    assert(f.subrange(n.len() + 1int, f.len() as int) =~= ext);
    assert(lower_seq(ext) =~= ext);
}

/// Several items make one archive placed in the folder of the first item and
/// named after it: its folder is that folder, its file name is the folder's
/// name with the backend's extension, however many items there are and
/// whatever follows the first two.
pub proof fn lemma_several_items_named_after_their_folder(
    sources: Seq<Seq<char>>,
    more: Seq<Seq<char>>,
    b: Backend,
    dir: Seq<char>,
    name: Seq<char>,
)
    requires
        sources.len() >= 2,
        spec_parent(sources[0]) == Some(dir),
        spec_file_name(dir) == Some(name),
    ensures
        spec_file_name(spec_suggested_output_multi(sources, b)) == Some(name + "."@ + spec_ext(b)),
        spec_parent(spec_suggested_output_multi(sources, b)) == Some(dir),
        spec_suggested_output_multi(sources + more, b) == spec_suggested_output_multi(sources, b),
{
    reveal_strlit("age");
    reveal_strlit("7z");
    reveal_strlit("zip");
    reveal_strlit(".");
    lemma_file_name_is_plain(dir);
    let ext = spec_ext(b);
    let f = name + "."@ + ext;
    assert forall|j: int| 0 <= j < f.len() implies f[j] != '/' by {
        if j < name.len() {
            assert(f[j] == name[j]);
        }
    }
    lemma_file_name_of_join(dir, f);
    assert((sources + more)[0] == sources[0]);
    // The folder: `dir` is already trimmed, so it is what the joined path
    // loses with its last component.
    let q = trim_end(sources[0]);
    let li = last_index(q, '/');
    if li < 0 {
        assert(dir =~= Seq::<char>::empty());
        assert(trim_end(dir) =~= Seq::<char>::empty());
        assert(false);
    }
    let head = trim_end(q.take(li));
    if head.len() == 0 {
        assert(dir == seq!['/']);
        assert(dir.drop_last() =~= Seq::<char>::empty());
        assert(trim_end(dir) == trim_end(dir.drop_last()));
        assert(false);
    }
    assert(dir == head);
    lemma_trim_is_prefix(q.take(li));
    assert(trim_end(dir) == dir);
    assert(dir.len() > 0);
    let pre = dir + seq!['/'];
    let j = spec_join(dir, f);
    assert(f[0] != '/');
    assert(j =~= pre + f);
    assert(j.last() == ext.last());
    assert(trim_end(j) == j);
    lemma_last_index_append(pre, f, '/');
    assert(last_index(pre, '/') == dir.len());
    assert(j.take(dir.len() as int) =~= dir);
}

/// The default output for locking several items that share a folder: placed
/// in that folder and named after it (items in `Photos/` give
/// `Photos/Photos.7z`). With exactly one source it is [`suggested_output`].
pub fn suggested_output_multi(sources: &Vec<String>, backend: Backend) -> (r: String)
    ensures
        r@ == spec_suggested_output_multi(strs(sources@), backend),
{
    if sources.len() == 1 {
        return suggested_output(sources[0].as_str(), backend);
    }
    let parent = if sources.len() > 0 {
        match parent_chars(&chars_of(sources[0].as_str())) {
            Some(d) => d,
            None => chars_of("."),
        }
    } else {
        chars_of(".")
    };
    let name = name_or_archive_chars(&parent);
    place(&parent, &name, backend)
}

pub open spec fn unknown_archive_msg() -> Seq<char> {
    "zipline can open .age, .7z and .zip files; this is none of those"@
}

/// The backend implied by an archive's extension (compared without regard to
/// ASCII case), or the complaint shown for any other file.
pub open spec fn spec_backend_for(archive: Seq<char>) -> Result<Backend, Seq<char>> {
    match spec_extension(archive) {
        Some(e) => if lower_seq(e) == "age"@ {
            Ok(Backend::Age)
        } else if lower_seq(e) == "7z"@ {
            Ok(Backend::SevenZip)
        } else if lower_seq(e) == "zip"@ {
            Ok(Backend::Zip)
        } else {
            Err(unknown_archive_msg())
        },
        None => Err(unknown_archive_msg()),
    }
}

/// Pick the backend implied by an archive's extension.
pub fn backend_for(archive: &str) -> (r: Result<Backend, String>)
    ensures
        match r {
            Ok(b) => spec_backend_for(archive@) == Ok::<Backend, Seq<char>>(b),
            Err(e) => spec_backend_for(archive@) == Err::<Backend, Seq<char>>(e@),
        },
{
    match extension_chars(&chars_of(archive)) {
        Some(e) => {
            let low = lower_chars(&e);
            if crate::text::chars_equal(&low, &chars_of("age")) {
                Ok(Backend::Age)
            } else if crate::text::chars_equal(&low, &chars_of("7z")) {
                Ok(Backend::SevenZip)
            } else if crate::text::chars_equal(&low, &chars_of("zip")) {
                Ok(Backend::Zip)
            } else {
                Err(string_of(&chars_of("zipline can open .age, .7z and .zip files; this is none of those")))
            }
        },
        None => Err(string_of(&chars_of("zipline can open .age, .7z and .zip files; this is none of those"))),
    }
}

/// Whether opening `archive` needs a password, as far as its extension tells:
/// age and 7z archives always do (`Some(true)`); a zip may or may not be
/// encrypted, so its listing must be read (`None`, see
/// [`crate::archive::listing_reports_encryption`]).
pub fn encryption_of(archive: &str) -> (r: Result<Option<bool>, String>)
    ensures
        match r {
            Ok(x) => match spec_backend_for(archive@) {
                Ok(b) => x == (if b == Backend::Zip {
                    None
                } else {
                    Some(true)
                }),
                Err(_) => false,
            },
            Err(e) => spec_backend_for(archive@) == Err::<Backend, Seq<char>>(e@),
        },
{
    match backend_for(archive) {
        Ok(Backend::Zip) => Ok(None),
        Ok(_) => Ok(Some(true)),
        Err(e) => Err(e),
    }
}

/// The folder an item sits in: its parent, or the root.
pub open spec fn dir_of(p: Seq<char>) -> Seq<char> {
    match spec_parent(p) {
        Some(d) => d,
        None => "/"@,
    }
}

/// Groups the first `n` resolved items: their shared folder so far and their
/// file names, or the first complaint.
pub open spec fn group_items(sources: Seq<Seq<char>>, resolved: Seq<Option<Seq<char>>>, n: int) -> Result<
    (Option<Seq<char>>, Seq<Seq<char>>),
    Seq<char>,
>
    decreases n,
{
    if n <= 0 {
        Ok((None, Seq::empty()))
    } else {
        match group_items(sources, resolved, n - 1) {
            Err(e) => Err(e),
            Ok((folder, names)) => match resolved[n - 1] {
                None => Err("could not resolve "@ + sources[n - 1]),
                Some(abs) => match spec_file_name(abs) {
                    None => Err("cannot encrypt the filesystem root"@),
                    Some(name) => if folder is Some && folder->0 != dir_of(abs) {
                        Err("all items must be in the same folder"@)
                    } else {
                        Ok((Some(dir_of(abs)), names.push(name)))
                    },
                },
            },
        }
    }
}

pub open spec fn spec_split_many(sources: Seq<Seq<char>>, resolved: Seq<Option<Seq<char>>>) -> Result<
    (Seq<char>, Seq<Seq<char>>),
    Seq<char>,
> {
    if sources.len() == 0 {
        Err("nothing to lock"@)
    } else {
        match group_items(sources, resolved, sources.len() as int) {
            Err(e) => Err(e),
            Ok((folder, names)) => Ok((folder->0, names)),
        }
    }
}

pub open spec fn opt_strs(v: Seq<Option<String>>) -> Seq<Option<Seq<char>>> {
    v.map_values(|o: Option<String>| match o {
        Some(s) => Some(s@),
        None => None,
    })
}

/// Splits several items into their shared folder and their names within it,
/// so one tool run from that folder can bundle them by relative name.
/// `resolved[i]` is the absolute form of `sources[i]`, or `None` where it could
/// not be resolved. Every item must live in the same folder.
pub fn split_many(sources: &Vec<String>, resolved: &Vec<Option<String>>) -> (r: Result<
    (String, Vec<String>),
    String,
>)
    requires
        sources.len() == resolved.len(),
    ensures
        match r {
            Ok((folder, names)) => spec_split_many(strs(sources@), opt_strs(resolved@)) == Ok::<
                (Seq<char>, Seq<Seq<char>>),
                Seq<char>,
            >((folder@, strs(names@))),
            Err(e) => spec_split_many(strs(sources@), opt_strs(resolved@)) == Err::<
                (Seq<char>, Seq<Seq<char>>),
                Seq<char>,
            >(e@),
        },
{
    let ghost srcs = strs(sources@);
    let ghost res = opt_strs(resolved@);
    if sources.len() == 0 {
        return Err(string_of(&chars_of("nothing to lock")));
    }
    let mut folder: Option<Vec<char>> = None;
    let mut names: Vec<String> = Vec::new();
    let mut i: usize = 0;
    assert(strs(names@) =~= Seq::<Seq<char>>::empty());
    while i < sources.len()
        invariant
            i <= sources.len() == resolved.len(),
            srcs == strs(sources@),
            res == opt_strs(resolved@),
            group_items(srcs, res, i as int) == Ok::<(Option<Seq<char>>, Seq<Seq<char>>), Seq<char>>(
                (
                    match folder {
                        Some(f) => Some(f@),
                        None => None,
                    },
                    strs(names@),
                ),
            ),
            i > 0 ==> folder is Some,
        decreases sources.len() - i,
    {
        match &resolved[i] {
            None => {
                let mut e = String::new();
                push_str(&mut e, "could not resolve ");
                push_str(&mut e, sources[i].as_str());
                let ghost e1 = e@;
                let r: Result<(String, Vec<String>), String> = Err(e);
                assert(group_items(srcs, res, i + 1) == Err::<(Option<Seq<char>>, Seq<Seq<char>>), Seq<char>>(e1));
                assert forall|k: int| i + 1 <= k <= srcs.len() implies group_items(srcs, res, k) == Err::<
                    (Option<Seq<char>>, Seq<Seq<char>>),
                    Seq<char>,
                >(e1) by {
                    lemma_group_err_sticks(srcs, res, i + 1, k);
                }
                return r;
            },
            Some(abs) => {
                let a = chars_of(abs.as_str());
                match file_name_chars(&a) {
                    None => {
                        let e = string_of(&chars_of("cannot encrypt the filesystem root"));
                        proof {
                            assert(group_items(srcs, res, i + 1) == Err::<(Option<Seq<char>>, Seq<Seq<char>>), Seq<char>>(e@));
                            lemma_group_err_sticks(srcs, res, i + 1, srcs.len() as int);
                        }
                        return Err(e);
                    },
                    Some(name) => {
                        let dir = match parent_chars(&a) {
                            Some(d) => d,
                            None => chars_of("/"),
                        };
                        let same = match &folder {
                            Some(f) => chars_equal(f, &dir),
                            None => true,
                        };
                        if !same {
                            let e = string_of(&chars_of("all items must be in the same folder"));
                            proof {
                                assert(group_items(srcs, res, i + 1) == Err::<(Option<Seq<char>>, Seq<Seq<char>>), Seq<char>>(e@));
                                lemma_group_err_sticks(srcs, res, i + 1, srcs.len() as int);
                            }
                            return Err(e);
                        }
                        let ghost before = strs(names@);
                        names.push(string_of(&name));
                        assert(strs(names@) =~= before.push(name@));
                        folder = Some(dir);
                    },
                }
            },
        }
        i += 1;
    }
    let f = match folder {
        Some(f) => f,
        None => Vec::new(),
    };
    Ok((string_of(&f), names))
}

proof fn lemma_group_err_sticks(
    srcs: Seq<Seq<char>>,
    res: Seq<Option<Seq<char>>>,
    i: int,
    k: int,
)
    requires
        0 < i <= k,
        group_items(srcs, res, i) is Err,
    ensures
        group_items(srcs, res, k) == group_items(srcs, res, i),
    decreases k - i,
{
    if k > i {
        lemma_group_err_sticks(srcs, res, i, k - 1);
    }
}

/// `name (i)`: the name tried when `name` is taken.
pub open spec fn numbered(name: Seq<char>, i: nat) -> Seq<char> {
    name + " ("@ + decimal(i) + ")"@
}

/// Whether `x` is the name an entry called `name` gets in a folder already
/// holding `taken`: `name` itself when free, else `name (i)` for the least
/// `i >= 1` that is free.
pub open spec fn is_free_name(x: Seq<char>, name: Seq<char>, taken: Seq<Seq<char>>) -> bool {
    if !taken.contains(name) {
        x == name
    } else {
        exists|i: nat|
            1 <= i && x == numbered(name, i) && !taken.contains(numbered(name, i)) && forall|j: nat|
                1 <= j < i ==> taken.contains(#[trigger] numbered(name, j))
    }
}

proof fn lemma_numbered_injective(name: Seq<char>, a: nat, b: nat)
    requires
        numbered(name, a) == numbered(name, b),
    ensures
        a == b,
{
    reveal_strlit(")");
    reveal_strlit(" (");
    let pre = name + " ("@;
    assert(numbered(name, a) =~= pre + (decimal(a) + ")"@));
    assert(numbered(name, b) =~= pre + (decimal(b) + ")"@));
    let ta = decimal(a) + ")"@;
    let tb = decimal(b) + ")"@;
    assert(ta =~= numbered(name, a).skip(pre.len() as int));
    assert(tb =~= numbered(name, b).skip(pre.len() as int));
    assert(ta.len() == tb.len());
    assert(decimal(a) =~= ta.drop_last());
    assert(decimal(b) =~= tb.drop_last());
    lemma_decimal_injective(a, b);
}

/// Among `name (1)` … `name (n+1)` at least one is not among `n` taken names.
proof fn lemma_free_slot(name: Seq<char>, taken: Seq<Seq<char>>)
    ensures
        exists|i: int| 1 <= i <= taken.len() + 1 && !taken.contains(#[trigger] numbered(name, i as nat)),
{
    if forall|i: int| 1 <= i <= taken.len() + 1 ==> taken.contains(#[trigger] numbered(name, i as nat)) {
        let x = vstd::set_lib::set_int_range(1, taken.len() as int + 2);
        vstd::set_lib::lemma_int_range(1, taken.len() as int + 2);
        let f = |i: int| numbered(name, i as nat);
        assert(vstd::relations::injective_on(f, x)) by {
            assert forall|a: int, b: int| x.contains(a) && x.contains(b) && #[trigger] f(a) == #[trigger] f(b) implies a == b by {
                lemma_numbered_injective(name, a as nat, b as nat);
            }
        }
        let y = x.map(f);
        vstd::set_lib::lemma_map_size(x, y, f);
        assert(y.subset_of(taken.to_set())) by {
            assert forall|s: Seq<char>| y.contains(s) implies taken.to_set().contains(s) by {
                let i = choose|i: int| x.contains(i) && f(i) == s;
                assert(taken.contains(numbered(name, i as nat)));
            }
        }
        taken.lemma_cardinality_of_set();
        vstd::set_lib::lemma_len_subset(y, taken.to_set());
        assert(false);
    }
}

/// The name an entry called `name` takes in a folder already holding `taken`.
pub fn free_name(name: &str, taken: &Vec<String>) -> (r: String)
    requires
        taken.len() < usize::MAX,
    ensures
        is_free_name(r@, name@, strs(taken@)),
        r@ == spec_free_name(name@, strs(taken@)),
{
    proof {
        lemma_free_name(name@, strs(taken@));
    }
    let n = chars_of(name);
    if !contains_str(taken, &n) {
        return string_of(&n);
    }
    let ghost t = strs(taken@);
    proof {
        lemma_free_slot(name@, t);
    }
    let mut i: usize = 1;
    loop
        invariant
            1 <= i <= taken.len() + 1,
            taken.len() < usize::MAX,
            t == strs(taken@),
            n@ == name@,
            t.contains(name@),
            forall|j: nat| 1 <= j < i ==> t.contains(#[trigger] numbered(name@, j)),
            exists|j: int| i <= j <= taken.len() + 1 && !t.contains(#[trigger] numbered(name@, j as nat)),
        decreases taken.len() + 1 - i,
    {
        let mut cand = string_of(&n);
        push_str(&mut cand, " (");
        push_str(&mut cand, decimal_string(i as u64).as_str());
        push_str(&mut cand, ")");
        let c = chars_of(cand.as_str());
        assert(c@ =~= numbered(name@, i as nat));
        if !contains_str(taken, &c) {
            return cand;
        }
        if i == taken.len() + 1 {
            assert(false);
        }
        i += 1;
    }
}

/// `dest/name`, or `dest/name (1)`, `dest/name (2)`… if that is taken, where
/// `taken` lists the names already in `dest`.
pub fn unique_path(dest: &str, name: &str, taken: &Vec<String>) -> (r: String)
    requires
        taken.len() < usize::MAX,
    ensures
        r@ == spec_join(dest@, spec_free_name(name@, strs(taken@))),
{
    let x = free_name(name, taken);
    let r = crate::paths::join(dest, x.as_str());
    r
}

/// The least `i >= 1` with `name (i)` free, when `name` is taken.
pub open spec fn least_free(name: Seq<char>, taken: Seq<Seq<char>>) -> nat {
    choose|i: nat|
        1 <= i && !taken.contains(numbered(name, i)) && forall|j: nat|
            1 <= j < i ==> taken.contains(#[trigger] numbered(name, j))
}

/// The name an entry called `name` takes beside `taken`.
pub open spec fn spec_free_name(name: Seq<char>, taken: Seq<Seq<char>>) -> Seq<char> {
    if !taken.contains(name) {
        name
    } else {
        numbered(name, least_free(name, taken))
    }
}

proof fn lemma_least_free_exists(name: Seq<char>, taken: Seq<Seq<char>>, i0: nat)
    requires
        1 <= i0,
        !taken.contains(numbered(name, i0)),
    ensures
        exists|i: nat|
            1 <= i && !taken.contains(numbered(name, i)) && forall|j: nat|
                1 <= j < i ==> taken.contains(#[trigger] numbered(name, j)),
    decreases i0,
{
    if exists|j: nat| 1 <= j < i0 && !taken.contains(#[trigger] numbered(name, j)) {
        let j = choose|j: nat| 1 <= j < i0 && !taken.contains(#[trigger] numbered(name, j));
        lemma_least_free_exists(name, taken, j);
    }
}

/// The free name is unique, and it is not taken.
proof fn lemma_free_name(name: Seq<char>, taken: Seq<Seq<char>>)
    ensures
        is_free_name(spec_free_name(name, taken), name, taken),
        !taken.contains(spec_free_name(name, taken)),
        forall|x: Seq<char>| is_free_name(x, name, taken) ==> x == spec_free_name(name, taken),
{
    if taken.contains(name) {
        lemma_free_slot(name, taken);
        let i0 = choose|i: int| 1 <= i <= taken.len() + 1 && !taken.contains(#[trigger] numbered(name, i as nat));
        lemma_least_free_exists(name, taken, i0 as nat);
        let k = least_free(name, taken);
        assert forall|x: Seq<char>| is_free_name(x, name, taken) implies x == spec_free_name(name, taken) by {
            let i = choose|i: nat|
                1 <= i && x == numbered(name, i) && !taken.contains(numbered(name, i)) && forall|j: nat|
                    1 <= j < i ==> taken.contains(#[trigger] numbered(name, j));
            if i < k {
                assert(taken.contains(numbered(name, i)));
            }
            if k < i {
                assert(taken.contains(numbered(name, k)));
            }
        }
    }
}

/// The names the entries `names` take, in order, when moved one by one into a
/// folder holding `taken`: each avoids the folder's names and those placed before it.
pub open spec fn relocated(names: Seq<Seq<char>>, taken: Seq<Seq<char>>) -> Seq<Seq<char>>
    decreases names.len(),
{
    if names.len() == 0 {
        Seq::empty()
    } else {
        let prev = relocated(names.drop_last(), taken);
        prev.push(spec_free_name(names.last(), taken + prev))
    }
}

/// The names under which unpacked top-level entries `names` are moved into a
/// folder whose entries are `taken`, so that nothing there is overwritten.
pub fn relocation_names(names: &Vec<String>, taken: &Vec<String>) -> (r: Vec<String>)
    requires
        taken.len() + names.len() < usize::MAX,
    ensures
        strs(r@) == relocated(strs(names@), strs(taken@)),
{
    let ghost ns = strs(names@);
    let ghost t = strs(taken@);
    let mut occupied = taken.clone();
    let mut out: Vec<String> = Vec::new();
    let mut k: usize = 0;
    assert(strs(occupied@) =~= t + strs(out@));
    while k < names.len()
        invariant
            k <= names.len(),
            taken.len() + names.len() < usize::MAX,
            ns == strs(names@),
            t == strs(taken@),
            occupied.len() == taken.len() + k,
            strs(occupied@) == t + strs(out@),
            strs(out@) == relocated(ns.take(k as int), t),
        decreases names.len() - k,
    {
        let x = free_name(names[k].as_str(), &occupied);
        proof {
            lemma_free_name(names@[k as int]@, strs(occupied@));
            assert(ns.take(k + 1).drop_last() =~= ns.take(k as int));
        }
        let ghost before_out = strs(out@);
        let ghost before_occ = strs(occupied@);
        occupied.push(x.clone());
        out.push(x);
        assert(strs(out@) =~= before_out.push(x@));
        assert(strs(occupied@) =~= before_occ.push(x@));
        k += 1;
    }
    assert(ns.take(names.len() as int) =~= ns);
    out
}

/// The folder's earlier names and the names placed so far are never reused:
/// every placed name is new to the folder, and no two placed names coincide.
pub proof fn lemma_relocation_never_overwrites(names: Seq<Seq<char>>, taken: Seq<Seq<char>>)
    ensures
        relocated(names, taken).len() == names.len(),
        forall|k: int| 0 <= k < names.len() ==> !taken.contains(#[trigger] relocated(names, taken)[k]),
        forall|k: int, l: int|
            0 <= k < l < names.len() ==> relocated(names, taken)[k] != relocated(names, taken)[l],
    decreases names.len(),
{
    if names.len() > 0 {
        let prev = relocated(names.drop_last(), taken);
        lemma_relocation_never_overwrites(names.drop_last(), taken);
        lemma_free_name(names.last(), taken + prev);
        let x = spec_free_name(names.last(), taken + prev);
        let r = relocated(names, taken);
        assert(r == prev.push(x));
        assert forall|k: int| 0 <= k < names.len() implies !taken.contains(#[trigger] r[k]) by {
            if k == names.len() - 1 {
                if taken.contains(x) {
                    let j = choose|j: int| 0 <= j < taken.len() && taken[j] == x;
                    assert((taken + prev)[j] == x);
                }
            }
        }
        assert forall|k: int, l: int| 0 <= k < l < names.len() implies r[k] != r[l] by {
            if l == names.len() - 1 {
                assert((taken + prev)[taken.len() + k] == prev[k]);
            }
        }
    }
}

pub open spec fn spec_wrong_key(t: Seq<char>) -> bool {
    contains_seq(t, "wrong password"@) || contains_seq(t, "incorrect"@) || contains_seq(t, "bad passphrase"@)
        || contains_seq(t, "no identity matched"@) || contains_seq(t, "can not open encrypted archive"@)
        || contains_seq(t, "cannot open encrypted archive"@)
}

pub open spec fn spec_damaged_or_wrong(t: Seq<char>) -> bool {
    contains_seq(t, "failed to decrypt"@) || contains_seq(t, "data error"@) || contains_seq(t, "crc failed"@)
        || contains_seq(t, "sub items errors"@)
}

/// A backend failure in plain words: a clearly wrong key reads "wrong
/// password"; an ambiguous decrypt or CRC failure keeps the hedged wording;
/// anything else is passed through.
pub open spec fn spec_friendly_error(message: Seq<char>) -> Seq<char> {
    if spec_wrong_key(lower_seq(message)) {
        "wrong password"@
    } else if spec_damaged_or_wrong(lower_seq(message)) {
        "wrong password, or the file is damaged"@
    } else {
        message
    }
}

fn has(t: &Vec<char>, s: &str) -> (r: bool)
    ensures
        r == contains_seq(t@, s@),
{
    contains_chars(t, &chars_of(s))
}

/// Turn a backend's raw failure message into a friendly one.
pub fn friendly_error(message: &str) -> (r: String)
    ensures
        r@ == spec_friendly_error(message@),
{
    let m = chars_of(message);
    let t = lower_chars(&m);
    let wrong_key = has(&t, "wrong password") || has(&t, "incorrect") || has(&t, "bad passphrase")
        || has(&t, "no identity matched") || has(&t, "can not open encrypted archive") || has(
        &t,
        "cannot open encrypted archive",
    );
    let damaged = has(&t, "failed to decrypt") || has(&t, "data error") || has(&t, "crc failed")
        || has(&t, "sub items errors");
    if wrong_key {
        string_of(&chars_of("wrong password"))
    } else if damaged {
        string_of(&chars_of("wrong password, or the file is damaged"))
    } else {
        string_of(&m)
    }
}

/// The last line of `ls` that is not blank.
pub open spec fn last_nonblank(ls: Seq<Seq<char>>) -> Option<Seq<char>>
    decreases ls.len(),
{
    if ls.len() == 0 {
        None
    } else if trim(ls.last()).len() > 0 {
        Some(ls.last())
    } else {
        last_nonblank(ls.drop_last())
    }
}

pub open spec fn chosen_line(text: Seq<char>, fallback: Seq<char>) -> Seq<char> {
    match last_nonblank(spec_lines(text)) {
        Some(l) => l,
        None => fallback,
    }
}

fn chosen_line_chars(text: &str, fallback: &str) -> (r: Vec<char>)
    ensures
        r@ == chosen_line(text@, fallback@),
{
    let lines = lines_of(&chars_of(text));
    let ghost ls = views(lines@);
    let mut k = lines.len();
    assert(ls.take(k as int) =~= ls);
    while k > 0
        invariant
            k <= lines.len(),
            ls == views(lines@),
            ls == spec_lines(text@),
            last_nonblank(ls) == last_nonblank(ls.take(k as int)),
        decreases k,
    {
        let t = trim_chars(&lines[k - 1]);
        assert(ls.take(k as int).last() == lines@[k - 1]@);
        assert(ls.take(k as int).drop_last() =~= ls.take(k - 1));
        if t.len() > 0 {
            return lines[k - 1].clone();
        }
        k -= 1;
    }
    chars_of(fallback)
}

/// What a tool printed last before failing: the last non-blank line of its
/// error output, trimmed, or `fallback` when it printed nothing.
pub fn failure_detail(stderr: &str, fallback: &str) -> (r: String)
    ensures
        r@ == trim(chosen_line(stderr@, fallback@)),
{
    string_of(&trim_chars(&chosen_line_chars(stderr, fallback)))
}

/// age's own complaint when it fails without a terminal: the last non-blank
/// line of its error output, trimmed, without its `age: error: ` prefixes.
pub fn age_failure_detail(stderr: &str) -> (r: String)
    ensures
        r@ == strip_repeated(trim(chosen_line(stderr@, "age reported an error"@)), "age: error: "@),
{
    let d = trim_chars(&chosen_line_chars(stderr, "age reported an error"));
    string_of(&strip_repeated_chars(&d, &chars_of("age: error: ")))
}

pub open spec fn pad4(name: Seq<char>) -> Seq<char> {
    if name.len() < 4 {
        name + Seq::new((4 - name.len()) as nat, |i: int| ' ')
    } else {
        name
    }
}

/// One line of the doctor's report for a tool.
pub open spec fn report_line(found: Option<Seq<char>>, name: Seq<char>, hint: Seq<char>) -> Seq<char> {
    match found {
        Some(p) => "  ok       "@ + pad4(name) + " "@ + p + "\n"@,
        None => "  missing  "@ + pad4(name) + " "@ + hint + "\n"@,
    }
}

pub open spec fn generic_hint() -> Seq<char> {
    "install it with your package manager (it usually ships with the system)"@
}

pub open spec fn doctor_footer() -> Seq<char> {
    "age is needed for the secure backend; 7z for the portable/zip backends;\ntar and gzip for age archives. The wizard works with whatever is present.\n"@
}

pub open spec fn spec_doctor(search: ToolSearch) -> Seq<char> {
    "zipline helper tools:\n\n"@ + report_line(search.spec_locate(Backend::Age), "age"@, spec_install_hint(Backend::Age))
        + report_line(search.spec_locate(Backend::SevenZip), "7z"@, spec_install_hint(Backend::SevenZip))
        + report_line(search.spec_find("tar"@), "tar"@, generic_hint())
        + report_line(search.spec_find("gzip"@), "gzip"@, generic_hint()) + "\n"@ + doctor_footer()
}

fn report(out: &mut String, found: Option<String>, name: &str, hint: &str)
    ensures
        final(out)@ == old(out)@ + report_line(
            match found {
                Some(p) => Some(p@),
                None => None,
            },
            name@,
            hint@,
        ),
{
    let mut n = chars_of(name);
    let ghost n0 = n@;
    while n.len() < 4
        invariant
            n0.len() <= n@.len(),
            n@.len() > n0.len() ==> n@.len() <= 4,
            n@ == n0 + Seq::new((n@.len() - n0.len()) as nat, |i: int| ' '),
        decreases 4 - n.len(),
    {
        n.push(' ');
        assert(n@ =~= n0 + Seq::new((n@.len() - n0.len()) as nat, |i: int| ' '));
    }
    assert(n@ == pad4(n0)) by {
        if n0.len() >= 4 {
            assert(n@ =~= n0);
        } else {
            assert(n@.len() == 4);
        }
    }
    let padded = string_of(&n);
    match found {
        Some(p) => {
            push_str(out, "  ok       ");
            push_str(out, padded.as_str());
            push_str(out, " ");
            push_str(out, p.as_str());
            push_str(out, "\n");
        },
        None => {
            push_str(out, "  missing  ");
            push_str(out, padded.as_str());
            push_str(out, " ");
            push_str(out, hint);
            push_str(out, "\n");
        },
    }
}

/// A plain-language report of which helper tools zipline can find: for each
/// of age, 7z, tar and gzip an "ok" line with its path or a "missing" line
/// with how to install it.
pub fn doctor(search: &ToolSearch) -> (r: String)
    ensures
        r@ == spec_doctor(*search),
{
    let generic = "install it with your package manager (it usually ships with the system)";
    let mut out = String::new();
    push_str(&mut out, "zipline helper tools:\n\n");
    report(&mut out, Backend::Age.locate(search), "age", Backend::Age.install_hint());
    report(&mut out, Backend::SevenZip.locate(search), "7z", Backend::SevenZip.install_hint());
    report(&mut out, which(search, "tar"), "tar", generic);
    report(&mut out, which(search, "gzip"), "gzip", generic);
    push_str(&mut out, "\n");
    push_str(
        &mut out,
        "age is needed for the secure backend; 7z for the portable/zip backends;\ntar and gzip for age archives. The wizard works with whatever is present.\n",
    );
    out
}

/// A required helper other than the backends (`tar`, `gzip`), or an error saying it is missing.
pub fn helper_program(search: &ToolSearch, name: &str) -> (r: Result<String, String>)
    ensures
        match r {
            Ok(p) => search.spec_find(name@) == Some(p@),
            Err(e) => search.spec_find(name@) is None && e@ == "the '"@ + name@ + "' tool is not installed"@,
        },
{
    match which(search, name) {
        Some(p) => Ok(p),
        None => {
            let mut e = String::new();
            push_str(&mut e, "the '");
            push_str(&mut e, name);
            push_str(&mut e, "' tool is not installed");
            Err(e)
        },
    }
}

/// The first of `sources` that does not exist, as reported by `present`.
pub open spec fn first_missing(present: Seq<bool>) -> int {
    choose|i: int| 0 <= i < present.len() && !present[i] && forall|j: int| 0 <= j < i ==> present[j]
}

fn find_missing(present: &Vec<bool>) -> (r: Option<usize>)
    ensures
        match r {
            None => forall|j: int| 0 <= j < present.len() ==> present@[j],
            Some(i) => i < present.len() && !present@[i as int] && forall|j: int| 0 <= j < i ==> present@[j],
        },
{
    let mut k: usize = 0;
    while k < present.len()
        invariant
            k <= present.len(),
            forall|j: int| 0 <= j < k ==> present@[j],
        decreases present.len() - k,
    {
        if !present[k] {
            return Some(k);
        }
        k += 1;
    }
    None
}

/// Whether encryption may begin: the backend's tool is installed, every
/// source present (`present[i]` tells for `sources[i]`), and age and 7z have a
/// password (zip never encrypts). Returns the backend's executable.
pub open spec fn spec_encrypt_preflight(
    backend: Backend,
    search: ToolSearch,
    sources: Seq<Seq<char>>,
    present: Seq<bool>,
    passphrase: Seq<char>,
) -> Result<Seq<char>, Seq<char>> {
    if search.spec_locate(backend) is None {
        Err("the '"@ + spec_candidates(backend)[0] + "' tool is not installed.\n"@ + spec_install_hint(backend))
    } else if exists|j: int| 0 <= j < present.len() && !present[j] {
        Err(sources[first_missing(present)] + " does not exist"@)
    } else if passphrase.len() == 0 && backend != Backend::Zip {
        Err("the password is empty"@)
    } else {
        Ok(search.spec_locate(backend)->0)
    }
}

fn missing_error(sources: &Vec<String>, present: &Vec<bool>, i: usize) -> (r: String)
    requires
        sources.len() == present.len(),
        i < present.len(),
        !present@[i as int],
        forall|j: int| 0 <= j < i ==> present@[j],
    ensures
        r@ == strs(sources@)[first_missing(present@)] + " does not exist"@,
{
    let ghost k = first_missing(present@);
    assert(k == i) by {
        if k < i {
            assert(present@[k]);
        }
        if k > i {
            assert(present@[i as int]);
        }
    }
    let mut e = sources[i].clone();
    push_str(&mut e, " does not exist");
    e
}

/// Check a request to lock `sources` with `backend` before anything is written.
pub fn encrypt_preflight(
    backend: Backend,
    search: &ToolSearch,
    sources: &Vec<String>,
    present: &Vec<bool>,
    passphrase: &str,
) -> (r: Result<String, String>)
    requires
        sources.len() == present.len(),
    ensures
        match r {
            Ok(p) => spec_encrypt_preflight(backend, *search, strs(sources@), present@, passphrase@)
                == Ok::<Seq<char>, Seq<char>>(p@),
            Err(e) => spec_encrypt_preflight(backend, *search, strs(sources@), present@, passphrase@)
                == Err::<Seq<char>, Seq<char>>(e@),
        },
{
    let program = match backend.program(search) {
        Ok(p) => p,
        Err(e) => return Err(e),
    };
    match find_missing(present) {
        Some(i) => {
            return Err(missing_error(sources, present, i));
        },
        None => {},
    }
    if passphrase.is_empty() && backend != Backend::Zip {
        return Err(string_of(&chars_of("the password is empty")));
    }
    Ok(program)
}

pub open spec fn spec_recipients_preflight(
    search: ToolSearch,
    sources: Seq<Seq<char>>,
    present: Seq<bool>,
    recipient_count: nat,
) -> Result<Seq<char>, Seq<char>> {
    if search.spec_locate(Backend::Age) is None {
        Err("the '"@ + spec_candidates(Backend::Age)[0] + "' tool is not installed.\n"@ + spec_install_hint(Backend::Age))
    } else if exists|j: int| 0 <= j < present.len() && !present[j] {
        Err(sources[first_missing(present)] + " does not exist"@)
    } else if recipient_count == 0 {
        Err("no recipient given"@)
    } else {
        Ok(search.spec_locate(Backend::Age)->0)
    }
}

/// Check a request to lock `sources` for age recipients before anything is written.
pub fn recipients_preflight(
    search: &ToolSearch,
    sources: &Vec<String>,
    present: &Vec<bool>,
    recipients: &Vec<String>,
) -> (r: Result<String, String>)
    requires
        sources.len() == present.len(),
    ensures
        match r {
            Ok(p) => spec_recipients_preflight(*search, strs(sources@), present@, recipients.len() as nat)
                == Ok::<Seq<char>, Seq<char>>(p@),
            Err(e) => spec_recipients_preflight(*search, strs(sources@), present@, recipients.len() as nat)
                == Err::<Seq<char>, Seq<char>>(e@),
        },
{
    let program = match Backend::Age.program(search) {
        Ok(p) => p,
        Err(e) => return Err(e),
    };
    match find_missing(present) {
        Some(i) => {
            return Err(missing_error(sources, present, i));
        },
        None => {},
    }
    if recipients.len() == 0 {
        return Err(string_of(&chars_of("no recipient given")));
    }
    Ok(program)
}

/// Compression levels run from 0 (store) to 9 (smallest).
pub fn clamp_level(level: u8) -> (r: u8)
    ensures
        r == if level <= 9 { level } else { 9 },
{
    if level <= 9 {
        level
    } else {
        9
    }
}

/// Whether an existing `output` must be removed before writing a fresh archive
/// (the tools merge into an existing one). A folder in the way is refused.
pub fn output_clearance(output: &str, exists: bool, is_dir: bool) -> (r: Result<bool, String>)
    ensures
        match r {
            Ok(remove) => remove == exists && !(exists && is_dir),
            Err(e) => exists && is_dir && e@ == output@ + " is a folder — choose a different name"@,
        },
{
    if exists {
        if is_dir {
            let mut e = string_of(&chars_of(output));
            push_str(&mut e, " is a folder — choose a different name");
            return Err(e);
        }
        return Ok(true);
    }
    Ok(false)
}

/// What unlocks an archive being opened.
pub enum Unlock {
    Passphrase(String),
    /// An age identity (private key) file.
    Identity(String),
}

/// How an archive is unpacked.
#[derive(Clone, Copy, Debug, PartialEq, Eq, Structural)]
pub enum ExtractMode {
    /// age with a passphrase typed on a terminal, then tar.
    AgePassphrase,
    /// age with an identity file, no terminal, then tar.
    AgeIdentity,
    /// 7-Zip, prompting for the password on a terminal.
    SevenZipPrompt,
    /// A plain zip: no password, no terminal.
    ZipPlain,
    /// A password-protected zip, prompting on a terminal.
    ZipPrompt,
}

pub open spec fn key_only_age_msg() -> Seq<char> {
    "a key file only opens age (.age) archives"@
}

pub open spec fn spec_extract_mode(backend: Backend, unlock: Unlock) -> Result<ExtractMode, Seq<char>> {
    match (backend, unlock) {
        (Backend::Age, Unlock::Passphrase(_)) => Ok(ExtractMode::AgePassphrase),
        (Backend::Age, Unlock::Identity(_)) => Ok(ExtractMode::AgeIdentity),
        (Backend::SevenZip, Unlock::Passphrase(_)) => Ok(ExtractMode::SevenZipPrompt),
        (Backend::Zip, Unlock::Passphrase(p)) => if p@.len() == 0 {
            Ok(ExtractMode::ZipPlain)
        } else {
            Ok(ExtractMode::ZipPrompt)
        },
        (_, Unlock::Identity(_)) => Err(key_only_age_msg()),
    }
}

/// How to unpack an archive of `backend` with `unlock`: a key file opens age
/// alone, and a zip with no password is unpacked without a terminal.
pub fn extract_mode(backend: Backend, unlock: &Unlock) -> (r: Result<ExtractMode, String>)
    ensures
        match r {
            Ok(m) => spec_extract_mode(backend, *unlock) == Ok::<ExtractMode, Seq<char>>(m),
            Err(e) => spec_extract_mode(backend, *unlock) == Err::<ExtractMode, Seq<char>>(e@),
        },
{
    match (backend, unlock) {
        (Backend::Age, Unlock::Passphrase(_)) => Ok(ExtractMode::AgePassphrase),
        (Backend::Age, Unlock::Identity(_)) => Ok(ExtractMode::AgeIdentity),
        (Backend::SevenZip, Unlock::Passphrase(_)) => Ok(ExtractMode::SevenZipPrompt),
        (Backend::Zip, Unlock::Passphrase(p)) => if p.as_str().is_empty() {
            Ok(ExtractMode::ZipPlain)
        } else {
            Ok(ExtractMode::ZipPrompt)
        },
        (_, Unlock::Identity(_)) => Err(string_of(&chars_of("a key file only opens age (.age) archives"))),
    }
}

/// Whether an archive can be opened, before anything is written: its
/// extension names a backend whose tool is installed, and the file exists.
pub open spec fn spec_decrypt_preflight(archive: Seq<char>, search: ToolSearch, exists: bool) -> Result<
    (Backend, Seq<char>),
    Seq<char>,
> {
    match spec_backend_for(archive) {
        Err(e) => Err(e),
        Ok(b) => if search.spec_locate(b) is None {
            Err("the '"@ + spec_candidates(b)[0] + "' tool is not installed.\n"@ + spec_install_hint(b))
        } else if !exists {
            Err(archive + " does not exist"@)
        } else {
            Ok((b, search.spec_locate(b)->0))
        },
    }
}

/// Check a request to open `archive` before anything is written; gives the
/// backend and its executable.
pub fn decrypt_preflight(archive: &str, search: &ToolSearch, exists: bool) -> (r: Result<(Backend, String), String>)
    ensures
        match r {
            Ok((b, p)) => spec_decrypt_preflight(archive@, *search, exists) == Ok::<(Backend, Seq<char>), Seq<char>>((b, p@)),
            Err(e) => spec_decrypt_preflight(archive@, *search, exists) == Err::<(Backend, Seq<char>), Seq<char>>(e@),
        },
{
    let b = match backend_for(archive) {
        Ok(b) => b,
        Err(e) => return Err(e),
    };
    let program = match b.program(search) {
        Ok(p) => p,
        Err(e) => return Err(e),
    };
    if !exists {
        let mut e = string_of(&chars_of(archive));
        push_str(&mut e, " does not exist");
        return Err(e);
    }
    Ok((b, program))
}

/// A key file opens only age archives.
pub fn identity_preflight(archive: &str) -> (r: Result<(), String>)
    ensures
        match r {
            Ok(()) => spec_backend_for(archive@) == Ok::<Backend, Seq<char>>(Backend::Age),
            Err(e) => match spec_backend_for(archive@) {
                Err(m) => e@ == m,
                Ok(b) => b != Backend::Age && e@ == key_only_age_msg(),
            },
        },
{
    match backend_for(archive) {
        Err(e) => Err(e),
        Ok(Backend::Age) => Ok(()),
        Ok(_) => Err(string_of(&chars_of("a key file only opens age (.age) archives"))),
    }
}

} // verus!
