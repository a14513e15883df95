//! The wizard: a small state machine over a handful of screens. It reacts to
//! one key at a time and, where it needs the outside world (what is on disk,
//! whether an archive is encrypted, the encryption job itself), it says so with
//! an [`Effect`]; the answer comes back through [`App::resume`].

use vstd::prelude::*;

use crate::backend::{
    backend_for, spec_backend_for, spec_install_hint, spec_suggested_output,
    spec_suggested_output_multi, spec_title, suggested_output, suggested_output_multi, Backend,
    ToolSearch,
};
use crate::browser::{
    allowed, entered, expand_path, fresh_browser, hidden_toggled, is_path_query, jumped, mark_toggled,
    moved_down, moved_up, opt_strs, opt_view, popped, query_cleared, query_target_of, refiltered,
    spec_expand, went_up, Action, Browser, PathKind, RowKind,
};
use crate::cli::{digits_value, is_digit, parse_u8, spec_parse_u8, unsigned_body};
use crate::paths::{parent, spec_parent};
use crate::text::{
    chars_of, owned, clear_string, lines_of, pop_char, push_char, push_str, spec_lines, string_of, strs,
    trim, trim_chars, views,
};

verus! {

/// Which way the wizard is going: locking something, or opening an archive.
#[derive(Clone, Copy, Debug, PartialEq, Eq, Structural)]
pub enum Flow {
    Encrypt,
    Decrypt,
}

/// The wizard's screens.
#[derive(Clone, Copy, Debug, PartialEq, Eq, Structural)]
pub enum Step {
    Welcome,
    ChooseBackend,
    /// age only: lock with a password, or for a recipient (their public key).
    AgeMethod,
    /// Pick the compression level for the chosen method.
    Compression,
    Browse,
    /// age recipient mode: type/paste the recipient's public key or a key file.
    Recipient,
    Passphrase,
    /// age decrypt: type/paste the path to your identity (key) file.
    Identity,
    Review,
    Working,
    Finished,
}

/// How an age archive will be locked.
#[derive(Clone, Copy, Debug, PartialEq, Eq, Structural)]
pub enum AgeMethod {
    Password,
    Recipients,
}

/// Which passphrase field is focused while encrypting.
#[derive(Clone, Copy, Debug, PartialEq, Eq, Structural)]
pub enum Field {
    Password,
    Confirm,
}

/// A key the wizard reacts to.
#[derive(Clone, Copy, Debug, PartialEq, Eq, Structural)]
pub enum KeyCode {
    Char(char),
    Enter,
    Esc,
    Up,
    Down,
    Left,
    Right,
    Tab,
    Backspace,
    /// Any other key; no screen uses it.
    Other,
}

/// A key press: the key, and whether Control was held.
#[derive(Clone, Copy, Debug, PartialEq, Eq, Structural)]
pub struct Key {
    pub code: KeyCode,
    pub ctrl: bool,
}

/// The answer the wizard is waiting for, after it asked for one.
#[derive(Clone, Copy, Debug, PartialEq, Eq, Structural)]
pub enum Awaiting {
    Idle,
    /// What the path typed into the browser is.
    PathKind,
    /// Whether the archive being opened is encrypted.
    Encryption,
    /// Whether the output already exists.
    Existence,
    /// The contents of the recipient key file.
    KeyFile,
    /// Whether the identity key file is a file.
    KeyFileCheck,
}

/// What a recipient "key file" turned out to be.
pub enum KeyFile {
    /// Not a file: the text typed is the key itself.
    NotAFile,
    /// A file that could not be read.
    Unreadable,
    /// A file with this text.
    Text(String),
}

/// The outside world's answer to an [`Effect`].
pub enum Reply {
    /// For [`Effect::CheckPath`].
    Kind(PathKind),
    /// For [`Effect::ProbeArchive`]: true when encrypted, or when that could not be told.
    Encrypted(bool),
    /// For [`Effect::CheckExists`].
    Exists(bool),
    /// For [`Effect::ReadKeyFile`].
    KeyFile(KeyFile),
    /// For [`Effect::CheckFile`].
    IsFile(bool),
}

/// The work to run in the background once the user confirms on Review.
pub struct Job {
    pub flow: Flow,
    pub backend: Backend,
    /// What to lock, all from one folder; or the one archive to open.
    pub sources: Vec<String>,
    pub output: String,
    pub password: String,
    pub level: u8,
    pub age_method: AgeMethod,
    pub recipients: Vec<String>,
    pub identity: Option<String>,
}

/// What the wizard needs done outside it after a key or a reply.
pub enum Effect {
    Nothing,
    /// Say what is at this path ([`Reply::Kind`]).
    CheckPath(String),
    /// Say whether this archive is encrypted ([`Reply::Encrypted`]).
    ProbeArchive(String),
    /// Say whether this path exists ([`Reply::Exists`]).
    CheckExists(String),
    /// Read this recipient key file ([`Reply::KeyFile`]).
    ReadKeyFile(String),
    /// Say whether this path is a file ([`Reply::IsFile`]).
    CheckFile(String),
    /// Run this job, and report its end with [`App::job_finished`].
    StartJob(Job),
}

/// A job as plain values.
pub struct JobView {
    pub flow: Flow,
    pub backend: Backend,
    pub sources: Seq<Seq<char>>,
    pub output: Seq<char>,
    pub password: Seq<char>,
    pub level: u8,
    pub age_method: AgeMethod,
    pub recipients: Seq<Seq<char>>,
    pub identity: Option<Seq<char>>,
}

/// How a job is to be run: which unlock or lock mode the tools get.
#[derive(Clone, Copy, Debug, PartialEq, Eq, Structural)]
pub enum Run {
    /// Lock every source with the job's password (or, for zip, none).
    LockWithPassword,
    /// Lock every source for the job's recipients (age only).
    LockForRecipients,
    /// Open the archive with the job's identity file (age only).
    OpenWithKey,
    /// Open the archive with the job's password.
    OpenWithPassword,
}

/// What a job of these fields asks the tools to do.
pub open spec fn spec_run_of(flow: Flow, backend: Backend, method: AgeMethod, has_identity: bool) -> Run {
    match flow {
        Flow::Encrypt => if backend == Backend::Age && method == AgeMethod::Recipients {
            Run::LockForRecipients
        } else {
            Run::LockWithPassword
        },
        Flow::Decrypt => if has_identity {
            Run::OpenWithKey
        } else {
            Run::OpenWithPassword
        },
    }
}

impl Job {
    /// How this job is run: recipients only for an age lock chosen that way,
    /// an identity file only when one was given for opening.
    pub fn run(&self) -> (r: Run)
        ensures
            r == spec_run_of(self.flow, self.backend, self.age_method, self.identity is Some),
    {
        match self.flow {
            Flow::Encrypt => if self.backend == Backend::Age && self.age_method == AgeMethod::Recipients {
                Run::LockForRecipients
            } else {
                Run::LockWithPassword
            },
            Flow::Decrypt => if self.identity.is_some() {
                Run::OpenWithKey
            } else {
                Run::OpenWithPassword
            },
        }
    }
}

/// An effect as plain values.
pub enum Ask {
    Nothing,
    CheckPath(Seq<char>),
    ProbeArchive(Seq<char>),
    CheckExists(Seq<char>),
    ReadKeyFile(Seq<char>),
    CheckFile(Seq<char>),
    StartJob(JobView),
}

impl View for Job {
    type V = JobView;

    open spec fn view(&self) -> JobView {
        JobView {
            flow: self.flow,
            backend: self.backend,
            sources: strs(self.sources@),
            output: self.output@,
            password: self.password@,
            level: self.level,
            age_method: self.age_method,
            recipients: strs(self.recipients@),
            identity: opt_view(self.identity),
        }
    }
}

impl View for Effect {
    type V = Ask;

    open spec fn view(&self) -> Ask {
        match self {
            Effect::Nothing => Ask::Nothing,
            Effect::CheckPath(p) => Ask::CheckPath(p@),
            Effect::ProbeArchive(p) => Ask::ProbeArchive(p@),
            Effect::CheckExists(p) => Ask::CheckExists(p@),
            Effect::ReadKeyFile(p) => Ask::ReadKeyFile(p@),
            Effect::CheckFile(p) => Ask::CheckFile(p@),
            Effect::StartJob(j) => Ask::StartJob(j@),
        }
    }
}

/// The wizard's whole state.
pub struct App {
    pub step: Step,
    pub flow: Flow,
    pub backend: Backend,
    /// Compression level 0–9 the job will use, fixed when leaving the
    /// compression step.
    pub level: u8,
    /// The digit being typed on the compression step for 7z/zip (age uses a
    /// preset menu via `menu` instead).
    pub level_input: String,
    pub menu: usize,
    pub browser: Browser,
    pub password: String,
    pub confirm: String,
    pub field: Field,
    pub source: Option<String>,
    /// Every item when several marked items are locked together (the first
    /// is `source`); empty when one item is locked.
    pub bundle: Vec<String>,
    pub output: Option<String>,
    /// age lock method (password vs recipients), chosen on the AgeMethod step.
    pub age_method: AgeMethod,
    /// Recipients (age public keys) collected for a recipient-mode encrypt.
    pub recipients: Vec<String>,
    /// An age identity (key) file chosen to open a recipient-encrypted archive.
    pub identity: Option<String>,
    /// Shared text buffer for the Recipient and Identity entry screens.
    pub text_input: String,
    /// A transient, plain-language note shown in red (e.g. passwords differ).
    pub note: Option<String>,
    /// True when confirming on Review would overwrite an existing output file.
    pub will_overwrite: bool,
    /// True while the user is editing the destination path on the Review screen.
    pub editing_output: bool,
    /// The destination path being typed in the Review editor.
    pub output_input: String,
    /// Show the typed password in clear text (toggled on the passphrase screen).
    pub reveal: bool,
    pub tick: u64,
    /// The `tick` when the current job started, for the elapsed-time display.
    pub job_start: u64,
    pub outcome: Option<Result<String, String>>,
    pub quit: bool,
    /// The tools found on the search path.
    pub tools: ToolSearch,
    /// The user's home folder, when known.
    pub home: Option<String>,
    /// The answer asked for by the last effect.
    pub awaiting: Awaiting,
    /// A job was started and has not reported its end.
    pub job_running: bool,
}

/// The wizard's state as plain values.
pub struct AppView {
    pub step: Step,
    pub flow: Flow,
    pub backend: Backend,
    pub level: u8,
    pub level_input: Seq<char>,
    pub menu: usize,
    pub browser: Browser,
    pub password: Seq<char>,
    pub confirm: Seq<char>,
    pub field: Field,
    pub source: Option<Seq<char>>,
    pub bundle: Seq<Seq<char>>,
    pub output: Option<Seq<char>>,
    pub age_method: AgeMethod,
    pub recipients: Seq<Seq<char>>,
    pub identity: Option<Seq<char>>,
    pub text_input: Seq<char>,
    pub note: Option<Seq<char>>,
    pub will_overwrite: bool,
    pub editing_output: bool,
    pub output_input: Seq<char>,
    pub reveal: bool,
    pub tick: u64,
    pub job_start: u64,
    pub outcome: Option<Result<Seq<char>, Seq<char>>>,
    pub quit: bool,
    pub tools: ToolSearch,
    pub home: Option<Seq<char>>,
    pub awaiting: Awaiting,
    pub job_running: bool,
}

pub open spec fn outcome_view(o: Option<Result<String, String>>) -> Option<Result<Seq<char>, Seq<char>>> {
    match o {
        None => None,
        Some(Ok(p)) => Some(Ok(p@)),
        Some(Err(e)) => Some(Err(e@)),
    }
}

impl View for App {
    type V = AppView;

    open spec fn view(&self) -> AppView {
        AppView {
            step: self.step,
            flow: self.flow,
            backend: self.backend,
            level: self.level,
            level_input: self.level_input@,
            menu: self.menu,
            browser: self.browser,
            password: self.password@,
            confirm: self.confirm@,
            field: self.field,
            source: opt_view(self.source),
            bundle: strs(self.bundle@),
            output: opt_view(self.output),
            age_method: self.age_method,
            recipients: strs(self.recipients@),
            identity: opt_view(self.identity),
            text_input: self.text_input@,
            note: opt_view(self.note),
            will_overwrite: self.will_overwrite,
            editing_output: self.editing_output,
            output_input: self.output_input@,
            reveal: self.reveal,
            tick: self.tick,
            job_start: self.job_start,
            outcome: outcome_view(self.outcome),
            quit: self.quit,
            tools: self.tools,
            home: opt_view(self.home),
            awaiting: self.awaiting,
            job_running: self.job_running,
        }
    }
}

/// The extensions of the archives zipline opens.
pub open spec fn archive_exts() -> Seq<Seq<char>> {
    seq!["age"@, "7z"@, "zip"@]
}

/// Where browsing starts: the home folder, or the root.
pub open spec fn home_dir(a: AppView) -> Seq<char> {
    match a.home {
        Some(h) => h,
        None => "/"@,
    }
}

/// One row further down a menu of `last + 1` rows, stopping at the last.
pub open spec fn menu_down(m: usize, last: usize) -> usize {
    if m + 1 > last {
        last
    } else {
        (m + 1) as usize
    }
}

/// One row further up a menu, stopping at the first.
pub open spec fn menu_up(m: usize) -> usize {
    if m == 0 {
        0
    } else {
        (m - 1) as usize
    }
}

/// The backend each row of the backend menu stands for.
pub open spec fn menu_backend(m: usize) -> Backend {
    if m == 0 {
        Backend::Age
    } else if m == 1 {
        Backend::SevenZip
    } else {
        Backend::Zip
    }
}

/// The gzip level of each age preset: None, Normal, Maximum.
pub open spec fn age_preset(m: usize) -> u8 {
    if m == 0 {
        0
    } else if m == 1 {
        6
    } else {
        9
    }
}

/// The level fixed on leaving the compression step: the age preset, or the
/// typed number (at most 9; Normal, 5, when it is not a number).
pub open spec fn chosen_level(a: AppView) -> u8 {
    if a.backend == Backend::Age {
        age_preset(a.menu)
    } else {
        match spec_parse_u8(trim(a.level_input)) {
            Some(n) => if n > 9 {
                9
            } else {
                n
            },
            None => 5,
        }
    }
}

pub open spec fn not_installed_msg(b: Backend) -> Seq<char> {
    spec_title(b) + " is not installed yet. "@ + spec_install_hint(b)
}

pub open spec fn needs_tool_msg(b: Backend) -> Seq<char> {
    "Opening this file needs "@ + spec_title(b) + ". "@ + spec_install_hint(b)
}

/// Forget any age recipients or identity, back to password mode.
pub open spec fn lock_reset(a: AppView) -> AppView {
    AppView {
        age_method: AgeMethod::Password,
        recipients: Seq::<Seq<char>>::empty(),
        identity: None,
        text_input: Seq::<char>::empty(),
        ..a
    }
}

/// Back on the welcome screen, first row highlighted.
pub open spec fn welcomed(a: AppView) -> AppView {
    AppView { menu: 0, step: Step::Welcome, ..a }
}

/// On the compression step, with its defaults.
pub open spec fn compression_entered(a: AppView) -> AppView {
    AppView { menu: 0, level_input: "5"@, step: Step::Compression, ..a }
}

/// `b` holds a fresh browser for picking something to lock (`only` is None)
/// or an archive to open, and is otherwise `a` on the browse step.
pub open spec fn browsing(a: AppView, b: AppView, only: Option<Seq<Seq<char>>>) -> bool {
    &&& b == AppView { step: Step::Browse, browser: b.browser, ..a }
    &&& fresh_browser(b.browser, home_dir(a), only, a.home)
}

/// Nothing but the browser changes (how it changes is said beside), and
/// nothing is asked.
pub open spec fn browser_only(a: AppView, b: AppView, e: Ask) -> bool {
    &&& b == AppView { browser: b.browser, ..a }
    &&& e == Ask::Nothing
}

/// Only a note is shown.
pub open spec fn noted(a: AppView, b: AppView, e: Ask, msg: Seq<char>) -> bool {
    b == AppView { note: Some(msg), ..a } && e == Ask::Nothing
}

/// Whether the output is asked about: encrypting, with an output chosen.
pub open spec fn asks_existence(a: AppView) -> bool {
    a.flow == Flow::Encrypt && a.output is Some
}

/// The overwrite flag is worked out for `a`: cleared, and when encrypting to
/// a chosen output, the outside world is asked whether it exists.
pub open spec fn overwrite_checked(a: AppView, b: AppView, e: Ask) -> bool {
    if asks_existence(a) {
        &&& b == AppView { will_overwrite: false, awaiting: Awaiting::Existence, ..a }
        &&& e == Ask::CheckExists(a.output->0)
    } else {
        &&& b == AppView { will_overwrite: false, ..a }
        &&& e == Ask::Nothing
    }
}

/// The Review screen is entered from `a`.
pub open spec fn review_entered(a: AppView, b: AppView, e: Ask) -> bool {
    overwrite_checked(AppView { reveal: false, editing_output: false, step: Step::Review, ..a }, b, e)
}

/// `b` is `x`, and nothing is asked.
pub open spec fn settles(b: AppView, e: Ask, x: AppView) -> bool {
    b == x && e == Ask::Nothing
}

/// The passwords typed so far wiped, and no bundle.
pub open spec fn wiped(a: AppView) -> AppView {
    AppView {
        password: Seq::<char>::empty(),
        confirm: Seq::<char>::empty(),
        field: Field::Password,
        bundle: Seq::<Seq<char>>::empty(),
        ..a
    }
}

/// What follows choosing what to lock (`s` holding it): a recipient's key for
/// age in recipient mode, straight to Review for zip, else a password.
pub open spec fn locking_next(s: AppView, b: AppView, e: Ask) -> bool {
    if s.backend == Backend::Age && s.age_method == AgeMethod::Recipients {
        settles(b, e, AppView { text_input: Seq::<char>::empty(), step: Step::Recipient, ..s })
    } else if s.backend == Backend::Zip {
        review_entered(s, b, e)
    } else {
        settles(b, e, AppView { step: Step::Passphrase, ..s })
    }
}

/// Choosing the marked `items` (from one folder) to lock together: named
/// after their folder, the first shown as the source.
pub open spec fn bundle_chosen(a: AppView, items: Seq<Seq<char>>, b: AppView, e: Ask) -> bool {
    locking_next(
        AppView {
            output: Some(spec_suggested_output_multi(items, a.backend)),
            source: Some(items[0]),
            bundle: items,
            ..wiped(a)
        },
        b,
        e,
    )
}

/// What choosing `p` on the browse step does: encrypting, it fixes the source
/// and the suggested output and moves to the recipient, password or review
/// step; opening, it picks the backend from the extension (or notes why it
/// cannot) and asks whether the archive is encrypted. Passwords typed before
/// are wiped either way.
pub open spec fn path_chosen(a: AppView, p: Seq<char>, b: AppView, e: Ask) -> bool {
    let z = wiped(a);
    if a.flow == Flow::Encrypt {
        locking_next(
            AppView { output: Some(spec_suggested_output(p, a.backend)), source: Some(p), ..z },
            b,
            e,
        )
    } else {
        match spec_backend_for(p) {
            Err(m) => noted(z, b, e, m),
            Ok(bk) => if a.tools.spec_locate(bk) is None {
                noted(z, b, e, needs_tool_msg(bk))
            } else {
                &&& b == AppView {
                    backend: bk,
                    output: spec_parent(p),
                    source: Some(p),
                    awaiting: Awaiting::Encryption,
                    ..z
                }
                &&& e == Ask::ProbeArchive(p)
            },
        }
    }
}

pub open spec fn welcome_key(a: AppView, code: KeyCode, b: AppView, e: Ask) -> bool {
    if code == KeyCode::Up {
        settles(b, e, AppView { menu: menu_up(a.menu), ..a })
    } else if code == KeyCode::Down {
        settles(b, e, AppView { menu: menu_down(a.menu, 2), ..a })
    } else if code == KeyCode::Char('q') {
        settles(b, e, AppView { quit: true, ..a })
    } else if code == KeyCode::Enter {
        if a.menu == 0 {
            settles(
                b,
                e,
                AppView { flow: Flow::Encrypt, menu: 0, step: Step::ChooseBackend, ..lock_reset(a) },
            )
        } else if a.menu == 1 {
            browsing(AppView { flow: Flow::Decrypt, ..lock_reset(a) }, b, Some(archive_exts()))
                && e == Ask::Nothing
        } else {
            settles(b, e, AppView { quit: true, ..a })
        }
    } else {
        settles(b, e, a)
    }
}

/// Enter on the backend menu: an installed backend is taken (age then asks
/// how to lock); a missing one is noted with how to install it.
pub open spec fn backend_picked(a: AppView, b: AppView, e: Ask) -> bool {
    let bk = menu_backend(a.menu);
    if a.tools.spec_locate(bk) is None {
        noted(a, b, e, not_installed_msg(bk))
    } else if bk == Backend::Age {
        settles(b, e, AppView { backend: bk, menu: 0, step: Step::AgeMethod, ..a })
    } else {
        settles(b, e, compression_entered(AppView { backend: bk, ..a }))
    }
}

pub open spec fn backend_key(a: AppView, code: KeyCode, b: AppView, e: Ask) -> bool {
    if code == KeyCode::Up {
        settles(b, e, AppView { menu: menu_up(a.menu), ..a })
    } else if code == KeyCode::Down {
        settles(b, e, AppView { menu: menu_down(a.menu, 2), ..a })
    } else if code == KeyCode::Esc {
        settles(b, e, welcomed(a))
    } else if code == KeyCode::Enter {
        backend_picked(a, b, e)
    } else {
        settles(b, e, a)
    }
}

pub open spec fn age_method_key(a: AppView, code: KeyCode, b: AppView, e: Ask) -> bool {
    if code == KeyCode::Up {
        settles(b, e, AppView { menu: menu_up(a.menu), ..a })
    } else if code == KeyCode::Down {
        settles(b, e, AppView { menu: menu_down(a.menu, 1), ..a })
    } else if code == KeyCode::Esc {
        settles(b, e, AppView { step: Step::ChooseBackend, ..a })
    } else if code == KeyCode::Enter {
        let m = if a.menu == 0 {
            AgeMethod::Password
        } else {
            AgeMethod::Recipients
        };
        settles(b, e, compression_entered(AppView { age_method: m, ..a }))
    } else {
        settles(b, e, a)
    }
}

/// Leaving the compression step: the level is fixed and browsing starts.
pub open spec fn compression_confirmed(a: AppView, b: AppView, e: Ask) -> bool {
    browsing(AppView { level: chosen_level(a), ..a }, b, None) && e == Ask::Nothing
}

pub open spec fn compression_key(a: AppView, code: KeyCode, b: AppView, e: Ask) -> bool {
    if a.backend == Backend::Age {
        if code == KeyCode::Up {
            settles(b, e, AppView { menu: menu_up(a.menu), ..a })
        } else if code == KeyCode::Down {
            settles(b, e, AppView { menu: menu_down(a.menu, 2), ..a })
        } else if code == KeyCode::Esc {
            settles(b, e, AppView { step: Step::AgeMethod, ..a })
        } else if code == KeyCode::Enter {
            compression_confirmed(a, b, e)
        } else {
            settles(b, e, a)
        }
    } else {
        match code {
            KeyCode::Char(c) => if '0' <= c <= '9' {
                settles(b, e, AppView { level_input: seq![c], ..a })
            } else {
                settles(b, e, a)
            },
            KeyCode::Backspace => settles(b, e, AppView { level_input: Seq::<char>::empty(), ..a }),
            KeyCode::Esc => settles(b, e, AppView { step: Step::ChooseBackend, ..a }),
            KeyCode::Enter => compression_confirmed(a, b, e),
            _ => settles(b, e, a),
        }
    }
}

/// Enter (or Right) on the browse step: a typed path is looked up outside;
/// when locking with items marked, they are locked together; otherwise the
/// highlighted row is acted on.
pub open spec fn browse_open(a: AppView, b: AppView, e: Ask) -> bool {
    if is_path_query(a.browser.query_v()) {
        &&& b == AppView { awaiting: Awaiting::PathKind, ..a }
        &&& e == Ask::CheckPath(query_target_of(a.browser))
    } else if a.flow == Flow::Encrypt && a.browser.marked_v().len() > 0 {
        bundle_chosen(a, a.browser.marked_v(), b, e)
    } else {
        match a.browser.current_row() {
            None => settles(b, e, a),
            Some((kind, p)) => match kind {
                RowKind::UseCurrent => path_chosen(a, a.browser.cwd_v(), b, e),
                RowKind::File => path_chosen(a, p, b, e),
                RowKind::Dir => entered(a.browser, b.browser, p) && browser_only(a, b, e),
                RowKind::Up => went_up(a.browser, b.browser) && browser_only(a, b, e),
            },
        }
    }
}

pub open spec fn browse_key(a: AppView, code: KeyCode, b: AppView, e: Ask) -> bool {
    let q = a.browser.query_v();
    match code {
        KeyCode::Tab => hidden_toggled(a.browser, b.browser) && browser_only(a, b, e),
        KeyCode::Up => moved_up(a.browser, b.browser) && browser_only(a, b, e),
        KeyCode::Down => moved_down(a.browser, b.browser) && browser_only(a, b, e),
        KeyCode::Left => went_up(a.browser, b.browser) && browser_only(a, b, e),
        KeyCode::Char(c) => if c == ' ' && !is_path_query(q) {
            mark_toggled(a.browser, b.browser) && browser_only(a, b, e)
        } else {
            refiltered(a.browser, b.browser, q.push(c)) && browser_only(a, b, e)
        },
        KeyCode::Backspace => if q.len() == 0 {
            went_up(a.browser, b.browser) && browser_only(a, b, e)
        } else {
            refiltered(a.browser, b.browser, popped(q)) && browser_only(a, b, e)
        },
        KeyCode::Esc => if q.len() != 0 {
            query_cleared(a.browser, b.browser) && browser_only(a, b, e)
        } else if a.flow == Flow::Encrypt {
            settles(b, e, AppView { step: Step::Compression, ..a })
        } else {
            settles(b, e, welcomed(a))
        },
        KeyCode::Enter => browse_open(a, b, e),
        KeyCode::Right => browse_open(a, b, e),
        _ => settles(b, e, a),
    }
}

/// The focused passphrase field with `c` typed into it, or (for None) its
/// last character removed.
pub open spec fn field_edited(a: AppView, c: Option<char>) -> AppView {
    let edit = |s: Seq<char>|
        match c {
            Some(ch) => s.push(ch),
            None => popped(s),
        };
    if a.field == Field::Password {
        AppView { password: edit(a.password), ..a }
    } else {
        AppView { confirm: edit(a.confirm), ..a }
    }
}

pub open spec fn mismatch_msg() -> Seq<char> {
    "The two passwords don't match. Try again."@
}

/// Enter on the passphrase step: a password is needed; encrypting, the first
/// Enter moves to the confirmation, and the two must match.
pub open spec fn passphrase_submitted(a: AppView, b: AppView, e: Ask) -> bool {
    if a.password.len() == 0 {
        noted(a, b, e, "Please type a password."@)
    } else if a.flow == Flow::Encrypt && a.field == Field::Password && a.confirm.len() == 0 {
        settles(b, e, AppView { field: Field::Confirm, ..a })
    } else if a.flow == Flow::Encrypt && a.password != a.confirm {
        settles(
            b,
            e,
            AppView {
                note: Some(mismatch_msg()),
                confirm: Seq::<char>::empty(),
                field: Field::Confirm,
                ..a
            },
        )
    } else {
        review_entered(a, b, e)
    }
}

pub open spec fn passphrase_key(a: AppView, key: Key, b: AppView, e: Ask) -> bool {
    if key.ctrl && key.code == KeyCode::Char('r') {
        settles(b, e, AppView { reveal: !a.reveal, ..a })
    } else if a.flow == Flow::Decrypt && a.backend == Backend::Age && key.ctrl && key.code
        == KeyCode::Char('k') {
        settles(b, e, AppView { text_input: Seq::<char>::empty(), step: Step::Identity, ..a })
    } else {
        match key.code {
            KeyCode::Esc => settles(
                b,
                e,
                AppView {
                    password: Seq::<char>::empty(),
                    confirm: Seq::<char>::empty(),
                    reveal: false,
                    step: Step::Browse,
                    ..a
                },
            ),
            KeyCode::Char(c) => settles(b, e, field_edited(a, Some(c))),
            KeyCode::Backspace => settles(b, e, field_edited(a, None)),
            KeyCode::Enter => passphrase_submitted(a, b, e),
            KeyCode::Tab | KeyCode::Down | KeyCode::Up => if a.flow == Flow::Encrypt {
                settles(
                    b,
                    e,
                    AppView {
                        field: if a.field == Field::Password {
                            Field::Confirm
                        } else {
                            Field::Password
                        },
                        ..a
                    },
                )
            } else {
                settles(b, e, a)
            },
            _ => settles(b, e, a),
        }
    }
}

/// The path typed on the recipient or identity step, resolved from home.
pub open spec fn typed_key_path(a: AppView) -> Seq<char> {
    spec_expand(trim(a.text_input), home_dir(a), a.home)
}

/// Keys shared by the two text-entry steps; `back` is where Esc goes and
/// Enter is handled by `submitted`.
pub open spec fn text_entry_key(a: AppView, code: KeyCode, b: AppView, e: Ask, back: Step, submitted: bool) -> bool {
    match code {
        KeyCode::Esc => settles(b, e, AppView { text_input: Seq::<char>::empty(), step: back, ..a }),
        KeyCode::Char(c) => settles(b, e, AppView { text_input: a.text_input.push(c), ..a }),
        KeyCode::Backspace => settles(b, e, AppView { text_input: popped(a.text_input), ..a }),
        KeyCode::Enter => submitted,
        _ => settles(b, e, a),
    }
}

pub open spec fn recipient_key(a: AppView, code: KeyCode, b: AppView, e: Ask) -> bool {
    text_entry_key(
        a,
        code,
        b,
        e,
        Step::Browse,
        if trim(a.text_input).len() == 0 {
            noted(a, b, e, "Paste the recipient's public key, or a key file path."@)
        } else {
            b == AppView { awaiting: Awaiting::KeyFile, ..a } && e == Ask::ReadKeyFile(typed_key_path(a))
        },
    )
}

pub open spec fn identity_key(a: AppView, code: KeyCode, b: AppView, e: Ask) -> bool {
    text_entry_key(
        a,
        code,
        b,
        e,
        Step::Passphrase,
        if trim(a.text_input).len() == 0 {
            noted(a, b, e, "Enter the path to your age key file."@)
        } else {
            b == AppView { awaiting: Awaiting::KeyFileCheck, ..a } && e == Ask::CheckFile(typed_key_path(a))
        },
    )
}

/// Where Esc on Review leads: back to whichever screen led there.
pub open spec fn review_back_step(a: AppView) -> Step {
    if a.flow == Flow::Encrypt {
        if a.backend == Backend::Age && a.age_method == AgeMethod::Recipients {
            Step::Recipient
        } else if a.backend == Backend::Zip {
            Step::Browse
        } else {
            Step::Passphrase
        }
    } else if a.identity is Some {
        Step::Identity
    } else {
        Step::Passphrase
    }
}

/// What a typed destination is taken relative to: encrypting, the folder of
/// the output; opening, the destination folder; else home.
pub open spec fn edit_base(a: AppView) -> Seq<char> {
    match a.output {
        Some(o) => if a.flow == Flow::Encrypt {
            match spec_parent(o) {
                Some(p) => p,
                None => home_dir(a),
            }
        } else {
            o
        },
        None => home_dir(a),
    }
}

/// Enter while editing the destination: a non-blank entry becomes the output.
pub open spec fn output_committed(a: AppView, b: AppView, e: Ask) -> bool {
    let c = AppView { editing_output: false, ..a };
    let raw = trim(a.output_input);
    if raw.len() == 0 {
        settles(b, e, c)
    } else {
        overwrite_checked(AppView { output: Some(spec_expand(raw, edit_base(a), a.home)), ..c }, b, e)
    }
}

/// Enter on Review: with a source and an output, the job is handed out (with
/// the password, which the wizard then forgets) and the Working step shown.
pub open spec fn job_started(a: AppView, b: AppView, e: Ask) -> bool {
    if a.source is None || a.output is None {
        settles(b, e, a)
    } else {
        &&& b == AppView {
            password: Seq::<char>::empty(),
            confirm: Seq::<char>::empty(),
            job_start: a.tick,
            step: Step::Working,
            job_running: true,
            ..a
        }
        &&& e == Ask::StartJob(
            JobView {
                flow: a.flow,
                backend: a.backend,
                sources: if a.bundle.len() > 0 {
                    a.bundle
                } else {
                    seq![a.source->0]
                },
                output: a.output->0,
                password: a.password,
                level: a.level,
                age_method: a.age_method,
                recipients: a.recipients,
                identity: a.identity,
            },
        )
    }
}

pub open spec fn review_key(a: AppView, code: KeyCode, b: AppView, e: Ask) -> bool {
    if a.editing_output {
        match code {
            KeyCode::Esc => settles(b, e, AppView { editing_output: false, ..a }),
            KeyCode::Enter => output_committed(a, b, e),
            KeyCode::Char(c) => settles(b, e, AppView { output_input: a.output_input.push(c), ..a }),
            KeyCode::Backspace => settles(b, e, AppView { output_input: popped(a.output_input), ..a }),
            _ => settles(b, e, a),
        }
    } else if code == KeyCode::Char('e') {
        settles(
            b,
            e,
            AppView {
                output_input: match a.output {
                    Some(o) => o,
                    None => Seq::<char>::empty(),
                },
                editing_output: true,
                ..a
            },
        )
    } else if code == KeyCode::Esc {
        settles(b, e, AppView { step: review_back_step(a), ..a })
    } else if code == KeyCode::Enter {
        job_started(a, b, e)
    } else {
        settles(b, e, a)
    }
}

pub open spec fn finished_key(a: AppView, code: KeyCode, b: AppView, e: Ask) -> bool {
    if code == KeyCode::Char('q') || code == KeyCode::Esc {
        settles(b, e, AppView { quit: true, ..a })
    } else if code == KeyCode::Enter {
        settles(
            b,
            e,
            AppView {
                outcome: None,
                source: None,
                bundle: Seq::<Seq<char>>::empty(),
                output: None,
                menu: 0,
                step: Step::Welcome,
                ..lock_reset(a)
            },
        )
    } else {
        settles(b, e, a)
    }
}

/// What a key does on the current screen (the note already cleared).
pub open spec fn screen_key(a: AppView, key: Key, b: AppView, e: Ask) -> bool {
    match a.step {
        Step::Welcome => welcome_key(a, key.code, b, e),
        Step::ChooseBackend => backend_key(a, key.code, b, e),
        Step::AgeMethod => age_method_key(a, key.code, b, e),
        Step::Compression => compression_key(a, key.code, b, e),
        Step::Browse => browse_key(a, key.code, b, e),
        Step::Recipient => recipient_key(a, key.code, b, e),
        Step::Passphrase => passphrase_key(a, key, b, e),
        Step::Identity => identity_key(a, key.code, b, e),
        Step::Review => review_key(a, key.code, b, e),
        Step::Working => settles(b, e, a),
        Step::Finished => finished_key(a, key.code, b, e),
    }
}

/// What a key does: Ctrl-C quits from anywhere; any other key clears the
/// note and acts on the current screen. Either way an answer awaited before
/// is no longer awaited.
pub open spec fn key_pressed(a: AppView, key: Key, b: AppView, e: Ask) -> bool {
    let idle = AppView { awaiting: Awaiting::Idle, ..a };
    if key.ctrl && key.code == KeyCode::Char('c') {
        settles(b, e, AppView { quit: true, ..idle })
    } else {
        screen_key(AppView { note: None, ..idle }, key, b, e)
    }
}

/// The recipients listed in a key file's lines: each line trimmed, without
/// blank lines and `#` comments.
pub open spec fn recipient_lines(ls: Seq<Seq<char>>) -> Seq<Seq<char>>
    decreases ls.len(),
{
    if ls.len() == 0 {
        Seq::<Seq<char>>::empty()
    } else {
        let rest = recipient_lines(ls.drop_last());
        let l = trim(ls.last());
        if l.len() > 0 && l[0] != '#' {
            rest.push(l)
        } else {
            rest
        }
    }
}

/// The answer about a path typed into the browser: a folder is entered, an
/// acceptable file chosen, and anything else noted.
pub open spec fn path_resolved(a: AppView, k: PathKind, b: AppView, e: Ask) -> bool {
    let t = query_target_of(a.browser);
    if k == PathKind::Dir {
        jumped(a.browser, b.browser, t) && browser_only(a, b, e)
    } else if k == PathKind::File && allowed(a.browser.only_v(), t) {
        path_chosen(a, t, b, e)
    } else if is_path_query(a.browser.query_v()) {
        noted(a, b, e, "No file or folder at that path."@)
    } else {
        settles(b, e, a)
    }
}

/// The answer about the recipient key file: not a file means the text is the
/// key; otherwise its listed recipients are used, when it has any.
pub open spec fn key_file_read(a: AppView, kf: KeyFile, b: AppView, e: Ask) -> bool {
    let raw = trim(a.text_input);
    match kf {
        KeyFile::NotAFile => review_entered(AppView { recipients: seq![raw], ..a }, b, e),
        KeyFile::Unreadable => noted(a, b, e, "Could not read that key file."@),
        KeyFile::Text(t) => {
            let v = recipient_lines(spec_lines(t@));
            if v.len() == 0 {
                noted(a, b, e, "That key file has no recipients in it."@)
            } else {
                review_entered(AppView { recipients: v, ..a }, b, e)
            }
        },
    }
}

/// What an answer does, given what was awaited; an answer not awaited is
/// ignored. Either way nothing is awaited any more unless asked again.
pub open spec fn answered(a: AppView, reply: Reply, b: AppView, e: Ask) -> bool {
    let i = AppView { awaiting: Awaiting::Idle, ..a };
    match (a.awaiting, reply) {
        (Awaiting::PathKind, Reply::Kind(k)) => path_resolved(i, k, b, e),
        (Awaiting::Encryption, Reply::Encrypted(x)) => if x {
            settles(b, e, AppView { step: Step::Passphrase, ..i })
        } else {
            review_entered(i, b, e)
        },
        (Awaiting::Existence, Reply::Exists(x)) => settles(
            b,
            e,
            AppView { will_overwrite: i.flow == Flow::Encrypt && x, ..i },
        ),
        (Awaiting::KeyFile, Reply::KeyFile(kf)) => key_file_read(i, kf, b, e),
        (Awaiting::KeyFileCheck, Reply::IsFile(x)) => if x {
            review_entered(AppView { identity: Some(typed_key_path(i)), ..i }, b, e)
        } else {
            noted(i, b, e, "No key file at that path."@)
        },
        _ => settles(b, e, i),
    }
}

/// Each question the wizard asks is the answer it then awaits; otherwise it
/// awaits none.
pub open spec fn awaits_its_answer(b: AppView, e: Ask) -> bool {
    match e {
        Ask::Nothing => b.awaiting == Awaiting::Idle,
        Ask::StartJob(_) => b.awaiting == Awaiting::Idle,
        Ask::CheckPath(_) => b.awaiting == Awaiting::PathKind,
        Ask::ProbeArchive(_) => b.awaiting == Awaiting::Encryption,
        Ask::CheckExists(_) => b.awaiting == Awaiting::Existence,
        Ask::ReadKeyFile(_) => b.awaiting == Awaiting::KeyFile,
        Ask::CheckFile(_) => b.awaiting == Awaiting::KeyFileCheck,
    }
}

/// On the Review screen, the overwrite warning is raised only when locking:
/// opening relocates under a free name and never overwrites.
pub open spec fn overwrite_only_when_locking(a: AppView) -> bool {
    a.step == Step::Review && a.will_overwrite ==> a.flow == Flow::Encrypt
}

proof fn lemma_path_chosen_awaits(a: AppView, p: Seq<char>, b: AppView, e: Ask)
    requires
        path_chosen(a, p, b, e),
        a.awaiting == Awaiting::Idle,
    ensures
        awaits_its_answer(b, e),
        overwrite_only_when_locking(a) ==> overwrite_only_when_locking(b),
{
}

proof fn lemma_bundle_chosen_awaits(a: AppView, items: Seq<Seq<char>>, b: AppView, e: Ask)
    requires
        bundle_chosen(a, items, b, e),
        a.awaiting == Awaiting::Idle,
    ensures
        awaits_its_answer(b, e),
        overwrite_only_when_locking(b),
{
}

proof fn lemma_browse_open_awaits(a: AppView, b: AppView, e: Ask)
    requires
        browse_open(a, b, e),
        a.awaiting == Awaiting::Idle,
    ensures
        awaits_its_answer(b, e),
        overwrite_only_when_locking(a) ==> overwrite_only_when_locking(b),
{
    if !is_path_query(a.browser.query_v()) {
        if a.flow == Flow::Encrypt && a.browser.marked_v().len() > 0 {
            lemma_bundle_chosen_awaits(a, a.browser.marked_v(), b, e);
        } else {
            match a.browser.current_row() {
                Some((RowKind::UseCurrent, _)) => lemma_path_chosen_awaits(a, a.browser.cwd_v(), b, e),
                Some((RowKind::File, p)) => lemma_path_chosen_awaits(a, p, b, e),
                _ => {},
            }
        }
    }
}

/// Every key leaves the wizard awaiting exactly the answer it asked for.
pub proof fn lemma_key_awaits_its_answer(a: AppView, key: Key, b: AppView, e: Ask)
    requires
        key_pressed(a, key, b, e),
    ensures
        awaits_its_answer(b, e),
{
    let c = AppView { note: None, awaiting: Awaiting::Idle, ..a };
    if !(key.ctrl && key.code == KeyCode::Char('c')) && c.step == Step::Browse && (key.code
        == KeyCode::Enter || key.code == KeyCode::Right) {
        lemma_browse_open_awaits(c, b, e);
    }
}

/// Every answer leaves the wizard awaiting exactly the answer it asked for next.
pub proof fn lemma_answer_awaits_its_answer(a: AppView, reply: Reply, b: AppView, e: Ask)
    requires
        answered(a, reply, b, e),
    ensures
        awaits_its_answer(b, e),
{
    let i = AppView { awaiting: Awaiting::Idle, ..a };
    match (a.awaiting, reply) {
        (Awaiting::PathKind, Reply::Kind(k)) => {
            let t = query_target_of(i.browser);
            if k != PathKind::Dir && k == PathKind::File && allowed(i.browser.only_v(), t) {
                lemma_path_chosen_awaits(i, t, b, e);
            }
        },
        _ => {},
    }
}

/// Handing out a job leaves no password in the wizard, which shows the
/// Working screen.
pub proof fn lemma_started_job_forgets_password(a: AppView, key: Key, b: AppView, e: Ask)
    requires
        key_pressed(a, key, b, e),
        e is StartJob,
    ensures
        b.password.len() == 0,
        b.confirm.len() == 0,
        b.step == Step::Working,
        b.job_running,
{
    let c = AppView { note: None, awaiting: Awaiting::Idle, ..a };
    lemma_key_awaits_its_answer(a, key, b, e);
    if !(key.ctrl && key.code == KeyCode::Char('c')) && c.step == Step::Browse && (key.code
        == KeyCode::Enter || key.code == KeyCode::Right) {
        lemma_browse_open_awaits(c, b, e);
    }
}

/// No key raises the overwrite warning on Review when opening an archive.
pub proof fn lemma_key_keeps_overwrite_for_locking(a: AppView, key: Key, b: AppView, e: Ask)
    requires
        key_pressed(a, key, b, e),
        overwrite_only_when_locking(a),
    ensures
        overwrite_only_when_locking(b),
{
    let c = AppView { note: None, awaiting: Awaiting::Idle, ..a };
    if !(key.ctrl && key.code == KeyCode::Char('c')) && c.step == Step::Browse && (key.code
        == KeyCode::Enter || key.code == KeyCode::Right) {
        lemma_browse_open_awaits(c, b, e);
    }
}

/// No answer raises the overwrite warning on Review when opening an archive.
pub proof fn lemma_answer_keeps_overwrite_for_locking(a: AppView, reply: Reply, b: AppView, e: Ask)
    requires
        answered(a, reply, b, e),
        overwrite_only_when_locking(a),
    ensures
        overwrite_only_when_locking(b),
{
    let i = AppView { awaiting: Awaiting::Idle, ..a };
    match (a.awaiting, reply) {
        (Awaiting::PathKind, Reply::Kind(k)) => {
            let t = query_target_of(i.browser);
            if k != PathKind::Dir && k == PathKind::File && allowed(i.browser.only_v(), t) {
                lemma_path_chosen_awaits(i, t, b, e);
            }
        },
        _ => {},
    }
}

/// Zip only compresses: locking with it never asks for a password, and goes
/// from the chosen file straight to Review.
pub proof fn lemma_zip_skips_password(a: AppView, p: Seq<char>, b: AppView, e: Ask)
    requires
        path_chosen(a, p, b, e),
        a.flow == Flow::Encrypt,
        a.backend == Backend::Zip,
    ensures
        b.step == Step::Review,
        b.password.len() == 0,
        b.confirm.len() == 0,
{
}

/// The level fixed on leaving the compression step is always 0 to 9.
pub proof fn lemma_chosen_level_in_range(a: AppView)
    ensures
        chosen_level(a) <= 9,
{
}

/// For 7z and zip, the level typed on the compression step is the one used
/// when it is a number (decimal digits, surrounding spaces ignored) that fits
/// a byte: as typed up to 9, and 9 above that; a single digit `d`, `0` (no
/// compression) included, gives exactly `d`. The level is fixed so on
/// leaving the step.
pub proof fn lemma_typed_level_is_kept(a: AppView, b: AppView, e: Ask)
    requires
        a.backend != Backend::Age,
        compression_confirmed(a, b, e),
    ensures
        ({
            let t = trim(a.level_input);
            t.len() > 0 && (forall|i: int| 0 <= i < t.len() ==> is_digit(#[trigger] t[i]))
                && digits_value(t) <= 255 ==> b.level == (if digits_value(t) > 9 {
                9
            } else {
                digits_value(t)
            })
        }),
        forall|c: char|
            '0' <= c <= '9' && trim(a.level_input) == seq![c] ==> b.level == (c as int) - ('0' as int),
{
    let t = trim(a.level_input);
    if t.len() > 0 && (forall|i: int| 0 <= i < t.len() ==> is_digit(#[trigger] t[i])) {
        assert(is_digit(t[0]));
        assert(unsigned_body(t) == t);
    }
    assert forall|c: char| '0' <= c <= '9' && trim(a.level_input) == seq![c] implies b.level == (c as int) - ('0' as int) by {
        assert(t[0] == c);
        assert(is_digit(t[0]));
        assert(unsigned_body(t) == t);
        assert(t.drop_last() =~= Seq::<char>::empty());
        assert(digits_value(t.drop_last()) == 0);
        assert(t.last() == c);
        assert(digits_value(t) == (c as int) - ('0' as int));
        assert(forall|i: int| 0 <= i < t.len() ==> is_digit(#[trigger] t[i]));
    }
}

/// Ctrl-C quits from every screen.
pub proof fn lemma_ctrl_c_quits(a: AppView, key: Key, b: AppView, e: Ask)
    requires
        key_pressed(a, key, b, e),
        key.ctrl,
        key.code == KeyCode::Char('c'),
    ensures
        b.quit,
        e == Ask::Nothing,
{
}

/// Wipes a string before emptying it, through `zeroize::Zeroize` for `String`:
/// the crate overwrites the string's bytes with zeros and then clears it, so it
/// is empty afterwards. Copies left behind by earlier reallocations are not
/// reached, as the crate's documentation says.
#[verifier::external_body]
fn wipe(s: &mut String)
    ensures
        final(s)@ == Seq::<char>::empty(),
{
    zeroize::Zeroize::zeroize(s);
}


fn not_installed_note(b: Backend) -> (r: String)
    ensures
        r@ == not_installed_msg(b),
{
    let mut m = owned(b.title());
    push_str(&mut m, " is not installed yet. ");
    push_str(&mut m, b.install_hint());
    m
}

fn needs_tool_note(b: Backend) -> (r: String)
    ensures
        r@ == needs_tool_msg(b),
{
    let mut m = owned("Opening this file needs ");
    push_str(&mut m, b.title());
    push_str(&mut m, ". ");
    push_str(&mut m, b.install_hint());
    m
}

/// The recipients a key file lists: its lines trimmed, without blank lines
/// and `#` comments.
fn recipients_in(t: &String) -> (r: Vec<String>)
    ensures
        strs(r@) == recipient_lines(spec_lines(t@)),
{
    let ls = lines_of(&chars_of(t.as_str()));
    let ghost lv = views(ls@);
    let mut r: Vec<String> = Vec::new();
    let mut k: usize = 0;
    while k < ls.len()
        invariant
            k <= ls.len(),
            lv == views(ls@),
            lv == spec_lines(t@),
            strs(r@) == recipient_lines(lv.take(k as int)),
        decreases ls.len() - k,
    {
        let l = trim_chars(&ls[k]);
        assert(lv.take(k + 1).drop_last() =~= lv.take(k as int));
        assert(lv.take(k + 1).last() == ls@[k as int]@);
        if l.len() > 0 && l[0] != '#' {
            let ghost before = strs(r@);
            r.push(string_of(&l));
            assert(strs(r@) =~= before.push(l@));
        }
        k += 1;
    }
    assert(lv.take(ls.len() as int) =~= lv);
    r
}

fn opt_clone(o: &Option<String>) -> (r: Option<String>)
    ensures
        opt_view(r) == opt_view(*o),
{
    match o {
        Some(s) => Some(s.clone()),
        None => None,
    }
}

fn clone_strings(v: &Vec<String>) -> (r: Vec<String>)
    ensures
        strs(r@) == strs(v@),
{
    let mut r: Vec<String> = Vec::new();
    let mut k: usize = 0;
    while k < v.len()
        invariant
            k <= v.len(),
            strs(r@) == strs(v@).take(k as int),
        decreases v.len() - k,
    {
        let ghost before = strs(r@);
        r.push(v[k].clone());
        assert(strs(r@) =~= before.push(v@[k as int]@));
        assert(strs(v@).take(k + 1) =~= strs(v@).take(k as int).push(v@[k as int]@));
        k += 1;
    }
    assert(strs(v@).take(v.len() as int) =~= strs(v@));
    r
}

impl App {
    /// A wizard on the welcome screen, browsing from `home` (the root when it
    /// is not known) and using the tools in `tools`.
    pub fn new(home: Option<String>, tools: ToolSearch) -> (r: Self)
        ensures
            r@.step == Step::Welcome,
            r@.flow == Flow::Encrypt,
            r@.backend == Backend::Age,
            r@.level == 5,
            r@.level_input == "5"@,
            r@.menu == 0,
            fresh_browser(r@.browser, home_dir(r@), None, opt_view(home)),
            r@.password == Seq::<char>::empty(),
            r@.confirm == Seq::<char>::empty(),
            r@.field == Field::Password,
            r@.source is None,
            r@.bundle == Seq::<Seq<char>>::empty(),
            r@.output is None,
            r@.age_method == AgeMethod::Password,
            r@.recipients == Seq::<Seq<char>>::empty(),
            r@.identity is None,
            r@.text_input == Seq::<char>::empty(),
            r@.note is None,
            !r@.will_overwrite,
            !r@.editing_output,
            r@.output_input == Seq::<char>::empty(),
            !r@.reveal,
            r@.tick == 0,
            r@.job_start == 0,
            r@.outcome is None,
            !r@.quit,
            r@.tools == tools,
            r@.home == opt_view(home),
            r@.awaiting == Awaiting::Idle,
            !r@.job_running,
    {
        let start = match &home {
            Some(h) => h.clone(),
            None => owned("/"),
        };
        let browser = Browser::new(start, None, opt_clone(&home));
        let r = App {
            step: Step::Welcome,
            flow: Flow::Encrypt,
            backend: Backend::Age,
            level: 5,
            level_input: owned("5"),
            menu: 0,
            browser,
            password: String::new(),
            confirm: String::new(),
            field: Field::Password,
            source: None,
            bundle: Vec::new(),
            output: None,
            age_method: AgeMethod::Password,
            recipients: Vec::new(),
            identity: None,
            text_input: String::new(),
            note: None,
            will_overwrite: false,
            editing_output: false,
            output_input: String::new(),
            reveal: false,
            tick: 0,
            job_start: 0,
            outcome: None,
            quit: false,
            tools,
            home,
            awaiting: Awaiting::Idle,
            job_running: false,
        };
        assert(strs(r.recipients@) =~= Seq::<Seq<char>>::empty());
        assert(strs(r.bundle@) =~= Seq::<Seq<char>>::empty());
        r
    }

    /// The folder browsing starts from.
    fn home_dir(&self) -> (r: String)
        ensures
            r@ == home_dir(self@),
    {
        match &self.home {
            Some(h) => h.clone(),
            None => owned("/"),
        }
    }

    /// Forget any age recipients/identity and reset to password mode (called
    /// when starting a fresh encrypt or decrypt).
    fn reset_lock_state(&mut self)
        ensures
            final(self)@ == lock_reset(old(self)@),
    {
        self.age_method = AgeMethod::Password;
        self.recipients.clear();
        clear_string(&mut self.text_input);
        self.identity = None;
        assert(strs(self.recipients@) =~= Seq::<Seq<char>>::empty());
    }

    fn back_to_welcome(&mut self)
        ensures
            final(self)@ == welcomed(old(self)@),
    {
        self.menu = 0;
        self.step = Step::Welcome;
    }

    /// Flag whether the chosen output already exists (encrypt only: opening
    /// relocates under a non-colliding name and never clobbers). The flag is
    /// cleared until the answer comes.
    fn recompute_overwrite(&mut self) -> (r: Effect)
        ensures
            overwrite_checked(old(self)@, final(self)@, r@),
    {
        self.will_overwrite = false;
        if self.flow == Flow::Encrypt {
            match &self.output {
                Some(o) => {
                    let o = o.clone();
                    self.awaiting = Awaiting::Existence;
                    return Effect::CheckExists(o);
                },
                None => {},
            }
        }
        Effect::Nothing
    }

    /// Move to the Review screen, flagging whether confirming would overwrite
    /// an existing output.
    fn enter_review(&mut self) -> (r: Effect)
        ensures
            review_entered(old(self)@, final(self)@, r@),
    {
        self.reveal = false;
        self.editing_output = false;
        self.step = Step::Review;
        self.recompute_overwrite()
    }

    /// Set up the compression step: age picks from presets via `menu`, 7z/zip
    /// type a level into `level_input`.
    fn enter_compression(&mut self)
        ensures
            final(self)@ == compression_entered(old(self)@),
    {
        self.menu = 0;
        self.level_input = owned("5");
        self.step = Step::Compression;
    }

    /// Fix the compression level from the step's state and move on to browsing.
    pub fn confirm_compression(&mut self)
        ensures
            compression_confirmed(old(self)@, final(self)@, Ask::Nothing),
    {
        self.level = match self.backend {
            Backend::Age => if self.menu == 0 {
                0
            } else if self.menu == 1 {
                6
            } else {
                9
            },
            _ => {
                let typed = string_of(&trim_chars(&chars_of(self.level_input.as_str())));
                match parse_u8(typed.as_str()) {
                    Some(n) => if n > 9 {
                        9
                    } else {
                        n
                    },
                    None => 5,
                }
            },
        };
        let home = opt_clone(&self.home);
        self.browser = Browser::new(self.home_dir(), None, home);
        self.step = Step::Browse;
    }

    /// Wipe the passwords typed so far and forget any bundle.
    fn wipe_entries(&mut self)
        ensures
            final(self)@ == wiped(old(self)@),
    {
        wipe(&mut self.password);
        wipe(&mut self.confirm);
        self.field = Field::Password;
        self.bundle = Vec::new();
        assert(strs(self.bundle@) =~= Seq::<Seq<char>>::empty());
    }

    /// The step after choosing what to lock.
    fn after_choosing(&mut self) -> (r: Effect)
        ensures
            locking_next(old(self)@, final(self)@, r@),
    {
        if self.backend == Backend::Age && self.age_method == AgeMethod::Recipients {
            clear_string(&mut self.text_input);
            self.step = Step::Recipient;
            Effect::Nothing
        } else if self.backend == Backend::Zip {
            self.enter_review()
        } else {
            self.step = Step::Passphrase;
            Effect::Nothing
        }
    }

    /// Lock the marked `items` together.
    fn choose_bundle(&mut self, items: Vec<String>) -> (r: Effect)
        requires
            items.len() > 0,
        ensures
            bundle_chosen(old(self)@, strs(items@), final(self)@, r@),
    {
        self.wipe_entries();
        self.output = Some(suggested_output_multi(&items, self.backend));
        self.source = Some(items[0].clone());
        self.bundle = items;
        self.after_choosing()
    }

    /// Act on the path chosen on the browse step.
    pub fn choose_path(&mut self, path: String) -> (r: Effect)
        ensures
            path_chosen(old(self)@, path@, final(self)@, r@),
    {
        self.wipe_entries();
        match self.flow {
            Flow::Encrypt => {
                self.output = Some(suggested_output(path.as_str(), self.backend));
                self.source = Some(path);
                self.after_choosing()
            },
            Flow::Decrypt => {
                match backend_for(path.as_str()) {
                    Ok(b) => {
                        if b.locate(&self.tools).is_none() {
                            self.note = Some(needs_tool_note(b));
                            return Effect::Nothing;
                        }
                        self.backend = b;
                    },
                    Err(m) => {
                        self.note = Some(m);
                        return Effect::Nothing;
                    },
                }
                self.output = parent(path.as_str());
                let probe = path.clone();
                self.source = Some(path);
                self.awaiting = Awaiting::Encryption;
                Effect::ProbeArchive(probe)
            },
        }
    }

    fn on_welcome(&mut self, code: KeyCode) -> (r: Effect)
        ensures
            welcome_key(old(self)@, code, final(self)@, r@),
    {
        match code {
            KeyCode::Up => self.menu = if self.menu == 0 {
                0
            } else {
                self.menu - 1
            },
            KeyCode::Down => self.menu = if self.menu >= 2 {
                2
            } else {
                self.menu + 1
            },
            KeyCode::Char('q') => self.quit = true,
            KeyCode::Enter => {
                if self.menu == 0 {
                    self.flow = Flow::Encrypt;
                    self.menu = 0;
                    self.reset_lock_state();
                    self.step = Step::ChooseBackend;
                } else if self.menu == 1 {
                    self.flow = Flow::Decrypt;
                    self.reset_lock_state();
                    let exts = vec![owned("age"), owned("7z"), owned("zip")];
                    assert(strs(exts@) =~= archive_exts());
                    let home = opt_clone(&self.home);
                    self.browser = Browser::new(self.home_dir(), Some(exts), home);
                    self.step = Step::Browse;
                } else {
                    self.quit = true;
                }
            },
            _ => {},
        }
        Effect::Nothing
    }

    fn on_choose_backend(&mut self, code: KeyCode) -> (r: Effect)
        ensures
            backend_key(old(self)@, code, final(self)@, r@),
    {
        match code {
            KeyCode::Up => self.menu = if self.menu == 0 {
                0
            } else {
                self.menu - 1
            },
            KeyCode::Down => self.menu = if self.menu >= 2 {
                2
            } else {
                self.menu + 1
            },
            KeyCode::Esc => self.back_to_welcome(),
            KeyCode::Enter => return self.pick_backend(),
            _ => {},
        }
        Effect::Nothing
    }

    fn pick_backend(&mut self) -> (r: Effect)
        ensures
            backend_picked(old(self)@, final(self)@, r@),
    {
        let backend = if self.menu == 0 {
            Backend::Age
        } else if self.menu == 1 {
            Backend::SevenZip
        } else {
            Backend::Zip
        };
        if backend.locate(&self.tools).is_none() {
            self.note = Some(not_installed_note(backend));
            return Effect::Nothing;
        }
        self.backend = backend;
        // age can also lock for a recipient; other backends go straight
        // to the compression step.
        if backend == Backend::Age {
            self.menu = 0;
            self.step = Step::AgeMethod;
        } else {
            self.enter_compression();
        }
        Effect::Nothing
    }

    fn on_age_method(&mut self, code: KeyCode) -> (r: Effect)
        ensures
            age_method_key(old(self)@, code, final(self)@, r@),
    {
        match code {
            KeyCode::Up => self.menu = if self.menu == 0 {
                0
            } else {
                self.menu - 1
            },
            KeyCode::Down => self.menu = if self.menu >= 1 {
                1
            } else {
                self.menu + 1
            },
            KeyCode::Esc => self.step = Step::ChooseBackend,
            KeyCode::Enter => {
                self.age_method = if self.menu == 0 {
                    AgeMethod::Password
                } else {
                    AgeMethod::Recipients
                };
                self.enter_compression();
            },
            _ => {},
        }
        Effect::Nothing
    }

    fn on_compression(&mut self, code: KeyCode) -> (r: Effect)
        ensures
            compression_key(old(self)@, code, final(self)@, r@),
    {
        if self.backend == Backend::Age {
            match code {
                KeyCode::Up => self.menu = if self.menu == 0 {
                    0
                } else {
                    self.menu - 1
                },
                KeyCode::Down => self.menu = if self.menu >= 2 {
                    2
                } else {
                    self.menu + 1
                },
                KeyCode::Esc => self.step = Step::AgeMethod,
                KeyCode::Enter => self.confirm_compression(),
                _ => {},
            }
        } else {
            // 7z / zip: type a single 0–9 digit (last one wins).
            match code {
                KeyCode::Char(c) => {
                    if '0' <= c && c <= '9' {
                        let mut d = String::new();
                        push_char(&mut d, c);
                        self.level_input = d;
                    }
                },
                KeyCode::Backspace => clear_string(&mut self.level_input),
                KeyCode::Esc => self.step = Step::ChooseBackend,
                KeyCode::Enter => self.confirm_compression(),
                _ => {},
            }
        }
        Effect::Nothing
    }

    /// Enter (or Right) on the browse step.
    fn browse_open(&mut self) -> (r: Effect)
        ensures
            browse_open(old(self)@, final(self)@, r@),
    {
        if self.browser.is_path_query() {
            self.awaiting = Awaiting::PathKind;
            return Effect::CheckPath(self.browser.query_target());
        }
        if self.flow == Flow::Encrypt && self.browser.marked().len() > 0 {
            let items = clone_strings(self.browser.marked());
            return self.choose_bundle(items);
        }
        match self.browser.activate() {
            Action::Chosen(path) => self.choose_path(path),
            _ => Effect::Nothing,
        }
    }

    fn on_browse(&mut self, code: KeyCode) -> (r: Effect)
        ensures
            browse_key(old(self)@, code, final(self)@, r@),
    {
        match code {
            // Tab toggles hidden (dot) files; the footer advertises it.
            KeyCode::Tab => self.browser.toggle_hidden(),
            KeyCode::Up => self.browser.move_up(),
            KeyCode::Down => self.browser.move_down(),
            KeyCode::Left => self.browser.go_up(),
            KeyCode::Char(c) => {
                // Space marks items to lock together, except inside a typed path.
                if c == ' ' && !self.browser.is_path_query() {
                    self.browser.toggle_mark();
                } else {
                    self.browser.push_query(c);
                }
            },
            KeyCode::Backspace => {
                if self.browser.query().as_str().is_empty() {
                    self.browser.go_up();
                } else {
                    self.browser.pop_query();
                }
            },
            KeyCode::Esc => {
                if !self.browser.query().as_str().is_empty() {
                    self.browser.clear_query();
                } else {
                    match self.flow {
                        Flow::Encrypt => self.step = Step::Compression,
                        Flow::Decrypt => self.back_to_welcome(),
                    }
                }
            },
            KeyCode::Enter | KeyCode::Right => return self.browse_open(),
            _ => {},
        }
        Effect::Nothing
    }

    fn submit_passphrase(&mut self) -> (r: Effect)
        ensures
            passphrase_submitted(old(self)@, final(self)@, r@),
    {
        if self.password.as_str().is_empty() {
            self.note = Some(owned("Please type a password."));
            return Effect::Nothing;
        }
        if self.flow == Flow::Encrypt {
            // Let the first Enter move from the password field to confirm.
            if self.field == Field::Password && self.confirm.as_str().is_empty() {
                self.field = Field::Confirm;
                return Effect::Nothing;
            }
            if self.password != self.confirm {
                self.note = Some(owned("The two passwords don't match. Try again."));
                wipe(&mut self.confirm);
                self.field = Field::Confirm;
                return Effect::Nothing;
            }
        }
        self.enter_review()
    }

    fn on_passphrase(&mut self, key: Key) -> (r: Effect)
        ensures
            passphrase_key(old(self)@, key, final(self)@, r@),
    {
        // Ctrl-R reveals/hides the typed password so a user can check it.
        if key.ctrl && key.code == KeyCode::Char('r') {
            self.reveal = !self.reveal;
            return Effect::Nothing;
        }
        // Ctrl-K: open a recipient-encrypted age archive with a key file instead.
        if self.flow == Flow::Decrypt && self.backend == Backend::Age && key.ctrl && key.code
            == KeyCode::Char('k') {
            clear_string(&mut self.text_input);
            self.step = Step::Identity;
            return Effect::Nothing;
        }
        match key.code {
            KeyCode::Esc => {
                wipe(&mut self.password);
                wipe(&mut self.confirm);
                self.reveal = false;
                self.step = Step::Browse;
            },
            KeyCode::Char(c) => match self.field {
                Field::Password => push_char(&mut self.password, c),
                Field::Confirm => push_char(&mut self.confirm, c),
            },
            KeyCode::Backspace => match self.field {
                Field::Password => pop_char(&mut self.password),
                Field::Confirm => pop_char(&mut self.confirm),
            },
            KeyCode::Tab | KeyCode::Down | KeyCode::Up => {
                if self.flow == Flow::Encrypt {
                    self.field = match self.field {
                        Field::Password => Field::Confirm,
                        Field::Confirm => Field::Password,
                    };
                }
            },
            KeyCode::Enter => return self.submit_passphrase(),
            _ => {},
        }
        Effect::Nothing
    }

    /// The trimmed text of the recipient/identity entry.
    fn typed_text(&self) -> (r: String)
        ensures
            r@ == trim(self@.text_input),
    {
        string_of(&trim_chars(&chars_of(self.text_input.as_str())))
    }

    /// That text as a path, taken from home.
    fn typed_path(&self) -> (r: String)
        ensures
            r@ == typed_key_path(self@),
    {
        let raw = self.typed_text();
        let home: Option<&str> = match &self.home {
            Some(h) => Some(h.as_str()),
            None => None,
        };
        expand_path(raw.as_str(), self.home_dir().as_str(), home)
    }

    /// Keys shared by the recipient and identity entries (Enter excepted).
    fn edit_text(&mut self, code: KeyCode, back: Step)
        requires
            code != KeyCode::Enter,
        ensures
            text_entry_key(old(self)@, code, final(self)@, Ask::Nothing, back, true),
    {
        match code {
            KeyCode::Esc => {
                clear_string(&mut self.text_input);
                self.step = back;
            },
            KeyCode::Char(c) => push_char(&mut self.text_input, c),
            KeyCode::Backspace => pop_char(&mut self.text_input),
            _ => {},
        }
    }

    fn on_recipient(&mut self, code: KeyCode) -> (r: Effect)
        ensures
            recipient_key(old(self)@, code, final(self)@, r@),
    {
        if code == KeyCode::Enter {
            if self.typed_text().as_str().is_empty() {
                self.note = Some(owned("Paste the recipient's public key, or a key file path."));
                return Effect::Nothing;
            }
            // A path to a key file lists its recipients; otherwise it's a literal key.
            let path = self.typed_path();
            self.awaiting = Awaiting::KeyFile;
            return Effect::ReadKeyFile(path);
        }
        self.edit_text(code, Step::Browse);
        Effect::Nothing
    }

    fn on_identity(&mut self, code: KeyCode) -> (r: Effect)
        ensures
            identity_key(old(self)@, code, final(self)@, r@),
    {
        if code == KeyCode::Enter {
            if self.typed_text().as_str().is_empty() {
                self.note = Some(owned("Enter the path to your age key file."));
                return Effect::Nothing;
            }
            let path = self.typed_path();
            self.awaiting = Awaiting::KeyFileCheck;
            return Effect::CheckFile(path);
        }
        self.edit_text(code, Step::Passphrase);
        Effect::Nothing
    }

    /// Apply the typed destination. A relative path resolves against the folder
    /// the file/extraction was already headed for (encrypt: the output's parent;
    /// decrypt: the destination folder itself); `~` and absolute paths override.
    fn commit_output_edit(&mut self) -> (r: Effect)
        ensures
            output_committed(old(self)@, final(self)@, r@),
    {
        self.editing_output = false;
        let raw = string_of(&trim_chars(&chars_of(self.output_input.as_str())));
        if raw.as_str().is_empty() {
            return Effect::Nothing;
        }
        let base = match &self.output {
            Some(o) => match self.flow {
                Flow::Encrypt => match parent(o.as_str()) {
                    Some(p) => p,
                    None => self.home_dir(),
                },
                Flow::Decrypt => o.clone(),
            },
            None => self.home_dir(),
        };
        let home: Option<&str> = match &self.home {
            Some(h) => Some(h.as_str()),
            None => None,
        };
        self.output = Some(expand_path(raw.as_str(), base.as_str(), home));
        self.recompute_overwrite()
    }

    /// Hand the job out: the password goes with it and the wizard forgets it.
    fn start_job(&mut self) -> (r: Effect)
        ensures
            job_started(old(self)@, final(self)@, r@),
    {
        let (sources, output) = match (&self.source, &self.output) {
            (Some(s), Some(o)) => {
                let sources = if self.bundle.len() > 0 {
                    clone_strings(&self.bundle)
                } else {
                    let v = vec![s.clone()];
                    assert(strs(v@) =~= seq![s@]);
                    v
                };
                (sources, o.clone())
            },
            _ => return Effect::Nothing,
        };
        let mut password = String::new();
        std::mem::swap(&mut password, &mut self.password);
        wipe(&mut self.confirm);
        let job = Job {
            flow: self.flow,
            backend: self.backend,
            sources,
            output,
            password,
            level: self.level,
            age_method: self.age_method,
            recipients: clone_strings(&self.recipients),
            identity: opt_clone(&self.identity),
        };
        self.job_start = self.tick;
        self.job_running = true;
        self.step = Step::Working;
        Effect::StartJob(job)
    }

    fn on_review(&mut self, code: KeyCode) -> (r: Effect)
        ensures
            review_key(old(self)@, code, final(self)@, r@),
    {
        if self.editing_output {
            match code {
                KeyCode::Esc => self.editing_output = false,
                KeyCode::Enter => return self.commit_output_edit(),
                KeyCode::Char(c) => push_char(&mut self.output_input, c),
                KeyCode::Backspace => pop_char(&mut self.output_input),
                _ => {},
            }
            return Effect::Nothing;
        }
        match code {
            KeyCode::Char('e') => {
                // Start editing the destination, seeded with the current path.
                self.output_input = match &self.output {
                    Some(o) => o.clone(),
                    None => String::new(),
                };
                self.editing_output = true;
            },
            KeyCode::Esc => {
                // Step back from Review to whichever screen led here.
                self.step = match self.flow {
                    Flow::Encrypt => {
                        if self.backend == Backend::Age && self.age_method == AgeMethod::Recipients {
                            Step::Recipient
                        } else if self.backend == Backend::Zip {
                            Step::Browse
                        } else {
                            Step::Passphrase
                        }
                    },
                    Flow::Decrypt => if self.identity.is_some() {
                        Step::Identity
                    } else {
                        Step::Passphrase
                    },
                };
            },
            KeyCode::Enter => return self.start_job(),
            _ => {},
        }
        Effect::Nothing
    }

    fn on_finished(&mut self, code: KeyCode) -> (r: Effect)
        ensures
            finished_key(old(self)@, code, final(self)@, r@),
    {
        match code {
            KeyCode::Char('q') | KeyCode::Esc => self.quit = true,
            KeyCode::Enter => {
                self.outcome = None;
                self.source = None;
                self.bundle = Vec::new();
                assert(strs(self.bundle@) =~= Seq::<Seq<char>>::empty());
                self.output = None;
                self.menu = 0;
                self.reset_lock_state();
                self.step = Step::Welcome;
            },
            _ => {},
        }
        Effect::Nothing
    }

    /// React to a key: Ctrl-C quits from anywhere; any other key clears the
    /// note and acts on the current screen.
    pub fn on_key(&mut self, key: Key) -> (r: Effect)
        ensures
            key_pressed(old(self)@, key, final(self)@, r@),
    {
        self.awaiting = Awaiting::Idle;
        if key.ctrl && key.code == KeyCode::Char('c') {
            self.quit = true;
            return Effect::Nothing;
        }
        self.note = None;
        match self.step {
            Step::Welcome => self.on_welcome(key.code),
            Step::ChooseBackend => self.on_choose_backend(key.code),
            Step::AgeMethod => self.on_age_method(key.code),
            Step::Compression => self.on_compression(key.code),
            Step::Browse => self.on_browse(key.code),
            Step::Recipient => self.on_recipient(key.code),
            Step::Passphrase => self.on_passphrase(key),
            Step::Identity => self.on_identity(key.code),
            Step::Review => self.on_review(key.code),
            Step::Working => Effect::Nothing,
            Step::Finished => self.on_finished(key.code),
        }
    }

    /// The recipient key file's answer.
    fn take_key_file(&mut self, kf: KeyFile) -> (r: Effect)
        ensures
            key_file_read(old(self)@, kf, final(self)@, r@),
    {
        let recipients = match kf {
            KeyFile::NotAFile => {
                let v = vec![self.typed_text()];
                assert(strs(v@) =~= seq![trim(old(self)@.text_input)]);
                v
            },
            KeyFile::Unreadable => {
                self.note = Some(owned("Could not read that key file."));
                return Effect::Nothing;
            },
            KeyFile::Text(t) => {
                let v = recipients_in(&t);
                if v.len() == 0 {
                    self.note = Some(owned("That key file has no recipients in it."));
                    return Effect::Nothing;
                }
                v
            },
        };
        self.recipients = recipients;
        self.enter_review()
    }

    /// What the path typed into the browser turned out to be.
    fn resolve_typed_path(&mut self, k: PathKind) -> (r: Effect)
        ensures
            path_resolved(old(self)@, k, final(self)@, r@),
    {
        match self.browser.resolve_query(k) {
            Action::Chosen(path) => self.choose_path(path),
            Action::Nothing => {
                if self.browser.is_path_query() {
                    self.note = Some(owned("No file or folder at that path."));
                }
                Effect::Nothing
            },
            Action::Browsed => Effect::Nothing,
        }
    }

    /// Take in the outside world's answer to the last effect.
    pub fn resume(&mut self, reply: Reply) -> (r: Effect)
        ensures
            answered(old(self)@, reply, final(self)@, r@),
    {
        let awaited = self.awaiting;
        self.awaiting = Awaiting::Idle;
        match (awaited, reply) {
            (Awaiting::PathKind, Reply::Kind(k)) => self.resolve_typed_path(k),
            (Awaiting::Encryption, Reply::Encrypted(x)) => {
                // A plain (unencrypted) zip opens without asking for a password.
                if x {
                    self.step = Step::Passphrase;
                    Effect::Nothing
                } else {
                    self.enter_review()
                }
            },
            (Awaiting::Existence, Reply::Exists(x)) => {
                self.will_overwrite = self.flow == Flow::Encrypt && x;
                Effect::Nothing
            },
            (Awaiting::KeyFile, Reply::KeyFile(kf)) => self.take_key_file(kf),
            (Awaiting::KeyFileCheck, Reply::IsFile(x)) => {
                if x {
                    self.identity = Some(self.typed_path());
                    self.enter_review()
                } else {
                    self.note = Some(owned("No key file at that path."));
                    Effect::Nothing
                }
            },
            _ => Effect::Nothing,
        }
    }

    /// Seconds elapsed since the current job started (for the Working screen),
    /// at ten ticks a second.
    pub fn elapsed_secs(&self) -> (r: u64)
        ensures
            r == (if self.tick >= self.job_start {
                (self.tick - self.job_start) / 10
            } else {
                0
            }),
    {
        self.tick.saturating_sub(self.job_start) / 10
    }

    /// Count one tick of the interface's clock (wrapping around).
    pub fn tick(&mut self)
        ensures
            final(self)@ == (AppView {
                tick: (if old(self).tick == u64::MAX {
                    0
                } else {
                    (old(self).tick + 1) as u64
                }),
                ..old(self)@
            }),
    {
        self.tick = self.tick.wrapping_add(1);
    }

    /// The background job ended with `result`: show it on the Finished screen.
    /// Without a job running, nothing happens.
    pub fn job_finished(&mut self, result: Result<String, String>)
        ensures
            final(self)@ == (if old(self).job_running {
                AppView {
                    outcome: outcome_view(Some(result)),
                    job_running: false,
                    step: Step::Finished,
                    ..old(self)@
                }
            } else {
                old(self)@
            }),
    {
        if self.job_running {
            self.outcome = Some(result);
            self.job_running = false;
            self.step = Step::Finished;
        }
    }
}

} // verus!
