//! What each screen of the wizard says: its lines of text, each piece with the
//! tone it is drawn in. Drawing them is left to the terminal front end.

use vstd::prelude::*;

use crate::app::{AgeMethod, App, AppView, Field, Flow, Step};
use crate::backend::{spec_title, Backend};
use crate::browser::{is_path_query, row_label, row_views, Browser, Row, RowKind};
use crate::paths::{file_name, spec_file_name};
use crate::text::{decimal, decimal_string, owned, push_char, push_str, strs};

verus! {

/// How a piece of text is drawn.
#[derive(Clone, Copy, Debug, PartialEq, Eq, Structural)]
pub enum Tone {
    Gray,
    Dim,
    Accent,
    AccentBold,
    /// The focused passphrase field.
    AccentBoldUnderlined,
    Success,
    SuccessBold,
    Warn,
    WarnBold,
    Failure,
    FailureBold,
    White,
    WhiteBold,
}

/// A piece of a line.
#[derive(Debug)]
pub struct Span {
    pub text: String,
    pub tone: Tone,
}

pub type Piece = (Seq<char>, Tone);

pub open spec fn spans_view(l: Seq<Span>) -> Seq<Piece> {
    l.map_values(|s: Span| (s.text@, s.tone))
}

pub open spec fn lines_view(ls: Seq<Vec<Span>>) -> Seq<Seq<Piece>> {
    ls.map_values(|l: Vec<Span>| spans_view(l@))
}


fn cat(a: &str, b: &str) -> (r: String)
    ensures
        r@ == a@ + b@,
{
    let mut s = owned(a);
    push_str(&mut s, b);
    s
}

fn one(t: String, tone: Tone) -> (r: Vec<Span>)
    ensures
        spans_view(r@) == seq![(t@, tone)],
{
    let r = vec![Span { text: t, tone }];
    assert(spans_view(r@) =~= seq![(t@, tone)]);
    r
}

fn two(a: String, ta: Tone, b: String, tb: Tone) -> (r: Vec<Span>)
    ensures
        spans_view(r@) == seq![(a@, ta), (b@, tb)],
{
    let r = vec![Span { text: a, tone: ta }, Span { text: b, tone: tb }];
    assert(spans_view(r@) =~= seq![(a@, ta), (b@, tb)]);
    r
}

fn three(a: String, ta: Tone, b: String, tb: Tone, c: String, tc: Tone) -> (r: Vec<Span>)
    ensures
        spans_view(r@) == seq![(a@, ta), (b@, tb), (c@, tc)],
{
    let r = vec![Span { text: a, tone: ta }, Span { text: b, tone: tb }, Span { text: c, tone: tc }];
    assert(spans_view(r@) =~= seq![(a@, ta), (b@, tb), (c@, tc)]);
    r
}

fn put_line(lines: &mut Vec<Vec<Span>>, l: Vec<Span>)
    ensures
        lines_view(final(lines)@) == lines_view(old(lines)@).push(spans_view(l@)),
{
    let ghost v = spans_view(l@);
    lines.push(l);
    assert(lines_view(lines@) =~= lines_view(old(lines)@).push(v));
}

/// An empty line.
pub open spec fn blank() -> Seq<Piece> {
    Seq::<Piece>::empty()
}

fn add_blank(lines: &mut Vec<Vec<Span>>)
    ensures
        lines_view(final(lines)@) == lines_view(old(lines)@).push(blank()),
{
    let l: Vec<Span> = Vec::new();
    assert(spans_view(l@) =~= blank());
    put_line(lines, l);
}

/// A menu row, marked and bold when it is the highlighted one.
pub open spec fn menu_row(opt: Seq<char>, selected: bool) -> Seq<Piece> {
    if selected {
        seq![("  ▸ "@, Tone::AccentBold), (opt, Tone::AccentBold)]
    } else {
        seq![("    "@, Tone::Gray), (opt, Tone::Gray)]
    }
}

fn add_menu_row(lines: &mut Vec<Vec<Span>>, opt: &str, selected: bool)
    ensures
        lines_view(final(lines)@) == lines_view(old(lines)@).push(menu_row(opt@, selected)),
{
    let l = if selected {
        two(owned("  ▸ "), Tone::AccentBold, owned(opt), Tone::AccentBold)
    } else {
        two(owned("    "), Tone::Gray, owned(opt), Tone::Gray)
    };
    put_line(lines, l);
}

/// A bold heading.
pub open spec fn heading(t: Seq<char>) -> Seq<Piece> {
    seq![("  "@ + t, Tone::WhiteBold)]
}

/// A dim label and its value.
pub open spec fn kv(key: Seq<char>, value: Seq<char>) -> Seq<Piece> {
    seq![("  "@ + key + "   "@, Tone::Dim), (value, Tone::White)]
}

fn kv_line(key: &str, value: String) -> (r: Vec<Span>)
    ensures
        spans_view(r@) == kv(key@, value@),
{
    let mut k = cat("  ", key);
    push_str(&mut k, "   ");
    two(k, Tone::Dim, value, Tone::White)
}

/// The destination being edited: accented, with a cursor bar.
pub open spec fn edit_row(key: Seq<char>, value: Seq<char>) -> Seq<Piece> {
    seq![("  "@ + key + "   "@, Tone::Dim), (value, Tone::AccentBold), ("▏"@, Tone::Accent)]
}

fn edit_line(key: &str, value: String) -> (r: Vec<Span>)
    ensures
        spans_view(r@) == edit_row(key@, value@),
{
    let mut k = cat("  ", key);
    push_str(&mut k, "   ");
    three(k, Tone::Dim, value, Tone::AccentBold, owned("▏"), Tone::Accent)
}

/// A line of one indented piece.
pub open spec fn said(t: Seq<char>, tone: Tone) -> Seq<Piece> {
    seq![("  "@ + t, tone)]
}

fn said_line(t: &str, tone: Tone) -> (r: Vec<Span>)
    ensures
        spans_view(r@) == said(t@, tone),
{
    one(cat("  ", t), tone)
}

/// `n` copies of `c`.
pub open spec fn repeat(c: char, n: nat) -> Seq<char> {
    Seq::new(n, |i: int| c)
}

fn repeat_char(c: char, n: usize) -> (r: String)
    ensures
        r@ == repeat(c, n as nat),
{
    let mut s = String::new();
    let mut k: usize = 0;
    assert(s@ =~= repeat(c, 0));
    while k < n
        invariant
            k <= n,
            s@ == repeat(c, k as nat),
        decreases n - k,
    {
        push_char(&mut s, c);
        assert(s@ =~= repeat(c, (k + 1) as nat));
        k += 1;
    }
    s
}

/// `v` padded with spaces on the right to at least `w` characters.
pub open spec fn pad_right(v: Seq<char>, w: nat) -> Seq<char> {
    if v.len() >= w {
        v
    } else {
        v + repeat(' ', (w - v.len()) as nat)
    }
}

fn count_chars(s: &str) -> (r: usize)
    ensures
        r == s@.len(),
{
    let v = crate::text::chars_of(s);
    v.len()
}

fn padded(v: String, w: usize) -> (r: String)
    ensures
        r@ == pad_right(v@, w as nat),
{
    let n = count_chars(v.as_str());
    if n >= w {
        v
    } else {
        let mut s = v;
        push_str(&mut s, repeat_char(' ', w - n).as_str());
        s
    }
}

/// A passphrase as shown: a bullet per character.
pub open spec fn mask(s: Seq<char>) -> Seq<char> {
    repeat('•', s.len())
}

/// The password as shown on screen: clear text when revealed, else bullets.
pub open spec fn field_value(reveal: bool, s: Seq<char>) -> Seq<char> {
    if reveal {
        s
    } else {
        mask(s)
    }
}

fn shown_secret(reveal: bool, s: &String) -> (r: String)
    ensures
        r@ == field_value(reveal, s@),
{
    if reveal {
        s.clone()
    } else {
        repeat_char('•', count_chars(s.as_str()))
    }
}

/// A passphrase field: a caret when focused, the label, and the value padded
/// to a fixed width.
pub open spec fn field_row(label: Seq<char>, value: Seq<char>, focused: bool) -> Seq<Piece> {
    seq![
        ("  "@ + (if focused { "▸ "@ } else { "  "@ }), Tone::Accent),
        (label + "  "@, Tone::Gray),
        (pad_right(value, 24), if focused { Tone::AccentBoldUnderlined } else { Tone::Gray }),
    ]
}

fn field_line(label: &str, value: String, focused: bool) -> (r: Vec<Span>)
    ensures
        spans_view(r@) == field_row(label@, value@, focused),
{
    let caret = if focused {
        cat("  ", "▸ ")
    } else {
        cat("  ", "  ")
    };
    three(
        caret,
        Tone::Accent,
        cat(label, "  "),
        Tone::Gray,
        padded(value, 24),
        if focused {
            Tone::AccentBoldUnderlined
        } else {
            Tone::Gray
        },
    )
}

/// The file name of an optional path, or nothing.
pub open spec fn name_of(p: Option<Seq<char>>) -> Seq<char> {
    match p {
        Some(q) => match spec_file_name(q) {
            Some(n) => n,
            None => Seq::<char>::empty(),
        },
        None => Seq::<char>::empty(),
    }
}

fn name_of_exec(p: &Option<String>) -> (r: String)
    ensures
        r@ == name_of(crate::browser::opt_view(*p)),
{
    match p {
        Some(q) => match file_name(q.as_str()) {
            Some(n) => n,
            None => String::new(),
        },
        None => String::new(),
    }
}

/// An optional path, or nothing.
pub open spec fn path_str(p: Option<Seq<char>>) -> Seq<char> {
    match p {
        Some(q) => q,
        None => Seq::<char>::empty(),
    }
}

fn path_str_exec(p: &Option<String>) -> (r: String)
    ensures
        r@ == path_str(crate::browser::opt_view(*p)),
{
    match p {
        Some(q) => q.clone(),
        None => String::new(),
    }
}

/// A plain-language word for a compression level.
pub open spec fn level_word(level: u8) -> Seq<char> {
    if level == 0 {
        "None"@
    } else if level <= 4 {
        "Faster"@
    } else if level == 5 {
        "Normal"@
    } else if level <= 8 {
        "Smaller"@
    } else {
        "Maximum"@
    }
}

pub open spec fn spec_compression_label(level: u8) -> Seq<char> {
    level_word(level) + " ("@ + decimal(level as nat) + ")"@
}

/// A plain-language name for a compression level, with the raw number.
pub fn compression_label(level: u8) -> (r: String)
    ensures
        r@ == spec_compression_label(level),
{
    let word = if level == 0 {
        "None"
    } else if level <= 4 {
        "Faster"
    } else if level == 5 {
        "Normal"
    } else if level <= 8 {
        "Smaller"
    } else {
        "Maximum"
    };
    let mut s = cat(word, " (");
    push_str(&mut s, decimal_string(level as u64).as_str());
    push_str(&mut s, ")");
    s
}

/// The line at the top of every screen.
pub open spec fn spec_header() -> Seq<Piece> {
    seq![("zipline"@, Tone::AccentBold), ("  —  lock your files with one password"@, Tone::Dim)]
}

pub fn header() -> (r: Vec<Span>)
    ensures
        spans_view(r@) == spec_header(),
{
    two(owned("zipline"), Tone::AccentBold, owned("  —  lock your files with one password"), Tone::Dim)
}

/// The title over a screen's body (the browser shows its folder instead).
pub open spec fn spec_title_of(step: Step) -> Seq<char> {
    match step {
        Step::Welcome => "Welcome"@,
        Step::ChooseBackend => "Method"@,
        Step::AgeMethod => "age"@,
        Step::Compression => "Compression"@,
        Step::Browse => "Browse"@,
        Step::Recipient => "Recipient"@,
        Step::Passphrase => "Password"@,
        Step::Identity => "Key file"@,
        Step::Review => "Review"@,
        Step::Working => "Working"@,
        Step::Finished => "Finished"@,
    }
}

pub fn title_of(step: Step) -> (r: &'static str)
    ensures
        r@ == spec_title_of(step),
{
    match step {
        Step::Welcome => "Welcome",
        Step::ChooseBackend => "Method",
        Step::AgeMethod => "age",
        Step::Compression => "Compression",
        Step::Browse => "Browse",
        Step::Recipient => "Recipient",
        Step::Passphrase => "Password",
        Step::Identity => "Key file",
        Step::Review => "Review",
        Step::Working => "Working",
        Step::Finished => "Finished",
    }
}

/// The dim line of key hints at the bottom of each screen.
pub open spec fn spec_footer_hint(a: AppView) -> Seq<char> {
    match a.step {
        Step::Welcome => "↑↓ choose · Enter select · q quit"@,
        Step::ChooseBackend => "↑↓ choose · Enter select · Esc back"@,
        Step::AgeMethod => "↑↓ choose · Enter select · Esc back"@,
        Step::Recipient => "paste a key or path · Enter continue · Esc back"@,
        Step::Identity => "type a path · Enter continue · Esc back"@,
        Step::Compression => if a.backend == Backend::Age {
            "↑↓ choose · Enter select · Esc back"@
        } else {
            "type 0–9 · Enter continue · Esc back"@
        },
        Step::Browse => if a.flow == Flow::Encrypt {
            "type to filter · paste a path · Space mark · Tab hidden · ↑↓ move · Enter open · ← up · Esc back"@
        } else {
            "type to filter · paste a path · Tab hidden · ↑↓ move · Enter open · ← up · Esc back"@
        },
        Step::Passphrase => if a.flow == Flow::Encrypt {
            "type password · Tab switch field · Ctrl-R show · Enter continue · Esc back"@
        } else if a.backend == Backend::Age {
            "type password · Ctrl-R show · Ctrl-K key file · Enter continue · Esc back"@
        } else {
            "type password · Ctrl-R show · Enter continue · Esc back"@
        },
        Step::Review => if a.editing_output {
            "type a path · Enter save · Esc cancel"@
        } else {
            "Enter confirm · e change destination · Esc back"@
        },
        Step::Working => "please wait…"@,
        Step::Finished => "Enter do another · q quit"@,
    }
}

pub fn footer_hint(app: &App) -> (r: &'static str)
    ensures
        r@ == spec_footer_hint(app@),
{
    match app.step {
        Step::Welcome => "↑↓ choose · Enter select · q quit",
        Step::ChooseBackend => "↑↓ choose · Enter select · Esc back",
        Step::AgeMethod => "↑↓ choose · Enter select · Esc back",
        Step::Recipient => "paste a key or path · Enter continue · Esc back",
        Step::Identity => "type a path · Enter continue · Esc back",
        Step::Compression => if app.backend == Backend::Age {
            "↑↓ choose · Enter select · Esc back"
        } else {
            "type 0–9 · Enter continue · Esc back"
        },
        Step::Browse => if app.flow == Flow::Encrypt {
            "type to filter · paste a path · Space mark · Tab hidden · ↑↓ move · Enter open · ← up · Esc back"
        } else {
            "type to filter · paste a path · Tab hidden · ↑↓ move · Enter open · ← up · Esc back"
        },
        Step::Passphrase => if app.flow == Flow::Encrypt {
            "type password · Tab switch field · Ctrl-R show · Enter continue · Esc back"
        } else if app.backend == Backend::Age {
            "type password · Ctrl-R show · Ctrl-K key file · Enter continue · Esc back"
        } else {
            "type password · Ctrl-R show · Enter continue · Esc back"
        },
        Step::Review => if app.editing_output {
            "type a path · Enter save · Esc cancel"
        } else {
            "Enter confirm · e change destination · Esc back"
        },
        Step::Working => "please wait…",
        Step::Finished => "Enter do another · q quit",
    }
}

/// A gray question under a blank line, then another blank line.
pub open spec fn asked(q: Seq<char>) -> Seq<Seq<Piece>> {
    seq![blank(), said(q, Tone::Gray), blank()]
}

fn add_asked(lines: &mut Vec<Vec<Span>>, q: &str)
    ensures
        lines_view(final(lines)@) == lines_view(old(lines)@) + asked(q@),
{
    add_blank(lines);
    put_line(lines, said_line(q, Tone::Gray));
    add_blank(lines);
    assert(lines_view(lines@) =~= lines_view(old(lines)@) + asked(q@));
}

pub open spec fn spec_welcome_lines(menu: usize) -> Seq<Seq<Piece>> {
    asked("What would you like to do?"@) + seq![
        menu_row("Lock or compress a file"@, menu == 0),
        menu_row("Open a locked file"@, menu == 1),
        menu_row("Quit"@, menu == 2),
    ]
}

/// The welcome screen: what to do.
pub fn welcome_lines(app: &App) -> (r: Vec<Vec<Span>>)
    ensures
        lines_view(r@) == spec_welcome_lines(app.menu),
{
    let mut lines: Vec<Vec<Span>> = Vec::new();
    add_asked(&mut lines, "What would you like to do?");
    add_menu_row(&mut lines, "Lock or compress a file", app.menu == 0);
    add_menu_row(&mut lines, "Open a locked file", app.menu == 1);
    add_menu_row(&mut lines, "Quit", app.menu == 2);
    assert(lines_view(lines@) =~= spec_welcome_lines(app.menu));
    lines
}

/// A backend's row on the method screen: its name stands out.
pub open spec fn method_row(name: Seq<char>, rest: Seq<char>, selected: bool) -> Seq<Piece> {
    if selected {
        seq![("  ▸ "@, Tone::AccentBold), (name, Tone::AccentBold), (rest, Tone::AccentBold)]
    } else {
        seq![("    "@, Tone::Gray), (name, Tone::WhiteBold), (rest, Tone::Gray)]
    }
}

/// A backend's three lines: its row, its tagline, a blank.
pub open spec fn method_lines(name: Seq<char>, rest: Seq<char>, tag: Seq<char>, selected: bool) -> Seq<
    Seq<Piece>,
> {
    seq![method_row(name, rest, selected), seq![("       "@ + tag, Tone::Dim)], blank()]
}

fn add_method(lines: &mut Vec<Vec<Span>>, name: &str, rest: &str, tag: &str, selected: bool)
    ensures
        lines_view(final(lines)@) == lines_view(old(lines)@) + method_lines(name@, rest@, tag@, selected),
{
    let row = if selected {
        three(owned("  ▸ "), Tone::AccentBold, owned(name), Tone::AccentBold, owned(rest), Tone::AccentBold)
    } else {
        three(owned("    "), Tone::Gray, owned(name), Tone::WhiteBold, owned(rest), Tone::Gray)
    };
    put_line(lines, row);
    put_line(lines, one(cat("       ", tag), Tone::Dim));
    add_blank(lines);
    assert(lines_view(lines@) =~= lines_view(old(lines)@) + method_lines(name@, rest@, tag@, selected));
}

/// A note, when there is one, as an indented line of `tone`.
pub open spec fn note_lines(note: Option<Seq<char>>, tone: Tone) -> Seq<Seq<Piece>> {
    match note {
        Some(n) => seq![said(n, tone)],
        None => Seq::<Seq<Piece>>::empty(),
    }
}

fn add_note(lines: &mut Vec<Vec<Span>>, note: &Option<String>, tone: Tone)
    ensures
        lines_view(final(lines)@) == lines_view(old(lines)@) + note_lines(
            crate::browser::opt_view(*note),
            tone,
        ),
{
    match note {
        Some(n) => {
            put_line(lines, said_line(n.as_str(), tone));
        },
        None => {},
    }
    assert(lines_view(lines@) =~= lines_view(old(lines)@) + note_lines(
        crate::browser::opt_view(*note),
        tone,
    ));
}

pub open spec fn spec_choose_backend_lines(menu: usize, note: Option<Seq<char>>) -> Seq<Seq<Piece>> {
    asked("Choose a method"@) + method_lines(
        "age"@,
        " — Encrypt · strongest"@,
        "ChaCha20-Poly1305. Opens with zipline. Hides file names."@,
        menu == 0,
    ) + method_lines(
        "7z "@,
        " — Encrypt · portable"@,
        "AES-256. Opens in 7-Zip / WinZip / Keka. Hides file names."@,
        menu == 1,
    ) + method_lines(
        "zip"@,
        " — No encryption · opens anywhere"@,
        "No password. Double-click on any OS. File names are visible."@,
        menu == 2,
    ) + note_lines(note, Tone::Warn)
}

/// The method screen: the three backends, with what each is good for.
pub fn choose_backend_lines(app: &App) -> (r: Vec<Vec<Span>>)
    ensures
        lines_view(r@) == spec_choose_backend_lines(app.menu, app@.note),
{
    let mut lines: Vec<Vec<Span>> = Vec::new();
    add_asked(&mut lines, "Choose a method");
    add_method(
        &mut lines,
        "age",
        " — Encrypt · strongest",
        "ChaCha20-Poly1305. Opens with zipline. Hides file names.",
        app.menu == 0,
    );
    add_method(
        &mut lines,
        "7z ",
        " — Encrypt · portable",
        "AES-256. Opens in 7-Zip / WinZip / Keka. Hides file names.",
        app.menu == 1,
    );
    add_method(
        &mut lines,
        "zip",
        " — No encryption · opens anywhere",
        "No password. Double-click on any OS. File names are visible.",
        app.menu == 2,
    );
    add_note(&mut lines, &app.note, Tone::Warn);
    lines
}

pub open spec fn spec_age_method_lines(menu: usize) -> Seq<Seq<Piece>> {
    asked("How should age lock it?"@) + seq![
        menu_row("Lock with a password"@, menu == 0),
        menu_row("Lock for a person (their age public key)"@, menu == 1),
        blank(),
        said("A password is shared by both people. A recipient key locks the file for"@, Tone::Dim),
        said("one person — only their key opens it, with no shared password."@, Tone::Dim),
    ]
}

/// The age screen: a password, or a recipient's key.
pub fn age_method_lines(app: &App) -> (r: Vec<Vec<Span>>)
    ensures
        lines_view(r@) == spec_age_method_lines(app.menu),
{
    let mut lines: Vec<Vec<Span>> = Vec::new();
    add_asked(&mut lines, "How should age lock it?");
    add_menu_row(&mut lines, "Lock with a password", app.menu == 0);
    add_menu_row(&mut lines, "Lock for a person (their age public key)", app.menu == 1);
    add_blank(&mut lines);
    put_line(&mut lines, said_line("A password is shared by both people. A recipient key locks the file for", Tone::Dim));
    put_line(&mut lines, said_line("one person — only their key opens it, with no shared password.", Tone::Dim));
    assert(lines_view(lines@) =~= spec_age_method_lines(app.menu));
    lines
}

pub open spec fn spec_compression_lines(a: AppView) -> Seq<Seq<Piece>> {
    asked("How hard should we try to shrink it?"@) + (if a.backend == Backend::Age {
        seq![
            menu_row("None — fastest, no shrinking"@, a.menu == 0),
            menu_row("Normal"@, a.menu == 1),
            menu_row("Maximum — smallest, slowest"@, a.menu == 2),
        ]
    } else {
        seq![
            seq![
                ("  Level: "@, Tone::Gray),
                (if a.level_input.len() == 0 { "_"@ } else { a.level_input }, Tone::AccentBold),
            ],
            blank(),
            said("0 = none (fastest)   5 = normal   9 = smallest (slowest)"@, Tone::Dim),
        ]
    }) + seq![blank(), said("Already-compressed files (photos, video) won't get much smaller."@, Tone::Dim)]
}

/// The compression screen: age presets, or a typed level for 7z and zip.
pub fn compression_lines(app: &App) -> (r: Vec<Vec<Span>>)
    ensures
        lines_view(r@) == spec_compression_lines(app@),
{
    let mut lines: Vec<Vec<Span>> = Vec::new();
    add_asked(&mut lines, "How hard should we try to shrink it?");
    if app.backend == Backend::Age {
        add_menu_row(&mut lines, "None — fastest, no shrinking", app.menu == 0);
        add_menu_row(&mut lines, "Normal", app.menu == 1);
        add_menu_row(&mut lines, "Maximum — smallest, slowest", app.menu == 2);
    } else {
        let shown = if app.level_input.as_str().is_empty() {
            owned("_")
        } else {
            app.level_input.clone()
        };
        put_line(&mut lines, two(owned("  Level: "), Tone::Gray, shown, Tone::AccentBold));
        add_blank(&mut lines);
        put_line(&mut lines, said_line("0 = none (fastest)   5 = normal   9 = smallest (slowest)", Tone::Dim));
    }
    add_blank(&mut lines);
    put_line(&mut lines, said_line("Already-compressed files (photos, video) won't get much smaller.", Tone::Dim));
    assert(lines_view(lines@) =~= spec_compression_lines(app@));
    lines
}

/// The prompt and explainer of a text-entry step.
pub open spec fn entry_prompt(step: Step) -> Seq<char> {
    if step == Step::Recipient {
        "Who is this file for?"@
    } else {
        "Open with your age key"@
    }
}

pub open spec fn entry_hint(step: Step) -> Seq<char> {
    if step == Step::Recipient {
        "Paste their age public key (age1…), or a path to their key file."@
    } else {
        "Type the path to your age key file (e.g. ~/key.txt)."@
    }
}

pub open spec fn spec_text_entry_lines(a: AppView) -> Seq<Seq<Piece>> {
    seq![
        blank(),
        heading(entry_prompt(a.step)),
        blank(),
        seq![("  "@, Tone::Dim), (a.text_input, Tone::AccentBold), ("▏"@, Tone::Accent)],
        blank(),
        said(entry_hint(a.step), Tone::Dim),
    ] + match a.note {
        Some(n) => seq![blank(), said(n, Tone::Failure)],
        None => Seq::<Seq<Piece>>::empty(),
    }
}

/// The recipient and key-file screens: a prompt and the text being typed.
pub fn text_entry_lines(app: &App) -> (r: Vec<Vec<Span>>)
    ensures
        lines_view(r@) == spec_text_entry_lines(app@),
{
    let recipient = app.step == Step::Recipient;
    let prompt = if recipient {
        "Who is this file for?"
    } else {
        "Open with your age key"
    };
    let hint = if recipient {
        "Paste their age public key (age1…), or a path to their key file."
    } else {
        "Type the path to your age key file (e.g. ~/key.txt)."
    };
    let mut lines: Vec<Vec<Span>> = Vec::new();
    add_blank(&mut lines);
    put_line(&mut lines, one(cat("  ", prompt), Tone::WhiteBold));
    add_blank(&mut lines);
    put_line(&mut lines, three(owned("  "), Tone::Dim, app.text_input.clone(), Tone::AccentBold, owned("▏"), Tone::Accent));
    add_blank(&mut lines);
    put_line(&mut lines, said_line(hint, Tone::Dim));
    match &app.note {
        Some(n) => {
            add_blank(&mut lines);
            put_line(&mut lines, said_line(n.as_str(), Tone::Failure));
        },
        None => {},
    }
    assert(lines_view(lines@) =~= spec_text_entry_lines(app@));
    lines
}

pub open spec fn spec_passphrase_lines(a: AppView) -> Seq<Seq<Piece>> {
    let name = if a.bundle.len() > 1 {
        name_of(a.output)
    } else {
        name_of(a.source)
    };
    seq![blank()] + (if a.flow == Flow::Encrypt {
        seq![
            heading("Set a password for \""@ + name + "\""@),
            blank(),
            field_row("Password"@, field_value(a.reveal, a.password), a.field == Field::Password),
            field_row("Repeat "@, field_value(a.reveal, a.confirm), a.field == Field::Confirm),
            blank(),
            said("Keep this password safe. Without it, the file can never be opened."@, Tone::Warn),
        ]
    } else {
        seq![
            heading("Enter the password for \""@ + name + "\""@),
            blank(),
            field_row("Password"@, field_value(a.reveal, a.password), true),
        ]
    }) + match a.note {
        Some(n) => seq![blank(), said(n, Tone::Failure)],
        None => Seq::<Seq<Piece>>::empty(),
    }
}

/// The password screen: one field to open, two (typed twice) to lock.
pub fn passphrase_lines(app: &App) -> (r: Vec<Vec<Span>>)
    ensures
        lines_view(r@) == spec_passphrase_lines(app@),
{
    let name = if app.bundle.len() > 1 {
        name_of_exec(&app.output)
    } else {
        name_of_exec(&app.source)
    };
    assert(strs(app.bundle@).len() == app.bundle.len());
    let mut lines: Vec<Vec<Span>> = Vec::new();
    add_blank(&mut lines);
    if app.flow == Flow::Encrypt {
        let mut h = cat("  ", "Set a password for \"");
        push_str(&mut h, name.as_str());
        push_str(&mut h, "\"");
        assert(h@ =~= "  "@ + ("Set a password for \""@ + name@ + "\""@));
        put_line(&mut lines, one(h, Tone::WhiteBold));
        add_blank(&mut lines);
        put_line(&mut lines, field_line("Password", shown_secret(app.reveal, &app.password), app.field == Field::Password));
        put_line(&mut lines, field_line("Repeat ", shown_secret(app.reveal, &app.confirm), app.field == Field::Confirm));
        add_blank(&mut lines);
        put_line(&mut lines, said_line("Keep this password safe. Without it, the file can never be opened.", Tone::Warn));
    } else {
        let mut h = cat("  ", "Enter the password for \"");
        push_str(&mut h, name.as_str());
        push_str(&mut h, "\"");
        assert(h@ =~= "  "@ + ("Enter the password for \""@ + name@ + "\""@));
        put_line(&mut lines, one(h, Tone::WhiteBold));
        add_blank(&mut lines);
        put_line(&mut lines, field_line("Password", shown_secret(app.reveal, &app.password), true));
    }
    match &app.note {
        Some(n) => {
            add_blank(&mut lines);
            put_line(&mut lines, said_line(n.as_str(), Tone::Failure));
        },
        None => {},
    }
    assert(lines_view(lines@) =~= spec_passphrase_lines(app@));
    lines
}

/// "1 recipient", "2 recipients": how many keys the file is locked for.
pub open spec fn recipient_count(n: nat) -> Seq<char> {
    decimal(n) + (if n == 1 { " recipient"@ } else { " recipients"@ }) + " (their age key)"@
}

pub open spec fn spec_review_lines(a: AppView) -> Seq<Seq<Piece>> {
    let source = path_str(a.source);
    let output = path_str(a.output);
    seq![blank()] + if a.flow == Flow::Encrypt {
        let is_zip = a.backend == Backend::Zip;
        seq![
            heading(if is_zip { "Ready to pack"@ } else { "Ready to lock"@ }),
            blank(),
            kv("From "@, source),
        ] + (if a.bundle.len() > 1 {
            seq![kv("Items"@, decimal(a.bundle.len()) + " locked together"@)]
        } else {
            Seq::<Seq<Piece>>::empty()
        }) + seq![
            if a.editing_output { edit_row("To   "@, a.output_input) } else { kv("To   "@, output) },
            kv("Using"@, spec_title(a.backend)),
        ] + (if a.backend == Backend::Age && a.age_method == AgeMethod::Recipients {
            seq![kv("For"@, recipient_count(a.recipients.len()))]
        } else {
            Seq::<Seq<Piece>>::empty()
        }) + seq![kv("Compression"@, spec_compression_label(a.level)), blank()] + (if a.will_overwrite {
            seq![said("This replaces the existing "@ + name_of(a.output) + "."@, Tone::Warn)]
        } else {
            Seq::<Seq<Piece>>::empty()
        }) + (if is_zip {
            seq![said("No password — anyone can open this file."@, Tone::Warn)]
        } else {
            Seq::<Seq<Piece>>::empty()
        }) + seq![
            said(
                if is_zip { "Press Enter to create the zip."@ } else { "Press Enter to encrypt."@ },
                Tone::SuccessBold,
            ),
        ]
    } else {
        seq![
            heading("Ready to extract"@),
            blank(),
            kv("File"@, source),
            if a.editing_output { edit_row("Into"@, a.output_input) } else { kv("Into"@, output) },
        ] + (match a.identity {
            Some(id) => seq![kv("Key"@, id)],
            None => Seq::<Seq<Piece>>::empty(),
        }) + seq![blank(), said("Press Enter to extract."@, Tone::SuccessBold)]
    }
}

/// The locking half of the review screen.
fn review_lock_lines(app: &App, lines: &mut Vec<Vec<Span>>)
    requires
        app.flow == Flow::Encrypt,
        lines_view(old(lines)@) == seq![blank()],
    ensures
        lines_view(final(lines)@) == spec_review_lines(app@),
{
    let is_zip = app.backend == Backend::Zip;
    put_line(lines, one(cat("  ", if is_zip { "Ready to pack" } else { "Ready to lock" }), Tone::WhiteBold));
    add_blank(lines);
    put_line(lines, kv_line("From ", path_str_exec(&app.source)));
    if app.bundle.len() > 1 {
        let mut n = decimal_string(app.bundle.len() as u64);
        push_str(&mut n, " locked together");
        assert(strs(app.bundle@).len() == app.bundle.len());
        put_line(lines, kv_line("Items", n));
    }
    if app.editing_output {
        put_line(lines, edit_line("To   ", app.output_input.clone()));
    } else {
        put_line(lines, kv_line("To   ", path_str_exec(&app.output)));
    }
    put_line(lines, kv_line("Using", owned(app.backend.title())));
    if app.backend == Backend::Age && app.age_method == AgeMethod::Recipients {
        let n = app.recipients.len();
        let mut who = decimal_string(n as u64);
        push_str(&mut who, if n == 1 { " recipient" } else { " recipients" });
        push_str(&mut who, " (their age key)");
        assert(strs(app.recipients@).len() == n);
        put_line(lines, kv_line("For", who));
    }
    put_line(lines, kv_line("Compression", compression_label(app.level)));
    add_blank(lines);
    if app.will_overwrite {
        let mut w = owned("This replaces the existing ");
        push_str(&mut w, name_of_exec(&app.output).as_str());
        push_str(&mut w, ".");
        put_line(lines, said_line(w.as_str(), Tone::Warn));
    }
    if is_zip {
        put_line(lines, said_line("No password — anyone can open this file.", Tone::Warn));
    }
    put_line(lines, said_line(if is_zip { "Press Enter to create the zip." } else { "Press Enter to encrypt." }, Tone::SuccessBold));
    assert(lines_view(lines@) =~= spec_review_lines(app@));
}

/// The opening half of the review screen.
fn review_open_lines(app: &App, lines: &mut Vec<Vec<Span>>)
    requires
        app.flow == Flow::Decrypt,
        lines_view(old(lines)@) == seq![blank()],
    ensures
        lines_view(final(lines)@) == spec_review_lines(app@),
{
    put_line(lines, one(cat("  ", "Ready to extract"), Tone::WhiteBold));
    add_blank(lines);
    put_line(lines, kv_line("File", path_str_exec(&app.source)));
    if app.editing_output {
        put_line(lines, edit_line("Into", app.output_input.clone()));
    } else {
        put_line(lines, kv_line("Into", path_str_exec(&app.output)));
    }
    match &app.identity {
        Some(id) => put_line(lines, kv_line("Key", id.clone())),
        None => {},
    }
    add_blank(lines);
    put_line(lines, said_line("Press Enter to extract.", Tone::SuccessBold));
    assert(lines_view(lines@) =~= spec_review_lines(app@));
}

/// The review screen: what is about to happen, and where.
pub fn review_lines(app: &App) -> (r: Vec<Vec<Span>>)
    ensures
        lines_view(r@) == spec_review_lines(app@),
{
    let mut lines: Vec<Vec<Span>> = Vec::new();
    add_blank(&mut lines);
    assert(lines_view(lines@) =~= seq![blank()]);
    match app.flow {
        Flow::Encrypt => review_lock_lines(app, &mut lines),
        Flow::Decrypt => review_open_lines(app, &mut lines),
    }
    lines
}

/// The spinner's frames.
pub open spec fn spinner(i: int) -> Seq<char> {
    if i == 0 {
        "⠋"@
    } else if i == 1 {
        "⠙"@
    } else if i == 2 {
        "⠹"@
    } else if i == 3 {
        "⠸"@
    } else if i == 4 {
        "⠼"@
    } else if i == 5 {
        "⠴"@
    } else if i == 6 {
        "⠦"@
    } else if i == 7 {
        "⠧"@
    } else if i == 8 {
        "⠇"@
    } else {
        "⠏"@
    }
}

fn spinner_frame(i: u64) -> (r: &'static str)
    requires
        i < 10,
    ensures
        r@ == spinner(i as int),
{
    if i == 0 {
        "⠋"
    } else if i == 1 {
        "⠙"
    } else if i == 2 {
        "⠹"
    } else if i == 3 {
        "⠸"
    } else if i == 4 {
        "⠼"
    } else if i == 5 {
        "⠴"
    } else if i == 6 {
        "⠦"
    } else if i == 7 {
        "⠧"
    } else if i == 8 {
        "⠇"
    } else {
        "⠏"
    }
}

/// Seconds since the job started, at ten ticks a second.
pub open spec fn elapsed(a: AppView) -> u64 {
    if a.tick >= a.job_start {
        ((a.tick - a.job_start) / 10) as u64
    } else {
        0
    }
}

pub open spec fn spec_working_lines(a: AppView) -> Seq<Seq<Piece>> {
    seq![
        blank(),
        blank(),
        seq![
            (
                "   "@ + spinner(((a.tick / 2) % 10) as int) + "  "@ + (if a.flow == Flow::Encrypt {
                    "Encrypting your files"@
                } else {
                    "Opening your file"@
                }) + "…"@,
                Tone::AccentBold,
            ),
        ],
        blank(),
        seq![("   This can take a moment for large folders."@, Tone::Dim)],
        blank(),
        seq![("   Elapsed: "@ + decimal(elapsed(a) as nat) + "s"@, Tone::Dim)],
    ]
}

/// The working screen: a spinner turning every two ticks, and the time taken.
pub fn working_lines(app: &App) -> (r: Vec<Vec<Span>>)
    ensures
        lines_view(r@) == spec_working_lines(app@),
{
    let mut lines: Vec<Vec<Span>> = Vec::new();
    add_blank(&mut lines);
    add_blank(&mut lines);
    let mut s = cat("   ", spinner_frame((app.tick / 2) % 10));
    push_str(&mut s, "  ");
    push_str(&mut s, if app.flow == Flow::Encrypt { "Encrypting your files" } else { "Opening your file" });
    push_str(&mut s, "…");
    put_line(&mut lines, one(s, Tone::AccentBold));
    add_blank(&mut lines);
    put_line(&mut lines, one(owned("   This can take a moment for large folders."), Tone::Dim));
    add_blank(&mut lines);
    let mut e = cat("   Elapsed: ", decimal_string(app.elapsed_secs()).as_str());
    push_str(&mut e, "s");
    put_line(&mut lines, one(e, Tone::Dim));
    assert(lines_view(lines@) =~= spec_working_lines(app@));
    lines
}

pub open spec fn spec_finished_lines(a: AppView) -> Seq<Seq<Piece>> {
    seq![blank()] + match a.outcome {
        Some(Ok(p)) => seq![
            said(
                "✓ "@ + (if a.flow == Flow::Encrypt {
                    "Done — your file is locked."@
                } else {
                    "Done — your file is open."@
                }),
                Tone::SuccessBold,
            ),
            blank(),
            kv(if a.flow == Flow::Encrypt { "Saved to"@ } else { "Unpacked into"@ }, p),
        ],
        Some(Err(m)) => seq![said("✗ Something went wrong."@, Tone::FailureBold), blank(), said(m, Tone::Gray)],
        None => Seq::<Seq<Piece>>::empty(),
    } + seq![blank(), said("Enter: do another    q: quit"@, Tone::Dim)]
}

/// The finished screen: where the result went, or what went wrong.
pub fn finished_lines(app: &App) -> (r: Vec<Vec<Span>>)
    ensures
        lines_view(r@) == spec_finished_lines(app@),
{
    let mut lines: Vec<Vec<Span>> = Vec::new();
    add_blank(&mut lines);
    match &app.outcome {
        Some(Ok(p)) => {
            let head = if app.flow == Flow::Encrypt {
                "Done — your file is locked."
            } else {
                "Done — your file is open."
            };
            let label = if app.flow == Flow::Encrypt {
                "Saved to"
            } else {
                "Unpacked into"
            };
            put_line(&mut lines, said_line(cat("✓ ", head).as_str(), Tone::SuccessBold));
            add_blank(&mut lines);
            put_line(&mut lines, kv_line(label, p.clone()));
        },
        Some(Err(m)) => {
            put_line(&mut lines, said_line("✗ Something went wrong.", Tone::FailureBold));
            add_blank(&mut lines);
            put_line(&mut lines, said_line(m.as_str(), Tone::Gray));
        },
        None => {},
    }
    add_blank(&mut lines);
    put_line(&mut lines, said_line("Enter: do another    q: quit", Tone::Dim));
    assert(lines_view(lines@) =~= spec_finished_lines(app@));
    lines
}

/// What the browser is for, shown under its list.
pub open spec fn spec_browse_prompt(flow: Flow) -> Seq<char> {
    if flow == Flow::Encrypt {
        "Choose what to lock"@
    } else {
        "Choose a file to extract"@
    }
}

pub fn browse_prompt(app: &App) -> (r: &'static str)
    ensures
        r@ == spec_browse_prompt(app.flow),
{
    if app.flow == Flow::Encrypt {
        "Choose what to lock"
    } else {
        "Choose a file to extract"
    }
}

/// The line above the list: a hint when nothing is typed, else the typed path
/// to go to or the live filter.
pub open spec fn spec_query_line(b: Browser) -> Seq<Piece> {
    let q = b.query_v();
    if q.len() == 0 {
        seq![("  Type to filter, or paste a path"@, Tone::Dim)]
    } else {
        let (tag, tone) = if is_path_query(q) {
            ("Go to"@, Tone::Success)
        } else {
            ("Filter"@, Tone::Accent)
        };
        seq![("  "@ + tag + ": "@, Tone::Dim), (q, tone), ("▏"@, tone)]
    }
}

pub fn query_line(app: &App) -> (r: Vec<Span>)
    ensures
        spans_view(r@) == spec_query_line(app.browser),
{
    let q = app.browser.query();
    if q.as_str().is_empty() {
        return one(owned("  Type to filter, or paste a path"), Tone::Dim);
    }
    let path = app.browser.is_path_query();
    let tone = if path {
        Tone::Success
    } else {
        Tone::Accent
    };
    let mut tag = cat("  ", if path { "Go to" } else { "Filter" });
    push_str(&mut tag, ": ");
    three(tag, Tone::Dim, q.clone(), tone, owned("▏"), tone)
}

/// How a row of the browser is drawn.
pub open spec fn row_tone(k: RowKind) -> Tone {
    match k {
        RowKind::UseCurrent => Tone::SuccessBold,
        RowKind::Up => Tone::Dim,
        RowKind::Dir => Tone::Accent,
        RowKind::File => Tone::Gray,
    }
}

/// A tick before a marked folder or file, blank space before other rows.
pub open spec fn mark_prefix(b: Browser, r: (RowKind, Seq<char>)) -> Seq<char> {
    if (r.0 == RowKind::Dir || r.0 == RowKind::File) && b.marked_v().contains(r.1) {
        "✓ "@
    } else {
        "  "@
    }
}

pub open spec fn spec_browse_items(b: Browser) -> Seq<Seq<Piece>> {
    b.rows_v().map_values(
        |r: (RowKind, Seq<char>)| seq![(mark_prefix(b, r) + row_label(b.cwd_v(), r), row_tone(r.0))],
    )
}

fn is_marked(marked: &Vec<String>, p: &String) -> (r: bool)
    ensures
        r == strs(marked@).contains(p@),
{
    let mut k: usize = 0;
    while k < marked.len()
        invariant
            k <= marked.len(),
            forall|j: int| 0 <= j < k ==> strs(marked@)[j] != p@,
        decreases marked.len() - k,
    {
        if marked[k] == *p {
            assert(strs(marked@)[k as int] == p@);
            return true;
        }
        k += 1;
    }
    false
}

/// The browser's rows, one line each.
pub fn browse_items(app: &App) -> (r: Vec<Vec<Span>>)
    ensures
        lines_view(r@) == spec_browse_items(app.browser),
{
    let rows = app.browser.rows();
    let ghost all = row_views(rows@);
    let mut lines: Vec<Vec<Span>> = Vec::new();
    let mut k: usize = 0;
    while k < rows.len()
        invariant
            k <= rows.len(),
            all == row_views(rows@),
            all == app.browser.rows_v(),
            lines_view(lines@) == spec_browse_items(app.browser).take(k as int),
        decreases rows.len() - k,
    {
        let row = &rows[k];
        let tone = match row {
            Row::UseCurrent => Tone::SuccessBold,
            Row::Up => Tone::Dim,
            Row::Dir(_) => Tone::Accent,
            Row::File(_) => Tone::Gray,
        };
        let marked = match row {
            Row::Dir(p) | Row::File(p) => is_marked(app.browser.marked(), p),
            _ => false,
        };
        let label = app.browser.label(row);
        put_line(&mut lines, one(cat(if marked { "✓ " } else { "  " }, label.as_str()), tone));
        assert(all[k as int] == rows@[k as int]@);
        assert(spec_browse_items(app.browser).take(k + 1) =~= spec_browse_items(app.browser).take(
            k as int,
        ).push(spec_browse_items(app.browser)[k as int]));
        k += 1;
    }
    assert(spec_browse_items(app.browser).take(rows.len() as int) =~= spec_browse_items(app.browser));
    lines
}

} // verus!
