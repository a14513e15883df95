use zipline::app::{
    AgeMethod, App, Awaiting, Effect, Field, Flow, Job, Key, KeyCode, KeyFile, Reply, Run, Step,
};
use zipline::backend::{suggested_output, Backend, ToolSearch};
use zipline::browser::{Entry, PathKind};

/// A tiny stand-in for the disk: folders, files with their text, and which
/// zips are encrypted.
struct World {
    dirs: Vec<&'static str>,
    files: Vec<(&'static str, &'static str)>,
    locked_zips: Vec<&'static str>,
}

impl World {
    fn empty() -> World {
        World { dirs: vec![], files: vec![], locked_zips: vec![] }
    }
    fn is_dir(&self, p: &str) -> bool {
        self.dirs.iter().any(|d| *d == p)
    }
    fn file(&self, p: &str) -> Option<String> {
        self.files.iter().find(|(f, _)| *f == p).map(|(_, t)| t.to_string())
    }
}

/// Answer the wizard's questions from `w` until it asks nothing more; hands
/// back a job it started.
fn settle(app: &mut App, first: Effect, w: &World) -> Option<Job> {
    let mut e = first;
    loop {
        e = match e {
            Effect::Nothing => return None,
            Effect::StartJob(j) => return Some(j),
            Effect::CheckPath(p) => {
                let k = if w.is_dir(&p) {
                    PathKind::Dir
                } else if w.file(&p).is_some() {
                    PathKind::File
                } else {
                    PathKind::Other
                };
                app.resume(Reply::Kind(k))
            }
            Effect::ProbeArchive(p) => {
                let locked = !p.ends_with(".zip") || w.locked_zips.iter().any(|z| *z == p);
                app.resume(Reply::Encrypted(locked))
            }
            Effect::CheckExists(p) => {
                let there = w.is_dir(&p) || w.file(&p).is_some();
                app.resume(Reply::Exists(there))
            }
            Effect::ReadKeyFile(p) => {
                let kf = match w.file(&p) {
                    Some(t) => KeyFile::Text(t),
                    None => KeyFile::NotAFile,
                };
                app.resume(Reply::KeyFile(kf))
            }
            Effect::CheckFile(p) => {
                let is_file = w.file(&p).is_some();
                app.resume(Reply::IsFile(is_file))
            }
        };
    }
}

fn all_tools() -> ToolSearch {
    ToolSearch {
        dirs: vec!["/usr/bin".to_string()],
        executables: vec!["/usr/bin/age".to_string(), "/usr/bin/7z".to_string()],
    }
}

fn new_app() -> App {
    App::new(Some("/home/u".to_string()), all_tools())
}

fn press(app: &mut App, code: KeyCode) -> Effect {
    app.on_key(Key { code, ctrl: false })
}

fn ctrl(app: &mut App, c: char) -> Effect {
    app.on_key(Key { code: KeyCode::Char(c), ctrl: true })
}

fn key(app: &mut App, code: KeyCode, w: &World) -> Option<Job> {
    let e = press(app, code);
    settle(app, e, w)
}

fn typed(app: &mut App, text: &str) {
    for c in text.chars() {
        let e = press(app, KeyCode::Char(c));
        assert!(matches!(e, Effect::Nothing));
    }
}

#[test]
fn welcome_enter_starts_encrypt_flow() {
    let mut app = new_app();
    assert!(matches!(app.step, Step::Welcome));
    press(&mut app, KeyCode::Enter);
    assert!(matches!(app.step, Step::ChooseBackend));
    assert_eq!(app.flow, Flow::Encrypt);
}

#[test]
fn welcome_down_to_open_flow() {
    let mut app = new_app();
    press(&mut app, KeyCode::Down);
    press(&mut app, KeyCode::Enter);
    assert!(matches!(app.step, Step::Browse));
    assert_eq!(app.flow, Flow::Decrypt);
    assert!(app.browser.picking_archive());
    assert_eq!(app.browser.cwd(), "/home/u");
}

#[test]
fn browse_typing_builds_a_query_and_esc_clears_it() {
    let mut app = new_app();
    app.step = Step::Browse;
    typed(&mut app, "ab");
    assert_eq!(app.browser.query(), "ab");
    press(&mut app, KeyCode::Esc);
    assert_eq!(app.browser.query(), "", "esc empties the query first");
    assert!(
        matches!(app.step, Step::Browse),
        "esc with a query stays on the browse screen"
    );
}

#[test]
fn browse_backspace_edits_query_before_leaving_folder() {
    let mut app = new_app();
    app.step = Step::Browse;
    typed(&mut app, "ab");
    press(&mut app, KeyCode::Backspace);
    assert_eq!(app.browser.query(), "a");
}

#[test]
fn browse_backspace_on_an_empty_query_goes_up() {
    let mut app = new_app();
    app.step = Step::Browse;
    press(&mut app, KeyCode::Backspace);
    assert_eq!(app.browser.cwd(), "/home");
    assert!(app.browser.needs_listing());
}

#[test]
fn choosing_a_backend_advances_the_wizard() {
    for (downs, backend) in [
        (0usize, Backend::Age),
        (1, Backend::SevenZip),
        (2, Backend::Zip),
    ] {
        let mut app = new_app();
        app.flow = Flow::Encrypt;
        app.step = Step::ChooseBackend;
        for _ in 0..downs {
            press(&mut app, KeyCode::Down);
        }
        press(&mut app, KeyCode::Enter);
        if backend == Backend::Age {
            // age first asks how to lock (password vs recipient).
            assert!(
                matches!(app.step, Step::AgeMethod),
                "age should lead to the method step"
            );
        } else {
            assert!(
                matches!(app.step, Step::Compression),
                "{backend:?} should lead to the compression step"
            );
        }
        assert_eq!(app.backend, backend);
    }
}

#[test]
fn a_missing_backend_is_explained_and_not_chosen() {
    let mut app = App::new(None, ToolSearch { dirs: vec![], executables: vec![] });
    app.step = Step::ChooseBackend;
    press(&mut app, KeyCode::Enter);
    assert!(matches!(app.step, Step::ChooseBackend));
    assert_eq!(
        app.note.as_deref(),
        Some("Secure (age) is not installed yet. Install it with:  sudo apt install age   (or: sudo dnf install age)")
    );
    // The next key clears the note.
    press(&mut app, KeyCode::Up);
    assert!(app.note.is_none());
}

#[test]
fn seven_zip_compression_accepts_a_typed_level() {
    let mut app = new_app();
    app.backend = Backend::SevenZip;
    app.step = Step::Compression;
    app.level_input = "5".into();
    press(&mut app, KeyCode::Char('9'));
    app.confirm_compression();
    assert_eq!(app.level, 9);
    assert!(matches!(app.step, Step::Browse));
}

#[test]
fn seven_zip_compression_defaults_to_normal_when_blank() {
    let mut app = new_app();
    app.backend = Backend::SevenZip;
    app.step = Step::Compression;
    press(&mut app, KeyCode::Backspace); // clear the "5"
    app.confirm_compression();
    assert_eq!(app.level, 5, "blank entry falls back to Normal (5)");
}

#[test]
fn compression_ignores_letters_and_caps_big_numbers() {
    let mut app = new_app();
    app.backend = Backend::Zip;
    app.step = Step::Compression;
    press(&mut app, KeyCode::Char('x'));
    assert_eq!(app.level_input, "5");
    app.level_input = " 42 ".into();
    app.confirm_compression();
    assert_eq!(app.level, 9);
}

#[test]
fn age_compression_presets_map_to_gzip_levels() {
    for (menu, expected) in [(0u8, 0u8), (1, 6), (2, 9)] {
        let mut app = new_app();
        app.backend = Backend::Age;
        app.step = Step::Compression;
        app.menu = menu as usize;
        app.confirm_compression();
        assert_eq!(app.level, expected, "age preset {menu}");
    }
}

#[test]
fn zip_skips_the_password_step() {
    let mut app = new_app();
    app.flow = Flow::Encrypt;
    app.backend = Backend::Zip;
    let e = app.choose_path("/tmp/docs".to_string());
    assert!(matches!(&e, Effect::CheckExists(p) if p == "/tmp/docs.zip"));
    settle(&mut app, e, &World::empty());
    assert!(
        matches!(app.step, Step::Review),
        "zip is compress-only — straight to review"
    );
    assert!(app.password.is_empty());
}

#[test]
fn age_asks_for_a_password() {
    let mut app = new_app();
    app.flow = Flow::Encrypt;
    app.backend = Backend::Age;
    let e = app.choose_path("/tmp/docs".to_string());
    assert!(matches!(e, Effect::Nothing));
    assert!(matches!(app.step, Step::Passphrase));
    assert_eq!(app.output.as_deref(), Some("/tmp/docs.age"));
    assert_eq!(app.source.as_deref(), Some("/tmp/docs"));
}

#[test]
fn opening_a_plain_zip_skips_the_password_step() {
    let mut app = new_app();
    app.flow = Flow::Decrypt;
    let e = app.choose_path("/w/docs.zip".to_string());
    assert!(matches!(&e, Effect::ProbeArchive(p) if p == "/w/docs.zip"));
    settle(&mut app, e, &World::empty());
    assert!(
        matches!(app.step, Step::Review),
        "a plain zip opens without a password"
    );
    assert_eq!(app.backend, Backend::Zip);
    assert_eq!(app.output.as_deref(), Some("/w"));
}

#[test]
fn opening_a_locked_zip_asks_for_the_password() {
    let mut app = new_app();
    app.flow = Flow::Decrypt;
    let w = World { dirs: vec![], files: vec![], locked_zips: vec!["/w/docs.zip"] };
    let e = app.choose_path("/w/docs.zip".to_string());
    settle(&mut app, e, &w);
    assert!(matches!(app.step, Step::Passphrase));
}

#[test]
fn opening_an_unknown_file_is_explained() {
    let mut app = new_app();
    app.flow = Flow::Decrypt;
    app.step = Step::Browse;
    let e = app.choose_path("/w/notes.txt".to_string());
    assert!(matches!(e, Effect::Nothing));
    assert!(matches!(app.step, Step::Browse));
    assert_eq!(
        app.note.as_deref(),
        Some("zipline can open .age, .7z and .zip files; this is none of those")
    );
}

#[test]
fn a_typed_path_to_nothing_is_explained() {
    let mut app = new_app();
    app.step = Step::Browse;
    typed(&mut app, "/nowhere");
    let e = press(&mut app, KeyCode::Enter);
    assert!(matches!(&e, Effect::CheckPath(p) if p == "/nowhere"));
    assert_eq!(app.awaiting, Awaiting::PathKind);
    settle(&mut app, e, &World::empty());
    assert_eq!(app.note.as_deref(), Some("No file or folder at that path."));
    assert_eq!(app.awaiting, Awaiting::Idle);
}

#[test]
fn a_typed_folder_is_entered_and_a_typed_file_chosen() {
    let w = World { dirs: vec!["/w/docs"], files: vec![("/w/docs/a.txt", "x")], locked_zips: vec![] };
    let mut app = new_app();
    app.step = Step::Browse;
    typed(&mut app, "/w/docs");
    key(&mut app, KeyCode::Enter, &w);
    assert_eq!(app.browser.cwd(), "/w/docs");
    assert_eq!(app.browser.query(), "");
    typed(&mut app, "/w/docs/a.txt");
    key(&mut app, KeyCode::Right, &w);
    assert_eq!(app.source.as_deref(), Some("/w/docs/a.txt"));
    assert!(matches!(app.step, Step::Passphrase));
}

#[test]
fn enter_on_the_highlighted_row_chooses_it() {
    let mut app = new_app();
    app.step = Step::Browse;
    app.browser.load(&vec![Entry { name: "docs".to_string(), is_dir: true }]);
    // The first row locks the folder being shown.
    key(&mut app, KeyCode::Enter, &World::empty());
    assert_eq!(app.source.as_deref(), Some("/home/u"));
    assert_eq!(app.output.as_deref(), Some("/home/u.age"));
    assert!(matches!(app.step, Step::Passphrase));
}

#[test]
fn quit_from_welcome() {
    let mut app = new_app();
    press(&mut app, KeyCode::Char('q'));
    assert!(app.quit);
}

#[test]
fn ctrl_c_quits_from_any_screen() {
    for step in [Step::Browse, Step::Passphrase, Step::Review, Step::Working] {
        let mut app = new_app();
        app.step = step;
        ctrl(&mut app, 'c');
        assert!(app.quit);
    }
}

#[test]
fn mismatched_passwords_are_rejected() {
    let mut app = new_app();
    app.flow = Flow::Encrypt;
    app.source = Some("/tmp/whatever".to_string());
    app.step = Step::Passphrase;
    app.field = Field::Password;

    typed(&mut app, "hunter2");
    press(&mut app, KeyCode::Tab);
    typed(&mut app, "hunterX");
    press(&mut app, KeyCode::Enter);

    assert!(
        matches!(app.step, Step::Passphrase),
        "should stay on the password screen"
    );
    assert!(app.note.is_some(), "should explain the mismatch");
    assert_eq!(app.confirm, "");
    assert_eq!(app.field, Field::Confirm);
}

#[test]
fn matching_passwords_advance_to_review() {
    let mut app = new_app();
    app.flow = Flow::Encrypt;
    app.source = Some("/tmp/whatever".to_string());
    app.step = Step::Passphrase;

    typed(&mut app, "hunter2");
    press(&mut app, KeyCode::Tab);
    typed(&mut app, "hunter2");
    press(&mut app, KeyCode::Enter);

    assert!(matches!(app.step, Step::Review));
}

#[test]
fn the_first_enter_moves_to_the_confirmation() {
    let mut app = new_app();
    app.step = Step::Passphrase;
    press(&mut app, KeyCode::Enter);
    assert_eq!(app.note.as_deref(), Some("Please type a password."));
    typed(&mut app, "pw");
    press(&mut app, KeyCode::Enter);
    assert_eq!(app.field, Field::Confirm);
    assert!(matches!(app.step, Step::Passphrase));
}

#[test]
fn wizard_encrypts_and_decrypts_through_the_worker() {
    let src = "/w/memo".to_string();
    let out = suggested_output(&src, Backend::Age);

    // Encrypt through Review -> Working -> Finished.
    let mut app = new_app();
    app.flow = Flow::Encrypt;
    app.backend = Backend::Age;
    app.source = Some(src.clone());
    app.output = Some(out.clone());
    app.password = "s3cret".into();
    app.step = Step::Review;
    let job = key(&mut app, KeyCode::Enter, &World::empty()).expect("a job");
    assert!(matches!(app.step, Step::Working));
    assert_eq!(job.flow, Flow::Encrypt);
    assert_eq!(job.sources, vec![src.clone()]);
    assert_eq!(job.output, out);
    assert_eq!(job.password, "s3cret");
    assert!(
        app.password.is_empty(),
        "password should be cleared after the job starts"
    );
    app.job_finished(Ok(job.output.clone()));
    assert!(matches!(app.step, Step::Finished));
    assert_eq!(app.outcome, Some(Ok(out.clone())));

    // Decrypt the result back.
    let dest = "/w/restored".to_string();
    let mut app = new_app();
    app.flow = Flow::Decrypt;
    app.source = Some(out.clone());
    app.output = Some(dest.clone());
    app.password = "s3cret".into();
    app.step = Step::Review;
    let job = key(&mut app, KeyCode::Enter, &World::empty()).expect("a job");
    assert_eq!(job.flow, Flow::Decrypt);
    assert_eq!(job.output, dest);
    assert!(job.identity.is_none());
    app.job_finished(Ok("/w/restored/memo".to_string()));
    assert_eq!(app.outcome, Some(Ok("/w/restored/memo".to_string())));
}

#[test]
fn wizard_zip_flow_produces_a_plain_archive() {
    let mut app = new_app();
    app.flow = Flow::Encrypt;
    app.step = Step::ChooseBackend;
    press(&mut app, KeyCode::Down);
    press(&mut app, KeyCode::Down);
    press(&mut app, KeyCode::Enter); // zip -> Compression
    assert!(matches!(app.step, Step::Compression));
    press(&mut app, KeyCode::Enter); // accept default level -> Browse
    assert!(matches!(app.step, Step::Browse));

    let e = app.choose_path("/w/docs".to_string());
    settle(&mut app, e, &World::empty());
    assert!(
        matches!(app.step, Step::Review),
        "zip needs no password — straight to review"
    );
    let job = key(&mut app, KeyCode::Enter, &World::empty()).expect("a job");
    assert_eq!(job.backend, Backend::Zip);
    assert_eq!(job.password, "");
    assert_eq!(job.level, 5);
    assert_eq!(job.output, "/w/docs.zip");
}

#[test]
fn age_recipient_wizard_routes_through_recipient_step() {
    let mut app = new_app();
    app.flow = Flow::Encrypt;
    app.step = Step::ChooseBackend; // age is menu 0
    press(&mut app, KeyCode::Enter); // choose age -> AgeMethod
    assert!(matches!(app.step, Step::AgeMethod));

    press(&mut app, KeyCode::Down); // highlight "for a recipient"
    press(&mut app, KeyCode::Enter); // -> Compression
    assert!(matches!(app.step, Step::Compression));
    assert_eq!(app.age_method, AgeMethod::Recipients);

    press(&mut app, KeyCode::Enter); // accept compression -> Browse
    assert!(matches!(app.step, Step::Browse));

    let e = app.choose_path("/tmp/docs".to_string()); // -> Recipient (no password)
    settle(&mut app, e, &World::empty());
    assert!(matches!(app.step, Step::Recipient));

    typed(&mut app, "age1qqqexamplekey");
    key(&mut app, KeyCode::Enter, &World::empty()); // -> Review
    assert!(matches!(app.step, Step::Review));
    assert_eq!(app.recipients, vec!["age1qqqexamplekey".to_string()]);
    // Esc from Review goes back to the recipient step, not the password one.
    press(&mut app, KeyCode::Esc);
    assert!(matches!(app.step, Step::Recipient));
}

#[test]
fn a_recipient_key_file_lists_its_keys() {
    let w = World {
        dirs: vec![],
        files: vec![
            ("/home/u/team.txt", "# the team\nage1alice\n\n  age1bob  \n"),
            ("/home/u/blank.txt", "# nobody\n\n"),
        ],
        locked_zips: vec![],
    };
    let mut app = new_app();
    app.step = Step::Recipient;
    app.output = Some("/w/x.age".to_string());
    key(&mut app, KeyCode::Enter, &w);
    assert_eq!(
        app.note.as_deref(),
        Some("Paste the recipient's public key, or a key file path.")
    );
    typed(&mut app, "~/blank.txt");
    key(&mut app, KeyCode::Enter, &w);
    assert_eq!(app.note.as_deref(), Some("That key file has no recipients in it."));
    for _ in 0.."blank.txt".len() {
        press(&mut app, KeyCode::Backspace);
    }
    typed(&mut app, "team.txt");
    key(&mut app, KeyCode::Enter, &w);
    assert_eq!(app.recipients, vec!["age1alice".to_string(), "age1bob".to_string()]);
    assert!(matches!(app.step, Step::Review));
}

#[test]
fn an_unreadable_key_file_is_explained() {
    let mut app = new_app();
    app.step = Step::Recipient;
    typed(&mut app, "/k");
    let e = press(&mut app, KeyCode::Enter);
    assert!(matches!(&e, Effect::ReadKeyFile(p) if p == "/k"));
    app.resume(Reply::KeyFile(KeyFile::Unreadable));
    assert_eq!(app.note.as_deref(), Some("Could not read that key file."));
    assert!(matches!(app.step, Step::Recipient));
}

#[test]
fn decrypt_age_ctrl_k_opens_identity_entry_and_validates() {
    let mut app = new_app();
    app.flow = Flow::Decrypt;
    app.backend = Backend::Age;
    app.step = Step::Passphrase;
    ctrl(&mut app, 'k');
    assert!(matches!(app.step, Step::Identity));

    typed(&mut app, "/no/such/key");
    key(&mut app, KeyCode::Enter, &World::empty());
    assert!(
        matches!(app.step, Step::Identity),
        "a missing key file keeps us on the entry screen"
    );
    assert!(app.note.is_some());
    assert!(app.identity.is_none());
}

#[test]
fn decrypt_age_identity_accepts_an_existing_key_file() {
    let w = World {
        dirs: vec!["/w"],
        files: vec![("/w/id.txt", "AGE-SECRET-KEY-EXAMPLE")],
        locked_zips: vec![],
    };
    let mut app = new_app();
    app.flow = Flow::Decrypt;
    app.backend = Backend::Age;
    app.source = Some("/w/x.age".to_string());
    app.output = Some("/w".to_string());
    app.step = Step::Identity;
    typed(&mut app, "/w/id.txt");
    key(&mut app, KeyCode::Enter, &w);

    assert!(matches!(app.step, Step::Review));
    assert_eq!(app.identity.as_deref(), Some("/w/id.txt"));
    // Back from Review returns to the key file entry.
    press(&mut app, KeyCode::Esc);
    assert!(matches!(app.step, Step::Identity));
}

#[test]
fn finished_enter_returns_to_welcome() {
    let mut app = new_app();
    app.step = Step::Finished;
    app.outcome = Some(Ok("/tmp/x.age".to_string()));
    press(&mut app, KeyCode::Enter);
    assert!(matches!(app.step, Step::Welcome));
    assert!(app.outcome.is_none());
}

#[test]
fn esc_on_welcome_does_not_quit() {
    let mut app = new_app();
    press(&mut app, KeyCode::Esc);
    assert!(!app.quit, "Esc on Welcome should be a no-op, not an exit");
    assert!(matches!(app.step, Step::Welcome));
}

#[test]
fn ctrl_r_toggles_password_reveal() {
    let mut app = new_app();
    app.step = Step::Passphrase;
    assert!(!app.reveal);
    ctrl(&mut app, 'r');
    assert!(app.reveal, "Ctrl-R should reveal");
    ctrl(&mut app, 'r');
    assert!(!app.reveal, "Ctrl-R again should hide");
    // A plain 'r' is still a password character, not a toggle.
    press(&mut app, KeyCode::Char('r'));
    assert_eq!(app.password, "r");
    assert!(!app.reveal);
}

#[test]
fn review_flags_an_existing_output_for_overwrite() {
    let w = World { dirs: vec!["/w"], files: vec![("/w/thing.age", "old")], locked_zips: vec![] };
    let mut app = new_app();
    app.flow = Flow::Encrypt;
    app.source = Some("/w/thing".to_string());
    app.output = Some("/w/thing.age".to_string());
    app.step = Step::Passphrase;
    typed(&mut app, "hunter2");
    press(&mut app, KeyCode::Tab);
    typed(&mut app, "hunter2");
    key(&mut app, KeyCode::Enter, &w);

    assert!(matches!(app.step, Step::Review));
    assert!(app.will_overwrite, "an existing output must be flagged");
}

#[test]
fn editing_the_destination_retargets_output_and_overwrite() {
    let w = World { dirs: vec!["/w"], files: vec![("/w/existing.age", "x")], locked_zips: vec![] };
    let mut app = new_app();
    app.flow = Flow::Encrypt;
    app.source = Some("/w/thing".to_string());
    app.output = Some("/w/thing.age".to_string()); // fresh, no overwrite
    app.step = Step::Review;

    press(&mut app, KeyCode::Char('e')); // begin edit
    assert!(app.editing_output);
    let seeded = app.output_input.len();
    for _ in 0..seeded {
        press(&mut app, KeyCode::Backspace);
    }
    typed(&mut app, "/w/existing.age");
    key(&mut app, KeyCode::Enter, &w); // commit

    assert!(!app.editing_output);
    assert_eq!(app.output.as_deref(), Some("/w/existing.age"));
    assert!(
        app.will_overwrite,
        "retargeting onto an existing file must flag the overwrite"
    );
}

#[test]
fn editing_the_destination_accepts_a_bare_name_beside_the_original() {
    let mut app = new_app();
    app.flow = Flow::Encrypt;
    app.source = Some("/w/thing".to_string());
    app.output = Some("/w/thing.age".to_string());
    app.step = Step::Review;

    press(&mut app, KeyCode::Char('e'));
    let seeded = app.output_input.len();
    for _ in 0..seeded {
        press(&mut app, KeyCode::Backspace);
    }
    typed(&mut app, "backup.age"); // bare name -> same folder as the original
    key(&mut app, KeyCode::Enter, &World::empty());

    assert_eq!(app.output.as_deref(), Some("/w/backup.age"));
}

#[test]
fn an_opened_archive_goes_into_the_typed_folder() {
    let mut app = new_app();
    app.flow = Flow::Decrypt;
    app.output = Some("/w".to_string());
    app.step = Step::Review;
    app.will_overwrite = false;
    press(&mut app, KeyCode::Char('e'));
    press(&mut app, KeyCode::Backspace);
    press(&mut app, KeyCode::Backspace);
    typed(&mut app, "out");
    let e = press(&mut app, KeyCode::Enter);
    // Opening never overwrites, so nothing is asked.
    assert!(matches!(e, Effect::Nothing));
    assert_eq!(app.output.as_deref(), Some("/w/out"));
    assert!(!app.will_overwrite);
}

#[test]
fn review_does_not_flag_a_fresh_output() {
    let mut app = new_app();
    app.flow = Flow::Encrypt;
    app.source = Some("/w/thing".to_string());
    app.output = Some("/w/thing.age".to_string()); // does not exist
    app.step = Step::Passphrase;
    typed(&mut app, "pw");
    press(&mut app, KeyCode::Tab);
    typed(&mut app, "pw");
    key(&mut app, KeyCode::Enter, &World::empty());

    assert!(matches!(app.step, Step::Review));
    assert!(!app.will_overwrite);
}

#[test]
fn an_answer_not_asked_for_is_ignored() {
    let mut app = new_app();
    app.step = Step::Review;
    app.flow = Flow::Encrypt;
    let e = app.resume(Reply::Exists(true));
    assert!(matches!(e, Effect::Nothing));
    assert!(!app.will_overwrite);
}

#[test]
fn a_job_end_without_a_job_is_ignored() {
    let mut app = new_app();
    app.job_finished(Err("late".to_string()));
    assert!(matches!(app.step, Step::Welcome));
    assert!(app.outcome.is_none());
}

#[test]
fn review_without_a_source_starts_nothing() {
    let mut app = new_app();
    app.step = Step::Review;
    let e = press(&mut app, KeyCode::Enter);
    assert!(matches!(e, Effect::Nothing));
    assert!(matches!(app.step, Step::Review));
}

#[test]
fn the_clock_counts_tenths_of_a_second() {
    let mut app = new_app();
    for _ in 0..25 {
        app.tick();
    }
    assert_eq!(app.tick, 25);
    app.job_start = 3;
    assert_eq!(app.elapsed_secs(), 2);
    app.job_start = 100;
    assert_eq!(app.elapsed_secs(), 0);
    app.tick = u64::MAX;
    app.tick();
    assert_eq!(app.tick, 0);
}

#[test]
fn working_ignores_keys() {
    let mut app = new_app();
    app.step = Step::Working;
    press(&mut app, KeyCode::Esc);
    press(&mut app, KeyCode::Char('q'));
    assert!(matches!(app.step, Step::Working));
    assert!(!app.quit);
}

#[test]
fn leaving_the_password_screen_wipes_what_was_typed() {
    let mut app = new_app();
    app.step = Step::Passphrase;
    typed(&mut app, "secret");
    press(&mut app, KeyCode::Tab);
    typed(&mut app, "secret");
    ctrl(&mut app, 'r');
    press(&mut app, KeyCode::Esc);
    assert!(matches!(app.step, Step::Browse));
    assert_eq!(app.password, "");
    assert_eq!(app.confirm, "");
    assert!(!app.reveal);
}

fn highlight(app: &mut App, name: &str) {
    let i = app
        .browser
        .rows()
        .iter()
        .position(|r| app.browser.label(r).contains(name))
        .expect("row");
    app.browser.select(Some(i));
}

fn docs_listing() -> Vec<Entry> {
    vec![
        Entry { name: "a.txt".to_string(), is_dir: false },
        Entry { name: "b.txt".to_string(), is_dir: false },
    ]
}

#[test]
fn space_marks_and_enter_locks_the_marked_items_together() {
    let mut app = new_app();
    app.flow = Flow::Encrypt;
    app.backend = Backend::Age;
    app.step = Step::Browse;
    app.browser = zipline::browser::Browser::new("/w/docs".to_string(), None, None);
    app.browser.load(&docs_listing());
    highlight(&mut app, "a.txt");
    press(&mut app, KeyCode::Char(' '));
    highlight(&mut app, "b.txt");
    press(&mut app, KeyCode::Char(' '));
    assert_eq!(app.browser.query(), "", "space marks; it is not typed");
    assert_eq!(
        app.browser.marked(),
        &vec!["/w/docs/a.txt".to_string(), "/w/docs/b.txt".to_string()]
    );

    key(&mut app, KeyCode::Enter, &World::empty());
    assert!(matches!(app.step, Step::Passphrase));
    assert_eq!(app.source.as_deref(), Some("/w/docs/a.txt"));
    assert_eq!(app.bundle, vec!["/w/docs/a.txt".to_string(), "/w/docs/b.txt".to_string()]);
    assert_eq!(app.output.as_deref(), Some("/w/docs/docs.age"));

    app.password = "pw".into();
    app.step = Step::Review;
    let job = key(&mut app, KeyCode::Enter, &World::empty()).expect("a job");
    assert_eq!(job.sources, vec!["/w/docs/a.txt".to_string(), "/w/docs/b.txt".to_string()]);
    assert_eq!(job.output, "/w/docs/docs.age");
    assert_eq!(job.run(), Run::LockWithPassword);
}

#[test]
fn space_unmarks_a_marked_item() {
    let mut app = new_app();
    app.step = Step::Browse;
    app.browser = zipline::browser::Browser::new("/w/docs".to_string(), None, None);
    app.browser.load(&docs_listing());
    highlight(&mut app, "a.txt");
    press(&mut app, KeyCode::Char(' '));
    press(&mut app, KeyCode::Char(' '));
    assert!(app.browser.marked().is_empty());
    // With nothing marked, Enter locks the highlighted file alone.
    key(&mut app, KeyCode::Enter, &World::empty());
    assert_eq!(app.source.as_deref(), Some("/w/docs/a.txt"));
    assert!(app.bundle.is_empty());
}

#[test]
fn space_in_a_typed_path_is_part_of_the_path() {
    let mut app = new_app();
    app.step = Step::Browse;
    typed(&mut app, "/w/my files");
    assert_eq!(app.browser.query(), "/w/my files");
    assert!(app.browser.marked().is_empty());
}

#[test]
fn leaving_the_folder_drops_the_marks() {
    let mut app = new_app();
    app.step = Step::Browse;
    app.browser = zipline::browser::Browser::new("/w/docs".to_string(), None, None);
    app.browser.load(&docs_listing());
    highlight(&mut app, "a.txt");
    press(&mut app, KeyCode::Char(' '));
    assert_eq!(app.browser.marked().len(), 1);
    press(&mut app, KeyCode::Backspace);
    assert_eq!(app.browser.cwd(), "/w");
    assert!(app.browser.marked().is_empty());
}

#[test]
fn jobs_run_the_way_their_fields_say() {
    let mut job = Job {
        flow: Flow::Encrypt,
        backend: Backend::Age,
        sources: vec!["/w/a".to_string()],
        output: "/w/a.age".to_string(),
        password: String::new(),
        level: 5,
        age_method: AgeMethod::Recipients,
        recipients: vec!["age1x".to_string()],
        identity: None,
    };
    assert_eq!(job.run(), Run::LockForRecipients);
    job.backend = Backend::SevenZip;
    assert_eq!(job.run(), Run::LockWithPassword);
    job.flow = Flow::Decrypt;
    assert_eq!(job.run(), Run::OpenWithPassword);
    job.identity = Some("/k".to_string());
    assert_eq!(job.run(), Run::OpenWithKey);
}
