use zipline::app::{AgeMethod, App, Flow, Step};
use zipline::backend::{Backend, ToolSearch};
use zipline::ui::{
    age_method_lines, browse_items, browse_prompt, choose_backend_lines, compression_label,
    compression_lines, finished_lines, footer_hint, header, passphrase_lines, query_line,
    review_lines, text_entry_lines, title_of, welcome_lines, working_lines, Span, Tone,
};

fn new_app() -> App {
    App::new(Some("/home/u".to_string()), ToolSearch { dirs: vec![], executables: vec![] })
}

fn text_of(lines: &[Vec<Span>]) -> Vec<String> {
    lines
        .iter()
        .map(|l| l.iter().map(|s| s.text.as_str()).collect::<Vec<_>>().join(""))
        .collect()
}

fn screen(app: &App) -> Vec<Vec<Span>> {
    match app.step {
        Step::Welcome => welcome_lines(app),
        Step::ChooseBackend => choose_backend_lines(app),
        Step::AgeMethod => age_method_lines(app),
        Step::Compression => compression_lines(app),
        Step::Browse => browse_items(app),
        Step::Recipient | Step::Identity => text_entry_lines(app),
        Step::Passphrase => passphrase_lines(app),
        Step::Review => review_lines(app),
        Step::Working => working_lines(app),
        Step::Finished => finished_lines(app),
    }
}

#[test]
fn every_screen_renders_without_panicking() {
    let steps = [
        Step::Welcome,
        Step::ChooseBackend,
        Step::AgeMethod,
        Step::Compression,
        Step::Browse,
        Step::Recipient,
        Step::Passphrase,
        Step::Identity,
        Step::Review,
        Step::Working,
        Step::Finished,
    ];
    for step in steps {
        let mut app = new_app();
        app.step = step;
        let _ = screen(&app);
        assert!(!footer_hint(&app).is_empty());
        assert!(!title_of(step).is_empty());
    }
}

#[test]
fn review_renders_recipient_and_overwrite_details() {
    let mut app = new_app();
    app.step = Step::Review;
    app.flow = Flow::Encrypt;
    app.backend = Backend::Age;
    app.age_method = AgeMethod::Recipients;
    app.recipients = vec!["age1example".into()];
    app.will_overwrite = true;
    app.output = Some("/tmp/thing.age".to_string());
    let t = text_of(&review_lines(&app));
    assert!(t.contains(&"  For   1 recipient (their age key)".to_string()), "{t:?}");
    assert!(t.contains(&"  This replaces the existing thing.age.".to_string()), "{t:?}");
    assert!(t.contains(&"  To      /tmp/thing.age".to_string()), "{t:?}");
    assert!(t.contains(&"  Compression   Normal (5)".to_string()), "{t:?}");

    let mut done = new_app();
    done.step = Step::Finished;
    done.outcome = Some(Err("wrong password, or the file is damaged".into()));
    let t = text_of(&finished_lines(&done));
    assert!(t.contains(&"  wrong password, or the file is damaged".to_string()), "{t:?}");
    assert!(t.contains(&"  ✗ Something went wrong.".to_string()), "{t:?}");
}

#[test]
fn zip_review_warns_there_is_no_password() {
    let mut app = new_app();
    app.flow = Flow::Encrypt;
    app.backend = Backend::Zip;
    app.source = Some("/w/docs".to_string());
    let t = text_of(&review_lines(&app));
    assert_eq!(t[1], "  Ready to pack");
    assert!(t.contains(&"  No password — anyone can open this file.".to_string()));
    assert_eq!(t.last().unwrap(), "  Press Enter to create the zip.");
}

#[test]
fn opening_review_names_the_key_file() {
    let mut app = new_app();
    app.flow = Flow::Decrypt;
    app.source = Some("/w/x.age".to_string());
    app.output = Some("/w".to_string());
    app.identity = Some("/home/u/id.txt".to_string());
    let t = text_of(&review_lines(&app));
    assert_eq!(
        t,
        vec![
            "".to_string(),
            "  Ready to extract".to_string(),
            "".to_string(),
            "  File   /w/x.age".to_string(),
            "  Into   /w".to_string(),
            "  Key   /home/u/id.txt".to_string(),
            "".to_string(),
            "  Press Enter to extract.".to_string(),
        ]
    );
}

#[test]
fn passwords_are_masked_unless_revealed() {
    let mut app = new_app();
    app.step = Step::Passphrase;
    app.source = Some("/w/memo".to_string());
    app.password = "abc".into();
    let lines = passphrase_lines(&app);
    let t = text_of(&lines);
    assert_eq!(t[1], "  Set a password for \"memo\"");
    assert_eq!(lines[3][2].text, format!("{:<24}", "•••"));
    assert_eq!(lines[3][2].tone, Tone::AccentBoldUnderlined);
    app.reveal = true;
    let lines = passphrase_lines(&app);
    assert_eq!(lines[3][2].text, format!("{:<24}", "abc"));
}

#[test]
fn compression_labels_name_the_level() {
    assert_eq!(compression_label(0), "None (0)");
    assert_eq!(compression_label(3), "Faster (3)");
    assert_eq!(compression_label(5), "Normal (5)");
    assert_eq!(compression_label(7), "Smaller (7)");
    assert_eq!(compression_label(9), "Maximum (9)");
}

#[test]
fn menus_mark_the_highlighted_row() {
    let mut app = new_app();
    app.menu = 1;
    let t = text_of(&welcome_lines(&app));
    assert_eq!(t[3], "    Lock or compress a file");
    assert_eq!(t[4], "  ▸ Open a locked file");
    let t = text_of(&choose_backend_lines(&app));
    assert_eq!(t[6], "  ▸ 7z  — Encrypt · portable");
    let t = text_of(&age_method_lines(&app));
    assert_eq!(t[4], "  ▸ Lock for a person (their age public key)");
}

#[test]
fn compression_shows_presets_or_the_typed_level() {
    let mut app = new_app();
    app.backend = Backend::SevenZip;
    app.level_input = String::new();
    let t = text_of(&compression_lines(&app));
    assert_eq!(t[3], "  Level: _");
    app.backend = Backend::Age;
    let t = text_of(&compression_lines(&app));
    assert_eq!(t[3], "  ▸ None — fastest, no shrinking");
}

#[test]
fn working_shows_the_spinner_and_time() {
    let mut app = new_app();
    app.tick = 23;
    app.job_start = 3;
    let t = text_of(&working_lines(&app));
    assert_eq!(t[2], "   ⠙  Encrypting your files…");
    assert_eq!(t[6], "   Elapsed: 2s");
}

#[test]
fn the_footer_follows_the_screen() {
    let mut app = new_app();
    app.step = Step::Passphrase;
    app.flow = Flow::Decrypt;
    app.backend = Backend::Age;
    assert_eq!(
        footer_hint(&app),
        "type password · Ctrl-R show · Ctrl-K key file · Enter continue · Esc back"
    );
    app.step = Step::Review;
    app.editing_output = true;
    assert_eq!(footer_hint(&app), "type a path · Enter save · Esc cancel");
}

#[test]
fn the_browser_shows_its_query_and_rows() {
    let mut app = new_app();
    app.step = Step::Browse;
    assert_eq!(browse_prompt(&app), "Choose what to lock");
    assert_eq!(text_of(&[query_line(&app)]), vec!["  Type to filter, or paste a path".to_string()]);
    app.browser.push_query('~');
    let q = query_line(&app);
    assert_eq!(q[0].text, "  Go to: ");
    assert_eq!(q[1].tone, Tone::Success);
    assert!(browse_items(&app).is_empty());
    let h = header();
    assert_eq!(h[0].text, "zipline");
}

#[test]
fn text_entry_shows_its_prompt_and_note() {
    let mut app = new_app();
    app.step = Step::Identity;
    app.text_input = "~/k".into();
    app.note = Some("No key file at that path.".into());
    let t = text_of(&text_entry_lines(&app));
    assert_eq!(t[1], "  Open with your age key");
    assert_eq!(t[3], "  ~/k▏");
    assert_eq!(t.last().unwrap(), "  No key file at that path.");
}

#[test]
fn marked_items_are_ticked_and_counted() {
    let mut app = new_app();
    app.step = Step::Browse;
    app.browser = zipline::browser::Browser::new("/w/docs".to_string(), None, None);
    app.browser.load(&vec![
        zipline::browser::Entry { name: "a.txt".to_string(), is_dir: false },
        zipline::browser::Entry { name: "b.txt".to_string(), is_dir: false },
    ]);
    let i = app.browser.rows().iter().position(|r| app.browser.label(r).contains("a.txt")).unwrap();
    app.browser.select(Some(i));
    app.browser.toggle_mark();
    let t = text_of(&browse_items(&app));
    assert!(t.iter().any(|l| l.starts_with("✓ ") && l.contains("a.txt")), "{t:?}");
    assert!(t.iter().any(|l| !l.starts_with("✓ ") && l.contains("b.txt")), "{t:?}");
    assert!(footer_hint(&app).contains("Space mark"));

    let mut review = new_app();
    review.step = Step::Review;
    review.flow = Flow::Encrypt;
    review.backend = Backend::SevenZip;
    review.source = Some("/w/docs/a.txt".to_string());
    review.bundle = vec!["/w/docs/a.txt".to_string(), "/w/docs/b.txt".to_string()];
    review.output = Some("/w/docs/docs.7z".to_string());
    let t = text_of(&review_lines(&review));
    assert!(t.iter().any(|l| l.contains("Items") && l.contains("2 locked together")), "{t:?}");
}
