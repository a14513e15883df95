use zipline::browser::{
    expand_path, fuzzy_score, lowered_fuzzy_score, Action, Browser, Entry, PathKind, Row,
};
use zipline::paths::extension;

const DIR: &str = "/tmp/fixture";

fn listing() -> Vec<Entry> {
    let e = |name: &str, is_dir: bool| Entry { name: name.to_string(), is_dir };
    vec![
        e("subfolder", true),
        e("readme.txt", false),
        e("backup.7z", false),
        e("secret.age", false),
        e(".hidden", false),
    ]
}

fn fixture(only: Option<&[&str]>) -> Browser {
    let only = only.map(|exts| exts.iter().map(|s| s.to_string()).collect());
    let mut b = Browser::new(DIR.to_string(), only, None);
    assert!(b.needs_listing());
    b.load(&listing());
    assert!(!b.needs_listing());
    b
}

fn labels(b: &Browser) -> Vec<String> {
    b.rows().iter().map(|r| b.label(r)).collect()
}

#[test]
fn encrypt_mode_offers_use_current_and_hides_dotfiles() {
    let b = fixture(None);
    let labels = labels(&b);
    assert!(matches!(b.rows()[0], Row::UseCurrent));
    assert!(labels.iter().any(|l| l.contains("subfolder")));
    assert!(labels.iter().any(|l| l.contains("readme.txt")));
    assert!(
        !labels.iter().any(|l| l.contains(".hidden")),
        "dotfiles must be hidden"
    );
}

#[test]
fn archive_mode_lists_only_archives_and_folders() {
    let b = fixture(Some(&["age", "7z"]));
    let labels = labels(&b);
    assert!(!b.rows().iter().any(|r| matches!(r, Row::UseCurrent)));
    assert!(labels.iter().any(|l| l.contains("secret.age")));
    assert!(labels.iter().any(|l| l.contains("backup.7z")));
    assert!(labels.iter().any(|l| l.contains("subfolder")));
    assert!(
        !labels.iter().any(|l| l.contains("readme.txt")),
        "plain files are filtered out"
    );
}

#[test]
fn listing_puts_up_then_folders_then_files_in_order() {
    let b = fixture(None);
    assert_eq!(
        labels(&b),
        vec![
            "Lock this whole folder  (fixture)".to_string(),
            "..  (up one level)".to_string(),
            "subfolder/".to_string(),
            "backup.7z".to_string(),
            "readme.txt".to_string(),
            "secret.age".to_string(),
        ]
    );
    assert_eq!(b.selected(), Some(0));
}

#[test]
fn hidden_files_show_after_toggling() {
    let mut b = fixture(None);
    b.toggle_hidden();
    assert!(b.needs_listing());
    b.load(&listing());
    assert!(labels(&b).iter().any(|l| l.contains(".hidden")));
}

#[test]
fn choosing_use_current_returns_cwd() {
    let mut b = fixture(None);
    b.select(Some(0)); // UseCurrent
    match b.activate() {
        Action::Chosen(p) => assert_eq!(p, DIR),
        _ => panic!("expected the current folder to be chosen"),
    }
}

#[test]
fn opening_a_folder_descends_into_it() {
    let mut b = fixture(None);
    let idx = b
        .rows()
        .iter()
        .position(|r| matches!(r, Row::Dir(_)))
        .unwrap();
    b.select(Some(idx));
    assert!(matches!(b.activate(), Action::Browsed));
    assert_eq!(b.cwd(), "/tmp/fixture/subfolder");
    assert!(b.needs_listing());
}

#[test]
fn going_up_leaves_for_the_parent() {
    let mut b = fixture(None);
    b.go_up();
    assert_eq!(b.cwd(), "/tmp");
    b.go_up();
    assert_eq!(b.cwd(), "/");
    b.go_up();
    assert_eq!(b.cwd(), "/");
}

#[test]
fn choosing_a_file_returns_it() {
    let mut b = fixture(Some(&["age", "7z"]));
    let idx = b
        .rows()
        .iter()
        .position(|r| matches!(r, Row::File(p) if extension(p).as_deref() == Some("age")))
        .unwrap();
    b.select(Some(idx));
    match b.activate() {
        Action::Chosen(p) => assert_eq!(p, "/tmp/fixture/secret.age"),
        _ => panic!("expected the archive file to be chosen"),
    }
}

#[test]
fn typing_filters_to_fuzzy_matches() {
    let mut b = fixture(None);
    for c in "readme".chars() {
        b.push_query(c);
    }
    let labels = labels(&b);
    assert!(labels.iter().any(|l| l.contains("readme.txt")));
    assert!(!labels.iter().any(|l| l.contains("backup.7z")));
    assert!(!labels.iter().any(|l| l.contains("subfolder")));
}

#[test]
fn clearing_the_query_restores_the_full_list() {
    let mut b = fixture(None);
    let full = b.rows().len();
    for c in "readme".chars() {
        b.push_query(c);
    }
    assert!(b.rows().len() < full);
    b.clear_query();
    assert_eq!(b.rows().len(), full);
    assert_eq!(b.query(), "");
}

#[test]
fn path_query_descends_into_a_directory() {
    let mut b = fixture(None);
    let target = "/tmp/fixture/subfolder";
    for c in target.chars() {
        b.push_query(c);
    }
    assert!(b.is_path_query());
    assert_eq!(b.query_target(), target);
    assert!(matches!(b.resolve_query(PathKind::Dir), Action::Browsed));
    assert_eq!(b.cwd(), target);
    assert_eq!(b.query(), "", "query clears after a jump");
}

#[test]
fn path_query_chooses_a_matching_file() {
    let mut b = fixture(Some(&["age", "7z"]));
    let target = "/tmp/fixture/secret.age";
    for c in target.chars() {
        b.push_query(c);
    }
    match b.resolve_query(PathKind::File) {
        Action::Chosen(p) => assert_eq!(p, target),
        other => panic!(
            "expected the .age file to be chosen, got {:?}",
            matches!(other, Action::Nothing)
        ),
    }
}

#[test]
fn path_query_to_a_filtered_out_file_is_rejected() {
    // Archive mode: a plain .txt is not an allowed pick.
    let mut b = fixture(Some(&["age", "7z"]));
    let target = "/tmp/fixture/readme.txt";
    for c in target.chars() {
        b.push_query(c);
    }
    assert!(matches!(b.resolve_query(PathKind::File), Action::Nothing));
}

#[test]
fn path_query_to_a_missing_path_is_none() {
    let mut b = fixture(None);
    let target = "/tmp/fixture/nope/does-not-exist";
    for c in target.chars() {
        b.push_query(c);
    }
    assert!(matches!(b.resolve_query(PathKind::Other), Action::Nothing));
}

#[test]
fn relative_and_home_paths_expand() {
    assert_eq!(expand_path("docs", "/w", None), "/w/docs");
    assert_eq!(expand_path("  /etc  ", "/w", None), "/etc");
    assert_eq!(expand_path("~/key.txt", "/w", Some("/home/u")), "/home/u/key.txt");
    assert_eq!(expand_path("~", "/w", Some("/home/u")), "/home/u/");
    assert_eq!(expand_path("~/x", "/w", None), "/w/~/x");
}

#[test]
fn navigation_wraps_around() {
    let mut b = fixture(None);
    let n = b.rows().len();
    b.select(Some(0));
    b.move_up();
    assert_eq!(b.selected(), Some(n - 1), "up from the top wraps to the bottom");
    b.move_down();
    assert_eq!(b.selected(), Some(0), "down from the bottom wraps to the top");
}

#[test]
fn down_then_up_returns_to_the_same_row() {
    let mut b = fixture(None);
    for start in 0..b.rows().len() {
        b.select(Some(start));
        b.move_down();
        b.move_up();
        assert_eq!(b.selected(), Some(start));
    }
}

#[test]
fn fuzzy_scores_reward_adjacent_and_word_start_matches() {
    assert_eq!(fuzzy_score("", "anything"), Some(0));
    assert_eq!(fuzzy_score("xyz", "readme.txt"), None);
    assert!(fuzzy_score("read", "readme.txt").unwrap() > fuzzy_score("rdm", "readme.txt").unwrap());
    assert_eq!(fuzzy_score("RM", "readme"), fuzzy_score("rm", "readme"));
}

#[test]
fn lowered_scores_count_runs_and_word_starts() {
    // r: 1 + 2 (start); e: 1 + 3 (run); m: 1 (after a gap)
    assert_eq!(lowered_fuzzy_score("rem", "readme"), Some(8));
    assert_eq!(lowered_fuzzy_score("t", "readme.txt"), Some(3));
    assert_eq!(lowered_fuzzy_score("R", "readme"), None);
    assert_eq!(fuzzy_score("R", "readme"), Some(3));
}

#[test]
fn clearing_after_any_edits_shows_the_same_rows_in_order() {
    let mut b = fixture(None);
    let before = labels(&b);
    for c in "sec".chars() {
        b.push_query(c);
    }
    b.pop_query();
    b.push_query('x');
    b.push_query('y');
    assert_ne!(labels(&b), before);
    b.clear_query();
    assert_eq!(labels(&b), before);
    assert_eq!(b.selected(), Some(0));
    assert_eq!(b.query(), "");
}

fn select_label(b: &mut Browser, name: &str) {
    let i = labels(b).iter().position(|l| l.contains(name)).expect("row");
    b.select(Some(i));
}

#[test]
fn marks_toggle_on_the_highlighted_item() {
    let mut b = fixture(None);
    select_label(&mut b, "readme.txt");
    b.toggle_mark();
    assert_eq!(b.marked(), &vec!["/tmp/fixture/readme.txt".to_string()]);
    select_label(&mut b, "subfolder");
    b.toggle_mark();
    assert_eq!(
        b.marked(),
        &vec!["/tmp/fixture/readme.txt".to_string(), "/tmp/fixture/subfolder".to_string()]
    );
    select_label(&mut b, "readme.txt");
    b.toggle_mark();
    assert_eq!(b.marked(), &vec!["/tmp/fixture/subfolder".to_string()]);
    // The "lock this folder" row cannot be marked.
    b.select(Some(0));
    b.toggle_mark();
    assert_eq!(b.marked(), &vec!["/tmp/fixture/subfolder".to_string()]);
}

#[test]
fn nothing_is_marked_while_picking_an_archive() {
    let mut b = fixture(Some(&["age", "7z", "zip"]));
    select_label(&mut b, "secret.age");
    b.toggle_mark();
    assert!(b.marked().is_empty());
}

#[test]
fn marks_survive_filtering_but_not_leaving_the_folder() {
    let mut b = fixture(None);
    select_label(&mut b, "readme.txt");
    b.toggle_mark();
    b.push_query('r');
    b.clear_query();
    b.load(&listing());
    assert_eq!(b.marked().len(), 1);
    b.go_up();
    assert!(b.marked().is_empty());
}
