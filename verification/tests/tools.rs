use zipline::commands::{
    age_lock_args, age_unlock_args, gzip_args, seven_zip_extract_args, seven_zip_list_args,
    seven_zip_pack_args, tar_create_args, tar_extract_args, tar_list_args, zip_pack_args,
};
use zipline::backend::{backend_for, suggested_output, suggested_output_multi, Backend};
use zipline::order::{name_lt, sort_entries, SortKey};
use zipline::paths::{extension, file_name, join, normalize, parent};
use zipline::pty::{failure_message, sanitize, scrub_secret, PromptScanner};
use zipline::text::{chars_of, decimal_string, string_of};

fn strings(parts: &[&str]) -> Vec<String> {
    parts.iter().map(|s| s.to_string()).collect()
}

#[test]
fn scrub_removes_every_echo_of_the_secret() {
    assert_eq!(scrub_secret(b"pw: hunter2\nhunter2 wrong", "hunter2"), b"pw: \n wrong".to_vec());
    assert_eq!(scrub_secret(b"nothing here", ""), b"nothing here".to_vec());
    // What a removal brings together is removed as well.
    assert_eq!(scrub_secret(b"aabb", "ab"), b"".to_vec());
    assert_eq!(scrub_secret(b"xaabby", "ab"), b"xy".to_vec());
}

#[test]
fn sanitize_drops_returns_and_escape_sequences() {
    assert_eq!(sanitize("a\r\nb"), "a\nb");
    assert_eq!(sanitize("\x1b[31mred\x1b[0m!"), "red!");
    assert_eq!(sanitize("x\x1b(y"), "xy");
    assert_eq!(sanitize("end\x1b"), "end");
}

#[test]
fn failure_message_prefers_the_error_line() {
    let text = "Scanning\nERROR: Wrong password : a.txt\nCompressed: 0\n";
    assert_eq!(failure_message(text, Some(2)), "Wrong password : a.txt");
    let age = "age: error: incorrect passphrase\nage: report unexpected or unhelpful errors at https://filippo.io/age/report\n";
    assert_eq!(failure_message(age, Some(1)), "incorrect passphrase");
    assert_eq!(failure_message("just noise\n", Some(1)), "just noise");
    assert_eq!(
        failure_message("\n  \n", Some(3)),
        "the encryption helper exited with status Some(3)"
    );
    assert_eq!(
        failure_message("", None),
        "the encryption helper exited with status None"
    );
    assert_eq!(
        failure_message("", Some(-2)),
        "the encryption helper exited with status Some(-2)"
    );
}

#[test]
fn the_scanner_answers_each_prompt_once() {
    let mut s = PromptScanner::new("Passphrase", 2);
    assert_eq!(s.feed("Enter pass"), 0);
    assert_eq!(s.feed("phrase (leave empty): "), 1);
    assert!(!s.done());
    assert_eq!(s.feed("Confirm passphrase: "), 1);
    assert!(s.done());
    assert_eq!(s.answered(), 2);
    // No more answers once every prompt has been met.
    assert_eq!(s.feed("passphrase passphrase"), 0);
}

#[test]
fn the_scanner_answers_prompts_arriving_together() {
    let mut s = PromptScanner::new("password", 3);
    assert_eq!(s.feed("Enter PASSWORD:Reenter password:"), 2);
    assert_eq!(s.answered(), 2);
}

#[test]
fn seven_zip_packs_with_hidden_names_and_a_prompted_password() {
    assert_eq!(
        seven_zip_pack_args(9, "/w/out.7z", &strings(&["a.txt", "docs"])),
        strings(&["a", "-mhe=on", "-mx=9", "-p", "-y", "--", "/w/out.7z", "a.txt", "docs"])
    );
}

#[test]
fn zip_packs_without_a_password() {
    assert_eq!(
        zip_pack_args(0, "/w/out.zip", &strings(&["docs"])),
        strings(&["a", "-tzip", "-mx=0", "-y", "--", "/w/out.zip", "docs"])
    );
}

#[test]
fn age_streams_come_from_tar_and_gzip() {
    assert_eq!(
        tar_create_args("/w", &strings(&["docs", "-weird"])),
        strings(&["-c", "-C", "/w", "--", "docs", "-weird"])
    );
    assert_eq!(gzip_args(6), strings(&["-6"]));
    assert_eq!(age_lock_args("/w/x.age", None), strings(&["-o", "/w/x.age", "-p"]));
    let rs = strings(&["age1a", "age1b"]);
    assert_eq!(
        age_lock_args("/w/x.age", Some(&rs)),
        strings(&["-o", "/w/x.age", "-r", "age1a", "-r", "age1b"])
    );
}

#[test]
fn opening_commands_unpack_into_staging() {
    assert_eq!(
        age_unlock_args("/s/archive.tar.gz", "/w/x.age", None),
        strings(&["-d", "-o", "/s/archive.tar.gz", "/w/x.age"])
    );
    assert_eq!(
        age_unlock_args("/s/archive.tar.gz", "/w/x.age", Some("/k/id.txt")),
        strings(&["-d", "-i", "/k/id.txt", "-o", "/s/archive.tar.gz", "/w/x.age"])
    );
    assert_eq!(
        tar_extract_args("/s", "/s/archive.tar.gz"),
        strings(&["-x", "-C", "/s", "-f", "/s/archive.tar.gz"])
    );
    assert_eq!(tar_list_args("/s/a.tgz"), strings(&["-tf", "/s/a.tgz"]));
    assert_eq!(seven_zip_list_args("/w/x.zip"), strings(&["l", "-slt", "--", "/w/x.zip"]));
    assert_eq!(
        seven_zip_extract_args("/s", "/w/x.7z"),
        strings(&["x", "-y", "-o/s", "--", "/w/x.7z"])
    );
}

#[test]
fn paths_split_like_the_standard_library() {
    assert_eq!(file_name("/home/u/Photos/"), Some("Photos".to_string()));
    assert_eq!(file_name("/"), None);
    assert_eq!(file_name("a/.."), None);
    assert_eq!(parent("/home/u"), Some("/home".to_string()));
    assert_eq!(parent("/home"), Some("/".to_string()));
    assert_eq!(parent("notes"), Some(String::new()));
    assert_eq!(parent("/"), None);
    assert_eq!(join("/w", "a"), "/w/a");
    assert_eq!(join("/w/", "a"), "/w/a");
    assert_eq!(join("/w", "/etc"), "/etc");
    assert_eq!(join("", "a"), "a");
    assert_eq!(extension("x.tar.gz"), Some("gz".to_string()));
    assert_eq!(extension(".hidden"), None);
    assert_eq!(extension("noext"), None);
}

#[test]
fn normalize_resolves_dots_lexically() {
    assert_eq!(normalize("/a/b/../c/./d"), "/a/c/d");
    assert_eq!(normalize("/../x"), "/x");
    assert_eq!(normalize("a/../../b"), "b");
    assert_eq!(normalize("//a//b/"), "/a/b");
}

#[test]
fn names_sort_by_characters() {
    assert!(name_lt(&chars_of("a"), &chars_of("b")));
    assert!(name_lt(&chars_of("ab"), &chars_of("abc")));
    assert!(!name_lt(&chars_of("b"), &chars_of("a")));
    assert!(!name_lt(&chars_of("a"), &chars_of("a")));
}

#[test]
fn entries_sort_by_rank_then_name_then_position() {
    let key = |rank: i64, name: &str| SortKey { rank, name: chars_of(name) };
    let keys = vec![key(0, "b"), key(-5, "z"), key(0, "a"), key(0, "a")];
    assert_eq!(sort_entries(&keys, vec![0, 1, 2, 3]), vec![1, 2, 3, 0]);
    assert_eq!(sort_entries(&keys, vec![3, 0]), vec![3, 0]);
}

#[test]
fn decimals_and_strings_round_trip() {
    assert_eq!(decimal_string(0), "0");
    assert_eq!(decimal_string(1234567890), "1234567890");
    assert_eq!(string_of(&chars_of("héllo")), "héllo");
}

#[test]
fn dot_components_after_the_first_are_skipped() {
    assert_eq!(file_name("foo/.").as_deref(), Some("foo"));
    assert_eq!(parent("foo/.").as_deref(), Some(""));
    assert_eq!(parent("a/b/.").as_deref(), Some("a"));
    assert_eq!(parent("a/./b").as_deref(), Some("a"));
    assert_eq!(parent("a/.//").as_deref(), Some(""));
    assert_eq!(parent("./a").as_deref(), Some("."));
    assert_eq!(parent("/./a").as_deref(), Some("/"));
    assert_eq!(parent("/.").as_deref(), None);
    assert_eq!(file_name("."), None);
    assert_eq!(file_name("./."), None);
    assert_eq!(file_name("a/.."), None);
    assert_eq!(extension("x.age/.").as_deref(), Some("age"));
}

#[test]
fn outputs_and_backends_skip_a_trailing_dot() {
    assert_eq!(suggested_output("foo/.", Backend::Age), "foo.age");
    assert_eq!(backend_for("x.age/."), Ok(Backend::Age));
    assert_eq!(
        suggested_output_multi(&vec!["a/b/.".to_string(), "a/c".to_string()], Backend::SevenZip),
        "a/a.7z"
    );
}
