use zipline::archive::{
    first_unsafe_member, is_unsafe_member, listing_reports_encryption, symlink_escapes,
    tar_listing_unsafe,
};
use zipline::backend::{
    age_failure_detail, backend_for, clamp_level, decrypt_preflight, doctor, encrypt_preflight,
    encryption_of, extract_mode, failure_detail, free_name, friendly_error, helper_program,
    identity_preflight, output_clearance, recipients_preflight, relocation_names, split_many,
    suggested_output, suggested_output_multi, unique_path, which, Backend, ExtractMode, ToolSearch,
    Unlock,
};

fn tools(found: &[&str]) -> ToolSearch {
    ToolSearch {
        dirs: vec!["/opt/bin".to_string(), "/usr/bin".to_string()],
        executables: found.iter().map(|s| s.to_string()).collect(),
    }
}

fn strings(parts: &[&str]) -> Vec<String> {
    parts.iter().map(|s| s.to_string()).collect()
}

#[test]
fn flags_a_parent_traversal_zip_member() {
    let listing = "Path = /tmp/a.zip\n----------\nPath = docs/ok.txt\nPath = ../escape.txt\n";
    assert_eq!(
        first_unsafe_member(listing).as_deref(),
        Some("../escape.txt")
    );
}

#[test]
fn ignores_the_absolute_archive_header_path() {
    // The header's own `Path =` is absolute but must not be treated as a member.
    let listing = "Path = /tmp/a.zip\n----------\nPath = docs/ok.txt\n";
    assert!(first_unsafe_member(listing).is_none());
}

#[test]
fn flags_an_absolute_member() {
    let listing = "Path = a.zip\n----------\nPath = /etc/passwd\n";
    assert_eq!(first_unsafe_member(listing).as_deref(), Some("/etc/passwd"));
}

#[test]
fn flags_a_windows_traversal_member() {
    let listing = "Path = a.zip\n----------\nPath = ..\\..\\escape\n";
    assert!(first_unsafe_member(listing).is_some());
}

#[test]
fn member_names_are_judged_on_their_own() {
    assert!(is_unsafe_member("/etc/passwd"));
    assert!(is_unsafe_member("../x"));
    assert!(is_unsafe_member("a/../../x"));
    assert!(is_unsafe_member("C:\\Windows"));
    assert!(!is_unsafe_member("docs/a..b.txt"));
    assert!(!is_unsafe_member("docs/ok.txt"));
}

#[test]
fn rejects_parent_traversal_member() {
    assert!(tar_listing_unsafe("x\n../escape\n"));
}

#[test]
fn accepts_normal_members() {
    assert!(!tar_listing_unsafe("folder/\nfolder/a\n"));
    assert!(tar_listing_unsafe("/etc/\n"));
}

#[test]
fn is_encrypted_distinguishes_plain_and_aes_zip() {
    let plain = "Path = docs.zip\n----------\nPath = docs/a.txt\nEncrypted = -\n";
    let locked = "Path = docs.zip\n----------\nPath = docs/a.txt\nEncrypted = +\n";
    assert!(!listing_reports_encryption(plain), "plain zip is not encrypted");
    assert!(listing_reports_encryption(locked), "AES zip is encrypted");
}

#[test]
fn age_and_7z_are_always_reported_encrypted() {
    // No subprocess needed: these formats are encryption-only by construction.
    assert_eq!(encryption_of("whatever.age"), Ok(Some(true)));
    assert_eq!(encryption_of("whatever.7z"), Ok(Some(true)));
    assert_eq!(encryption_of("whatever.zip"), Ok(None));
    assert!(encryption_of("whatever.txt").is_err());
}

#[test]
fn rejects_a_symlink_pointing_outside_staging() {
    assert!(symlink_escapes("/w/staging/esc", "/etc/passwd", "/w/staging"));
}

#[test]
fn rejects_a_relative_symlink_climbing_out() {
    assert!(symlink_escapes("/w/staging/esc", "../../secret", "/w/staging"));
}

#[test]
fn keeps_symlinks_that_stay_inside_staging() {
    assert!(!symlink_escapes("/w/staging/alias", "real.txt", "/w/staging"));
    assert!(!symlink_escapes("/w/staging/sub/back", "../real.txt", "/w/staging"));
}

#[test]
fn unique_path_dedupes_on_collision() {
    assert_eq!(unique_path("/d", "memo", &strings(&[])), "/d/memo");
    assert_eq!(unique_path("/d", "memo", &strings(&["memo"])), "/d/memo (1)");
    assert_eq!(
        unique_path("/d", "memo", &strings(&["memo", "memo (1)", "memo (3)"])),
        "/d/memo (2)"
    );
}

#[test]
fn free_name_keeps_a_free_name() {
    assert_eq!(free_name("a.txt", &strings(&["b.txt"])), "a.txt");
}

#[test]
fn relocation_never_reuses_a_name() {
    let r = relocation_names(&strings(&["memo", "memo"]), &strings(&["memo"]));
    assert_eq!(r, strings(&["memo (1)", "memo (2)"]));
}

#[test]
fn split_many_groups_items_under_their_shared_parent() {
    let (parent, names) = split_many(
        &strings(&["a.txt", "b.txt"]),
        &vec![Some("/w/a.txt".to_string()), Some("/w/b.txt".to_string())],
    )
    .unwrap();
    assert_eq!(parent, "/w");
    assert_eq!(names, strings(&["a.txt", "b.txt"]));
}

#[test]
fn split_many_rejects_items_from_different_folders() {
    let err = split_many(
        &strings(&["a.txt", "sub/b.txt"]),
        &vec![Some("/w/a.txt".to_string()), Some("/w/sub/b.txt".to_string())],
    )
    .unwrap_err();
    assert!(err.contains("same folder"), "got: {err}");
}

#[test]
fn split_many_reports_each_failure() {
    assert_eq!(split_many(&strings(&[]), &vec![]).unwrap_err(), "nothing to lock");
    assert_eq!(
        split_many(&strings(&["gone"]), &vec![None]).unwrap_err(),
        "could not resolve gone"
    );
    assert_eq!(
        split_many(&strings(&["/"]), &vec![Some("/".to_string())]).unwrap_err(),
        "cannot encrypt the filesystem root"
    );
}

#[test]
fn suggested_output_multi_names_the_archive_after_the_folder() {
    let one = suggested_output_multi(&strings(&["/home/u/Photos/a.jpg"]), Backend::SevenZip);
    assert_eq!(one, "/home/u/Photos/a.jpg.7z");
    let many = suggested_output_multi(
        &strings(&["/home/u/Photos/a.jpg", "/home/u/Photos/b.jpg"]),
        Backend::SevenZip,
    );
    assert_eq!(many, "/home/u/Photos/Photos.7z");
}

#[test]
fn backend_for_reads_extension() {
    assert_eq!(backend_for("x.age").unwrap(), Backend::Age);
    assert_eq!(backend_for("x.7z").unwrap(), Backend::SevenZip);
    assert_eq!(backend_for("x.AGE").unwrap(), Backend::Age);
    assert_eq!(backend_for("x.zip").unwrap(), Backend::Zip);
    assert!(backend_for("x.txt").is_err());
}

#[test]
fn suggested_output_appends_extension() {
    assert_eq!(suggested_output("/home/u/Photos", Backend::Age), "/home/u/Photos.age");
    assert_eq!(suggested_output("/home/u/Photos", Backend::SevenZip), "/home/u/Photos.7z");
    assert_eq!(suggested_output("/home/u/Photos", Backend::Zip), "/home/u/Photos.zip");
}

#[test]
fn suggested_output_of_odd_sources() {
    assert_eq!(suggested_output("notes", Backend::Age), "notes.age");
    assert_eq!(suggested_output("/", Backend::Zip), "./archive.zip");
    assert_eq!(suggested_output("/home/u/Photos/", Backend::Age), "/home/u/Photos.age");
}

#[test]
fn a_locked_file_opens_with_its_backend() {
    for b in [Backend::Age, Backend::SevenZip, Backend::Zip] {
        for src in ["/home/u/Photos", "notes.txt", "/", ".hidden", "a/b/.."] {
            assert_eq!(backend_for(&suggested_output(src, b)).unwrap(), b);
        }
    }
}

#[test]
fn doctor_reports_every_helper_tool() {
    let r = doctor(&tools(&["/usr/bin/age", "/usr/bin/tar"]));
    for tool in ["age", "7z", "tar", "gzip"] {
        assert!(r.contains(tool), "doctor report omits {tool}:\n{r}");
    }
    // Every tool line resolves to either an ok or a missing verdict.
    assert!(r.contains("ok") || r.contains("missing"), "no verdicts:\n{r}");
}

#[test]
fn doctor_lines_name_the_path_or_the_fix() {
    let r = doctor(&tools(&["/usr/bin/age", "/opt/bin/7zz", "/usr/bin/7z", "/usr/bin/tar"]));
    assert!(r.starts_with("zipline helper tools:\n\n"));
    assert!(r.contains("  ok       age  /usr/bin/age\n"));
    assert!(r.contains("  ok       7z   /opt/bin/7zz\n"));
    assert!(r.contains("  ok       tar  /usr/bin/tar\n"));
    assert!(r.contains(
        "  missing  gzip install it with your package manager (it usually ships with the system)\n"
    ));
}

#[test]
fn which_takes_the_first_directory_on_the_path() {
    let t = tools(&["/usr/bin/age", "/opt/bin/age"]);
    assert_eq!(which(&t, "age"), Some("/opt/bin/age".to_string()));
    assert_eq!(which(&t, "gzip"), None);
    assert_eq!(Backend::Age.locate(&t), Some("/opt/bin/age".to_string()));
    assert_eq!(Backend::Zip.locate(&t), None);
    assert_eq!(helper_program(&t, "age"), Ok("/opt/bin/age".to_string()));
    assert!(helper_program(&t, "tar").is_err());
}

#[test]
fn program_explains_how_to_install_a_missing_tool() {
    let e = Backend::SevenZip.program(&tools(&[])).unwrap_err();
    assert_eq!(
        e,
        "the '7zz' tool is not installed.\nInstall it with:  sudo apt install 7zip || sudo apt install p7zip-full   (or: sudo dnf install p7zip)"
    );
}

#[test]
fn friendly_errors_name_a_wrong_password() {
    assert_eq!(friendly_error("age: error: incorrect passphrase"), "wrong password");
    assert_eq!(friendly_error("ERROR: Wrong password : docs/a.txt"), "wrong password");
    assert_eq!(
        friendly_error("ERROR: Data Error in encrypted file"),
        "wrong password, or the file is damaged"
    );
    assert_eq!(friendly_error("disk full"), "disk full");
}

#[test]
fn failure_details_pick_the_last_line() {
    assert_eq!(failure_detail("first\n  last  \n\n", "fallback"), "last");
    assert_eq!(failure_detail("", "7-Zip reported an error"), "7-Zip reported an error");
    assert_eq!(
        age_failure_detail("age: error: no identity matched any of the recipients\n"),
        "no identity matched any of the recipients"
    );
    assert_eq!(age_failure_detail(""), "age reported an error");
}

#[test]
fn encrypt_preflight_checks_tool_sources_and_password() {
    let t = tools(&["/usr/bin/age", "/usr/bin/7z"]);
    let srcs = strings(&["a", "b"]);
    assert_eq!(
        encrypt_preflight(Backend::Age, &t, &srcs, &vec![true, true], "pw"),
        Ok("/usr/bin/age".to_string())
    );
    assert_eq!(
        encrypt_preflight(Backend::Age, &t, &srcs, &vec![true, false], "pw").unwrap_err(),
        "b does not exist"
    );
    assert_eq!(
        encrypt_preflight(Backend::SevenZip, &t, &srcs, &vec![true, true], "").unwrap_err(),
        "the password is empty"
    );
    assert!(encrypt_preflight(Backend::Zip, &t, &srcs, &vec![true, true], "").is_ok());
    assert!(encrypt_preflight(Backend::Age, &tools(&[]), &srcs, &vec![true, true], "pw").is_err());
}

#[test]
fn recipients_preflight_needs_a_recipient() {
    let t = tools(&["/usr/bin/age"]);
    let srcs = strings(&["a"]);
    assert_eq!(
        recipients_preflight(&t, &srcs, &vec![true], &strings(&[])).unwrap_err(),
        "no recipient given"
    );
    assert!(recipients_preflight(&t, &srcs, &vec![true], &strings(&["age1x"])).is_ok());
}

#[test]
fn levels_are_clamped_to_nine() {
    assert_eq!(clamp_level(3), 3);
    assert_eq!(clamp_level(200), 9);
}

#[test]
fn an_output_folder_is_never_replaced() {
    assert_eq!(output_clearance("/w/x.age", false, false), Ok(false));
    assert_eq!(output_clearance("/w/x.age", true, false), Ok(true));
    assert_eq!(
        output_clearance("/w/x.age", true, true).unwrap_err(),
        "/w/x.age is a folder — choose a different name"
    );
}

#[test]
fn a_key_file_opens_only_age() {
    let id = Unlock::Identity("/k".to_string());
    assert_eq!(extract_mode(Backend::Age, &id), Ok(ExtractMode::AgeIdentity));
    assert_eq!(
        extract_mode(Backend::SevenZip, &id).unwrap_err(),
        "a key file only opens age (.age) archives"
    );
    assert_eq!(
        extract_mode(Backend::Zip, &Unlock::Passphrase(String::new())),
        Ok(ExtractMode::ZipPlain)
    );
    assert_eq!(
        extract_mode(Backend::Zip, &Unlock::Passphrase("pw".to_string())),
        Ok(ExtractMode::ZipPrompt)
    );
    assert!(identity_preflight("x.age").is_ok());
    assert!(identity_preflight("x.7z").is_err());
}

#[test]
fn decrypt_preflight_names_backend_and_tool() {
    let t = tools(&["/usr/bin/7z"]);
    assert_eq!(
        decrypt_preflight("/w/x.zip", &t, true),
        Ok((Backend::Zip, "/usr/bin/7z".to_string()))
    );
    assert_eq!(
        decrypt_preflight("/w/x.zip", &t, false).unwrap_err(),
        "/w/x.zip does not exist"
    );
    assert!(decrypt_preflight("/w/x.age", &t, true).is_err());
    assert!(decrypt_preflight("/w/x.rar", &t, true).is_err());
}
