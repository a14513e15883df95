use zipline::backend::Backend;
use zipline::cli::{lock_output, open_destination, parse_backend, parse_level, parse_lock, parse_open, parse_u8};
use zipline::update::{installer_pipeline, installer_url, update_preflight};
use zipline::backend::ToolSearch;

fn args(parts: &[&str]) -> Vec<String> {
    parts.iter().map(|s| s.to_string()).collect()
}

#[test]
fn lock_defaults_to_age_normal_level() {
    let a = parse_lock(&args(&["photos"])).unwrap();
    assert_eq!(a.path, "photos");
    assert_eq!(a.backend, Backend::Age);
    assert_eq!(a.level, 5);
    assert!(a.out.is_none());
}

#[test]
fn lock_parses_all_options() {
    let a = parse_lock(&args(&[
        "docs",
        "--backend",
        "7z",
        "--level",
        "9",
        "--out",
        "/tmp/d.7z",
    ]))
    .unwrap();
    assert_eq!(a.backend, Backend::SevenZip);
    assert_eq!(a.level, 9);
    assert_eq!(a.out, Some("/tmp/d.7z".to_string()));
}

#[test]
fn lock_rejects_bad_input() {
    assert!(parse_lock(&args(&[])).is_err(), "missing path");
    assert!(parse_lock(&args(&["a", "b"])).is_err(), "two paths");
    assert!(parse_lock(&args(&["a", "--nope"])).is_err(), "unknown flag");
    assert!(
        parse_lock(&args(&["a", "--backend", "rar"])).is_err(),
        "bad backend"
    );
    assert!(
        parse_lock(&args(&["a", "--level", "12"])).is_err(),
        "level out of range"
    );
    assert!(
        parse_lock(&args(&["a", "--out"])).is_err(),
        "flag with no value"
    );
}

#[test]
fn open_parses_archive_and_out() {
    let a = parse_open(&args(&["x.age"])).unwrap();
    assert_eq!(a.archive, "x.age");
    assert!(a.out.is_none());
    let a = parse_open(&args(&["x.age", "--out", "/tmp/here"])).unwrap();
    assert_eq!(a.out, Some("/tmp/here".to_string()));
}

#[test]
fn open_rejects_bad_input() {
    assert!(parse_open(&args(&[])).is_err(), "missing archive");
    assert!(parse_open(&args(&["a", "b"])).is_err(), "two archives");
    assert!(parse_open(&args(&["a", "--what"])).is_err(), "unknown flag");
}

#[test]
fn backend_names_map() {
    assert_eq!(parse_backend("age").unwrap(), Backend::Age);
    assert_eq!(parse_backend("7z").unwrap(), Backend::SevenZip);
    assert_eq!(parse_backend("ZIP").unwrap(), Backend::Zip);
    assert!(parse_backend("tar").is_err());
}

#[test]
fn backend_names_accept_7zip_and_report_unknown_names() {
    assert_eq!(parse_backend("7Zip").unwrap(), Backend::SevenZip);
    assert_eq!(
        parse_backend("RAR").unwrap_err(),
        "unknown backend 'rar' (use age, 7z, or zip)"
    );
}

#[test]
fn each_extension_names_its_backend() {
    for b in [Backend::Age, Backend::SevenZip, Backend::Zip] {
        assert_eq!(parse_backend(b.extension()).unwrap(), b);
    }
}

#[test]
fn lock_errors_say_what_is_wrong() {
    assert_eq!(
        parse_lock(&args(&[])).unwrap_err(),
        zipline::cli::LOCK_USAGE
    );
    assert_eq!(
        parse_lock(&args(&["a", "--level", "12"])).unwrap_err(),
        "level must be from 0 to 9"
    );
    assert_eq!(
        parse_lock(&args(&["a", "--level", "x"])).unwrap_err(),
        "level must be a number from 0 to 9"
    );
    assert_eq!(
        parse_lock(&args(&["a", "--out"])).unwrap_err(),
        "--out needs a value"
    );
    assert_eq!(
        parse_lock(&args(&["a", "--nope"])).unwrap_err(),
        "unknown option '--nope'\nusage: zipline lock <file-or-folder> [--out FILE] [--backend age|7z|zip] [--level 0-9]"
    );
}

#[test]
fn open_errors_say_what_is_wrong() {
    assert_eq!(parse_open(&args(&[])).unwrap_err(), zipline::cli::OPEN_USAGE);
    assert_eq!(
        parse_open(&args(&["a", "--out"])).unwrap_err(),
        "--out needs a value"
    );
}

#[test]
fn short_flags_and_last_value_win() {
    let a = parse_lock(&args(&["docs", "-b", "zip", "-l", "0", "-o", "x.zip", "-l", "3"])).unwrap();
    assert_eq!(a.backend, Backend::Zip);
    assert_eq!(a.level, 3);
    assert_eq!(a.out, Some("x.zip".to_string()));
}

#[test]
fn levels_parse_like_the_standard_library() {
    assert_eq!(parse_u8("+7"), Some(7));
    assert_eq!(parse_u8("255"), Some(255));
    assert_eq!(parse_u8("256"), None);
    assert_eq!(parse_u8(""), None);
    assert_eq!(parse_u8("-1"), None);
    assert_eq!(parse_level("9"), Ok(9));
    assert!(parse_level("10").is_err());
}

#[test]
fn lock_output_defaults_beside_the_source() {
    let a = parse_lock(&args(&["/home/u/Photos", "--backend", "zip"])).unwrap();
    assert_eq!(lock_output(&a), "/home/u/Photos.zip");
    let a = parse_lock(&args(&["/home/u/Photos", "--out", "/tmp/p.age"])).unwrap();
    assert_eq!(lock_output(&a), "/tmp/p.age");
}

#[test]
fn open_destination_defaults_to_the_archive_folder() {
    let a = parse_open(&args(&["/home/u/x.age"])).unwrap();
    assert_eq!(open_destination(&a), "/home/u");
    let a = parse_open(&args(&["x.age"])).unwrap();
    assert_eq!(open_destination(&a), "");
    let a = parse_open(&args(&["x.age", "--out", "/tmp/here"])).unwrap();
    assert_eq!(open_destination(&a), "/tmp/here");
}

#[test]
fn pipeline_pins_the_installer_to_the_release_tag() {
    let p = installer_pipeline();
    assert!(p.contains("set -o pipefail"), "missing pipefail guard: {p}");
    assert!(
        p.contains(&format!(
            "raw.githubusercontent.com/antirubber/zipline/v{}/install.sh",
            zipline::VERSION
        )),
        "installer not pinned to the release tag: {p}"
    );
    assert!(
        !p.contains("/main/"),
        "installer must not be pulled from mutable main: {p}"
    );
    assert!(p.contains("| bash"), "installer is not piped to bash: {p}");
}

#[test]
fn installer_url_names_the_release() {
    assert_eq!(
        installer_url(),
        format!(
            "https://raw.githubusercontent.com/antirubber/zipline/v{}/install.sh",
            zipline::VERSION
        )
    );
}

#[test]
fn update_needs_curl() {
    let none = ToolSearch { dirs: vec!["/usr/bin".to_string()], executables: vec![] };
    assert!(update_preflight(&none).is_err());
    let curl = ToolSearch {
        dirs: vec!["/usr/bin".to_string()],
        executables: vec!["/usr/bin/curl".to_string()],
    };
    assert_eq!(
        update_preflight(&curl).unwrap_err(),
        "bash is required to update; install it and try again"
    );
    let both = ToolSearch {
        dirs: vec!["/usr/bin".to_string()],
        executables: vec!["/usr/bin/curl".to_string(), "/usr/bin/bash".to_string()],
    };
    assert!(update_preflight(&both).is_ok());
}

#[test]
fn lock_takes_several_items_from_one_folder() {
    let a = parse_lock(&args(&[
        "/home/u/taxes/w2.pdf",
        "/home/u/taxes/receipts",
        "--backend",
        "7z",
    ]))
    .unwrap();
    assert_eq!(a.path, "/home/u/taxes/w2.pdf");
    assert_eq!(a.more, vec!["/home/u/taxes/receipts".to_string()]);
    assert_eq!(
        a.items(),
        vec!["/home/u/taxes/w2.pdf".to_string(), "/home/u/taxes/receipts".to_string()]
    );
    assert_eq!(lock_output(&a), "/home/u/taxes/taxes.7z");
    let one = parse_lock(&args(&["photos"])).unwrap();
    assert!(one.more.is_empty());
}

#[test]
fn several_items_must_each_name_their_folder() {
    assert_eq!(
        parse_lock(&args(&["a", "b"])).unwrap_err(),
        "to lock several items together, give each with its folder\nusage: zipline lock <file-or-folder> [--out FILE] [--backend age|7z|zip] [--level 0-9]"
    );
    assert!(parse_lock(&args(&["docs/a", "b"])).is_err());
    assert!(parse_lock(&args(&["./a", "./b", "--out", "x.zip"])).is_ok());
}
