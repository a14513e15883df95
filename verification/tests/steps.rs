use zipline::backend::ExtractMode;
use zipline::steps::{
    gzips, open_next, open_start, pack_next, pack_start, stream_outcome, Event, OpenAction,
    OpenStage, PackAction, PackStage, Refusal,
};

fn listed(t: &str) -> Event {
    Event::Listed(t.to_string())
}

#[test]
fn age_opens_list_then_unpack_then_check_then_place() {
    let m = ExtractMode::AgePassphrase;
    let (s, a) = open_start(m);
    assert_eq!((s, a), (OpenStage::Unlock, OpenAction::Unlock));
    let (s, a) = open_next(m, s, &Event::Done);
    assert_eq!(a, OpenAction::ListNames);
    let (s, a) = open_next(m, s, &listed("docs/\ndocs/a.txt\n"));
    assert_eq!(a, OpenAction::Extract);
    let (s, a) = open_next(m, s, &Event::Done);
    assert_eq!(a, OpenAction::CheckLinks);
    let (s, a) = open_next(m, s, &Event::LinksChecked(false));
    assert_eq!(a, OpenAction::Place);
    let (s, a) = open_next(m, s, &Event::Done);
    assert_eq!((s, a), (OpenStage::Finished, OpenAction::Succeed));
}

#[test]
fn an_escaping_name_is_refused_before_unpacking() {
    let m = ExtractMode::AgeIdentity;
    let (s, _) = open_start(m);
    let (s, _) = open_next(m, s, &Event::Done);
    let (s, a) = open_next(m, s, &listed("ok.txt\n../evil\n"));
    assert_eq!((s, a), (OpenStage::Failed, OpenAction::Refuse(Refusal::Name)));
    // Nothing more happens once it has stopped.
    assert_eq!(open_next(m, s, &Event::Done), (OpenStage::Failed, OpenAction::GiveUp));
}

#[test]
fn a_zip_is_listed_before_anything_else() {
    let m = ExtractMode::ZipPlain;
    let (s, a) = open_start(m);
    assert_eq!((s, a), (OpenStage::List, OpenAction::ListNames));
    let bad = "Path = a.zip\n----------\nPath = /etc/passwd\n";
    assert_eq!(open_next(m, s, &listed(bad)).1, OpenAction::Refuse(Refusal::Name));
    let good = "Path = a.zip\n----------\nPath = docs/ok.txt\n";
    assert_eq!(open_next(m, s, &listed(good)).1, OpenAction::Extract);
}

#[test]
fn seven_zip_unpacks_in_one_step_then_checks_links() {
    let m = ExtractMode::SevenZipPrompt;
    let (s, a) = open_start(m);
    assert_eq!(a, OpenAction::Unlock);
    let (s, a) = open_next(m, s, &Event::Done);
    assert_eq!((s, a), (OpenStage::CheckLinks, OpenAction::CheckLinks));
    let (s, a) = open_next(m, s, &Event::LinksChecked(true));
    assert_eq!((s, a), (OpenStage::Failed, OpenAction::Refuse(Refusal::Link)));
}

#[test]
fn a_failed_step_stops_opening() {
    let m = ExtractMode::ZipPrompt;
    let (s, _) = open_start(m);
    assert_eq!(open_next(m, s, &Event::Failed), (OpenStage::Failed, OpenAction::GiveUp));
    // An answer the stage did not ask for stops it too.
    assert_eq!(
        open_next(m, OpenStage::CheckLinks, &Event::Done),
        (OpenStage::Failed, OpenAction::GiveUp)
    );
}

#[test]
fn refusals_say_what_was_wrong() {
    assert_eq!(
        Refusal::Name.message(),
        "refusing to open this archive: it tries to write outside the folder"
    );
    assert!(Refusal::Link.message().contains("link that points outside"));
}

#[test]
fn packing_clears_the_old_archive_and_removes_a_partial_one() {
    let (s, a) = pack_start(true);
    assert_eq!((s, a), (PackStage::Clear, PackAction::RemoveOld));
    let (s, a) = pack_next(s, &Event::Done);
    assert_eq!((s, a), (PackStage::Pack, PackAction::RunTools));
    assert_eq!(pack_next(s, &Event::Failed), (PackStage::Failed, PackAction::RemovePartial));
    assert_eq!(pack_next(s, &Event::Done), (PackStage::Finished, PackAction::Succeed));

    let (s, a) = pack_start(false);
    assert_eq!((s, a), (PackStage::Pack, PackAction::RunTools));
    // Could not remove the old archive: nothing was written, nothing to clean.
    assert_eq!(pack_next(PackStage::Clear, &Event::Failed), (PackStage::Failed, PackAction::GiveUp));
}

#[test]
fn level_zero_skips_gzip() {
    assert!(!gzips(0));
    assert!(gzips(1));
    assert!(gzips(9));
}

#[test]
fn age_failure_wins_over_a_failed_reader() {
    assert_eq!(
        stream_outcome(Err("bad passphrase".to_string()), false, true, "/w"),
        Err("bad passphrase".to_string())
    );
    assert_eq!(
        stream_outcome(Ok(()), false, true, "/w"),
        Err("could not read from /w".to_string())
    );
    assert_eq!(
        stream_outcome(Ok(()), true, false, "/w"),
        Err("could not read from /w".to_string())
    );
    assert_eq!(stream_outcome(Ok(()), true, true, "/w"), Ok(()));
}
