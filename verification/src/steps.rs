//! The order of the steps that pack and open archives. The tools run and the
//! files move outside this library; each step reports back with an event, and
//! the functions here say what comes next. Opening vets the member names
//! before anything is unpacked (where the names can be read first) and moves
//! nothing into the destination until the unpacked links are checked; packing
//! removes a half-written archive when the tools fail, and says how the
//! `tar | gzip | age` pipeline ended.

use vstd::prelude::*;

use crate::archive::{first_unsafe_member, scan_members, spec_tar_listing_unsafe, tar_listing_unsafe};
use crate::backend::ExtractMode;
use crate::text::{push_str, spec_lines};

verus! {

/// How a step that was asked for turned out.
pub enum Event {
    /// It went through.
    Done,
    /// It failed; the one who ran it holds the message.
    Failed,
    /// The member names, as the listing tool printed them.
    Listed(String),
    /// The link check ran: whether some unpacked link leads outside.
    LinksChecked(bool),
}

/// Why an archive is refused.
#[derive(Clone, Copy, Debug, PartialEq, Eq, Structural)]
pub enum Refusal {
    /// A member name leads outside the folder.
    Name,
    /// An unpacked link points outside the folder.
    Link,
}

impl Refusal {
    /// What the user is told.
    pub fn message(self) -> (r: &'static str)
        ensures
            r@ == match self {
                Refusal::Name => "refusing to open this archive: it tries to write outside the folder"@,
                Refusal::Link => "refusing to open this archive: it contains a link that points outside the folder"@,
            },
    {
        match self {
            Refusal::Name => "refusing to open this archive: it tries to write outside the folder",
            Refusal::Link => "refusing to open this archive: it contains a link that points outside the folder",
        }
    }
}

/// Where opening an archive stands.
#[derive(Clone, Copy, Debug, PartialEq, Eq, Structural)]
pub enum OpenStage {
    Unlock,
    List,
    Extract,
    CheckLinks,
    Place,
    Finished,
    Failed,
}

/// What opening an archive asks for next.
#[derive(Clone, Copy, Debug, PartialEq, Eq, Structural)]
pub enum OpenAction {
    /// Decrypt into the staging folder (age: to a tarball; 7-Zip: unpacking it too).
    Unlock,
    /// List the member names.
    ListNames,
    /// Unpack into the staging folder.
    Extract,
    /// Look for unpacked links that lead outside the staging folder.
    CheckLinks,
    /// Move what was unpacked into the destination under free names.
    Place,
    /// Done: report what was placed.
    Succeed,
    /// Stop and report the failed step's own message.
    GiveUp,
    /// Stop and report the refusal.
    Refuse(Refusal),
}

/// Whether the listing `t` of an archive opened in `mode` names a member that
/// leads outside the folder.
pub open spec fn names_unsafe(mode: ExtractMode, t: Seq<char>) -> bool {
    match mode {
        ExtractMode::AgePassphrase | ExtractMode::AgeIdentity => spec_tar_listing_unsafe(t),
        ExtractMode::ZipPlain | ExtractMode::ZipPrompt => scan_members(spec_lines(t), false) is Some,
        ExtractMode::SevenZipPrompt => false,
    }
}

/// Whether the archive's names can be read before it is unpacked: a zip's
/// names are never encrypted.
pub open spec fn lists_first(mode: ExtractMode) -> bool {
    mode == ExtractMode::ZipPlain || mode == ExtractMode::ZipPrompt
}

/// Whether opening in `mode` lists the names at all (7-Zip's are encrypted
/// with the contents, and it unpacks in one step).
pub open spec fn lists_names(mode: ExtractMode) -> bool {
    mode != ExtractMode::SevenZipPrompt
}

/// The first step of opening in `mode`.
pub open spec fn spec_open_start(mode: ExtractMode) -> (OpenStage, OpenAction) {
    if lists_first(mode) {
        (OpenStage::List, OpenAction::ListNames)
    } else {
        (OpenStage::Unlock, OpenAction::Unlock)
    }
}

/// The step after `ev` at `stage` when opening in `mode`. A failed step stops
/// the run; so does an event the stage did not ask for; the ends stay put.
pub open spec fn spec_open_next(mode: ExtractMode, stage: OpenStage, ev: Event) -> (OpenStage, OpenAction) {
    match (stage, ev) {
        (OpenStage::Finished, _) => (OpenStage::Finished, OpenAction::Succeed),
        (OpenStage::Failed, _) => (OpenStage::Failed, OpenAction::GiveUp),
        (OpenStage::Unlock, Event::Done) => if lists_names(mode) {
            (OpenStage::List, OpenAction::ListNames)
        } else {
            (OpenStage::CheckLinks, OpenAction::CheckLinks)
        },
        (OpenStage::List, Event::Listed(t)) => if names_unsafe(mode, t@) {
            (OpenStage::Failed, OpenAction::Refuse(Refusal::Name))
        } else {
            (OpenStage::Extract, OpenAction::Extract)
        },
        (OpenStage::Extract, Event::Done) => (OpenStage::CheckLinks, OpenAction::CheckLinks),
        (OpenStage::CheckLinks, Event::LinksChecked(escapes)) => if escapes {
            (OpenStage::Failed, OpenAction::Refuse(Refusal::Link))
        } else {
            (OpenStage::Place, OpenAction::Place)
        },
        (OpenStage::Place, Event::Done) => (OpenStage::Finished, OpenAction::Succeed),
        _ => (OpenStage::Failed, OpenAction::GiveUp),
    }
}

/// Where opening in `mode` starts.
pub fn open_start(mode: ExtractMode) -> (r: (OpenStage, OpenAction))
    ensures
        r == spec_open_start(mode),
{
    if mode == ExtractMode::ZipPlain || mode == ExtractMode::ZipPrompt {
        (OpenStage::List, OpenAction::ListNames)
    } else {
        (OpenStage::Unlock, OpenAction::Unlock)
    }
}

/// What follows `ev` at `stage` when opening in `mode`.
pub fn open_next(mode: ExtractMode, stage: OpenStage, ev: &Event) -> (r: (OpenStage, OpenAction))
    ensures
        r == spec_open_next(mode, stage, *ev),
{
    match (stage, ev) {
        (OpenStage::Finished, _) => (OpenStage::Finished, OpenAction::Succeed),
        (OpenStage::Failed, _) => (OpenStage::Failed, OpenAction::GiveUp),
        (OpenStage::Unlock, Event::Done) => if mode != ExtractMode::SevenZipPrompt {
            (OpenStage::List, OpenAction::ListNames)
        } else {
            (OpenStage::CheckLinks, OpenAction::CheckLinks)
        },
        (OpenStage::List, Event::Listed(t)) => {
            let bad = match mode {
                ExtractMode::AgePassphrase | ExtractMode::AgeIdentity => tar_listing_unsafe(t.as_str()),
                ExtractMode::ZipPlain | ExtractMode::ZipPrompt => first_unsafe_member(t.as_str()).is_some(),
                ExtractMode::SevenZipPrompt => false,
            };
            if bad {
                (OpenStage::Failed, OpenAction::Refuse(Refusal::Name))
            } else {
                (OpenStage::Extract, OpenAction::Extract)
            }
        },
        (OpenStage::Extract, Event::Done) => (OpenStage::CheckLinks, OpenAction::CheckLinks),
        (OpenStage::CheckLinks, Event::LinksChecked(escapes)) => if *escapes {
            (OpenStage::Failed, OpenAction::Refuse(Refusal::Link))
        } else {
            (OpenStage::Place, OpenAction::Place)
        },
        (OpenStage::Place, Event::Done) => (OpenStage::Finished, OpenAction::Succeed),
        _ => (OpenStage::Failed, OpenAction::GiveUp),
    }
}

/// The stages and actions of opening in `mode` as the events `evs` come in:
/// entry `k` is where the run stands after the first `k` events.
pub open spec fn open_run(mode: ExtractMode, evs: Seq<Event>) -> Seq<(OpenStage, OpenAction)>
    decreases evs.len(),
{
    if evs.len() == 0 {
        seq![spec_open_start(mode)]
    } else {
        let before = open_run(mode, evs.drop_last());
        before.push(spec_open_next(mode, before.last().0, evs.last()))
    }
}

/// `ev` is a listing whose names are all safe.
pub open spec fn clean_listing(mode: ExtractMode, ev: Event) -> bool {
    ev matches Event::Listed(t) && !names_unsafe(mode, t@)
}

/// One of the first `k` events was a listing whose names are all safe.
pub open spec fn names_vetted(mode: ExtractMode, evs: Seq<Event>, k: int) -> bool {
    exists|j: int| 0 <= j < k && #[trigger] clean_listing(mode, evs[j])
}

/// A stage at which something of the archive may have been unpacked.
pub open spec fn unpacking(s: OpenStage) -> bool {
    s == OpenStage::Extract || s == OpenStage::CheckLinks || s == OpenStage::Place || s == OpenStage::Finished
}

/// Each entry of a run follows from the one before it by [`spec_open_next`].
proof fn lemma_run_steps(mode: ExtractMode, evs: Seq<Event>)
    ensures
        open_run(mode, evs).len() == evs.len() + 1,
        open_run(mode, evs)[0] == spec_open_start(mode),
        forall|k: int|
            0 < k <= evs.len() ==> #[trigger] open_run(mode, evs)[k] == spec_open_next(
                mode,
                open_run(mode, evs)[k - 1].0,
                evs[k - 1],
            ),
    decreases evs.len(),
{
    if evs.len() > 0 {
        let pre = evs.drop_last();
        lemma_run_steps(mode, pre);
        let r = open_run(mode, evs);
        let rp = open_run(mode, pre);
        assert forall|k: int| 0 < k <= evs.len() implies #[trigger] r[k] == spec_open_next(mode, r[k - 1].0, evs[k - 1]) by {
            if k < evs.len() {
                assert(r[k] == rp[k]);
                assert(r[k - 1] == rp[k - 1]);
                assert(evs[k - 1] == pre[k - 1]);
            }
        }
    }
}

/// Where the names can be read, every stage that unpacks comes after a safe listing.
proof fn lemma_unpacking_is_vetted(mode: ExtractMode, evs: Seq<Event>, k: int)
    requires
        0 <= k <= evs.len(),
        lists_names(mode),
    ensures
        unpacking(open_run(mode, evs)[k].0) ==> names_vetted(mode, evs, k),
    decreases k,
{
    lemma_run_steps(mode, evs);
    let r = open_run(mode, evs);
    if k > 0 {
        lemma_unpacking_is_vetted(mode, evs, k - 1);
        assert(r[k] == spec_open_next(mode, r[k - 1].0, evs[k - 1]));
        if unpacking(r[k].0) {
            if clean_listing(mode, evs[k - 1]) {
                assert(names_vetted(mode, evs, k));
            } else {
                assert(unpacking(r[k - 1].0));
                let j = choose|j: int| 0 <= j < k - 1 && #[trigger] clean_listing(mode, evs[j]);
                assert(clean_listing(mode, evs[j]));
            }
        }
    }
}

/// Opening keeps its order, whatever the tools report: it unpacks only right
/// after a listing found every name safe; where the names can be read first,
/// nothing is unpacked, checked, placed or reported done before such a
/// listing; it places only right after the link check found no link leading
/// outside; it reports success only once everything was placed; and a failed
/// step, or any refusal, ends the run for good.
pub proof fn lemma_open_order(mode: ExtractMode, evs: Seq<Event>, k: int)
    requires
        0 < k <= evs.len(),
    ensures
        open_run(mode, evs)[k].1 == OpenAction::Extract ==> clean_listing(mode, evs[k - 1]),
        lists_names(mode) && (open_run(mode, evs)[k].1 == OpenAction::Extract
            || open_run(mode, evs)[k].1 == OpenAction::CheckLinks
            || open_run(mode, evs)[k].1 == OpenAction::Place
            || open_run(mode, evs)[k].1 == OpenAction::Succeed) ==> names_vetted(mode, evs, k),
        open_run(mode, evs)[k].1 == OpenAction::Place ==> open_run(mode, evs)[k - 1].0 == OpenStage::CheckLinks
            && evs[k - 1] == Event::LinksChecked(false),
        open_run(mode, evs)[k].1 == OpenAction::Succeed ==> open_run(mode, evs)[k - 1].0 == OpenStage::Place
            || open_run(mode, evs)[k - 1].0 == OpenStage::Finished,
        evs[k - 1] is Failed && open_run(mode, evs)[k - 1].0 != OpenStage::Finished ==> open_run(mode, evs)[k]
            == (OpenStage::Failed, OpenAction::GiveUp),
        open_run(mode, evs)[k - 1].0 == OpenStage::Failed ==> open_run(mode, evs)[k].0 == OpenStage::Failed,
        open_run(mode, evs)[k].1 is Refuse ==> open_run(mode, evs)[k].0 == OpenStage::Failed,
{
    lemma_run_steps(mode, evs);
    let r = open_run(mode, evs);
    assert(r[k] == spec_open_next(mode, r[k - 1].0, evs[k - 1]));
    if lists_names(mode) {
        lemma_unpacking_is_vetted(mode, evs, k);
    }
}

/// Where packing stands.
#[derive(Clone, Copy, Debug, PartialEq, Eq, Structural)]
pub enum PackStage {
    /// Removing the archive that the new one replaces.
    Clear,
    /// The tools are writing the archive.
    Pack,
    Finished,
    Failed,
}

/// What packing asks for next.
#[derive(Clone, Copy, Debug, PartialEq, Eq, Structural)]
pub enum PackAction {
    /// Remove the old archive at the output path.
    RemoveOld,
    /// Run the tools that write the archive.
    RunTools,
    /// Done: report the archive.
    Succeed,
    /// Stop and report the failed step's own message.
    GiveUp,
    /// Remove what the tools left at the output path, then report their message.
    RemovePartial,
}

/// The first step of packing; `replace` when an old archive is in the way.
pub open spec fn spec_pack_start(replace: bool) -> (PackStage, PackAction) {
    if replace {
        (PackStage::Clear, PackAction::RemoveOld)
    } else {
        (PackStage::Pack, PackAction::RunTools)
    }
}

/// The step after `ev` at `stage` when packing: once the tools ran, anything
/// but their success removes what they wrote.
pub open spec fn spec_pack_next(stage: PackStage, ev: Event) -> (PackStage, PackAction) {
    match (stage, ev) {
        (PackStage::Finished, _) => (PackStage::Finished, PackAction::Succeed),
        (PackStage::Failed, _) => (PackStage::Failed, PackAction::GiveUp),
        (PackStage::Clear, Event::Done) => (PackStage::Pack, PackAction::RunTools),
        (PackStage::Clear, _) => (PackStage::Failed, PackAction::GiveUp),
        (PackStage::Pack, Event::Done) => (PackStage::Finished, PackAction::Succeed),
        (PackStage::Pack, _) => (PackStage::Failed, PackAction::RemovePartial),
    }
}

/// Where packing starts.
pub fn pack_start(replace: bool) -> (r: (PackStage, PackAction))
    ensures
        r == spec_pack_start(replace),
{
    if replace {
        (PackStage::Clear, PackAction::RemoveOld)
    } else {
        (PackStage::Pack, PackAction::RunTools)
    }
}

/// What follows `ev` at `stage` when packing.
pub fn pack_next(stage: PackStage, ev: &Event) -> (r: (PackStage, PackAction))
    ensures
        r == spec_pack_next(stage, *ev),
{
    match (stage, ev) {
        (PackStage::Finished, _) => (PackStage::Finished, PackAction::Succeed),
        (PackStage::Failed, _) => (PackStage::Failed, PackAction::GiveUp),
        (PackStage::Clear, Event::Done) => (PackStage::Pack, PackAction::RunTools),
        (PackStage::Clear, _) => (PackStage::Failed, PackAction::GiveUp),
        (PackStage::Pack, Event::Done) => (PackStage::Finished, PackAction::Succeed),
        (PackStage::Pack, _) => (PackStage::Failed, PackAction::RemovePartial),
    }
}

/// The stages and actions of packing as the events `evs` come in.
pub open spec fn pack_run(replace: bool, evs: Seq<Event>) -> Seq<(PackStage, PackAction)>
    decreases evs.len(),
{
    if evs.len() == 0 {
        seq![spec_pack_start(replace)]
    } else {
        let before = pack_run(replace, evs.drop_last());
        before.push(spec_pack_next(before.last().0, evs.last()))
    }
}

/// Each entry of a packing run follows from the one before it.
proof fn lemma_pack_steps(replace: bool, evs: Seq<Event>)
    ensures
        pack_run(replace, evs).len() == evs.len() + 1,
        pack_run(replace, evs)[0] == spec_pack_start(replace),
        forall|k: int|
            0 < k <= evs.len() ==> #[trigger] pack_run(replace, evs)[k] == spec_pack_next(
                pack_run(replace, evs)[k - 1].0,
                evs[k - 1],
            ),
    decreases evs.len(),
{
    if evs.len() > 0 {
        let pre = evs.drop_last();
        lemma_pack_steps(replace, pre);
        let r = pack_run(replace, evs);
        let rp = pack_run(replace, pre);
        assert forall|k: int| 0 < k <= evs.len() implies #[trigger] r[k] == spec_pack_next(r[k - 1].0, evs[k - 1]) by {
            if k < evs.len() {
                assert(r[k] == rp[k]);
                assert(r[k - 1] == rp[k - 1]);
                assert(evs[k - 1] == pre[k - 1]);
            }
        }
    }
}

/// Packing never leaves a half-written archive nor merges into an old one:
/// an old archive in the way is removed first, and the tools run only once
/// that went through; once the tools ran, any outcome but their success
/// removes what they wrote, and nothing else is ever removed. It reports
/// success only after the tools did, and a failure ends the run for good.
pub proof fn lemma_pack_cleans_up(replace: bool, evs: Seq<Event>, k: int)
    requires
        0 < k <= evs.len(),
    ensures
        pack_run(replace, evs)[k - 1].0 == PackStage::Pack && !(evs[k - 1] is Done) ==> pack_run(replace, evs)[k].1
            == PackAction::RemovePartial,
        pack_run(replace, evs)[k].1 == PackAction::RemovePartial ==> pack_run(replace, evs)[k - 1].0 == PackStage::Pack,
        pack_run(replace, evs)[k].1 != PackAction::RemoveOld,
        pack_run(replace, evs)[k].1 == PackAction::Succeed ==> (pack_run(replace, evs)[k - 1].0 == PackStage::Pack
            && evs[k - 1] is Done) || pack_run(replace, evs)[k - 1].0 == PackStage::Finished,
        pack_run(replace, evs)[k - 1].0 == PackStage::Failed ==> pack_run(replace, evs)[k].0 == PackStage::Failed,
        pack_run(replace, evs)[0].1 == PackAction::RunTools <==> !replace,
        pack_run(replace, evs)[k].1 == PackAction::RunTools ==> replace && k == 1 && evs[0] is Done,
{
    lemma_pack_steps(replace, evs);
    let r = pack_run(replace, evs);
    assert(r[k] == spec_pack_next(r[k - 1].0, evs[k - 1]));
    if k > 1 {
        assert(r[k - 1] == spec_pack_next(r[k - 2].0, evs[k - 2]));
    }
}

/// Whether the `tar` stream goes through `gzip` before `age`: only when some
/// compression is asked for.
pub fn gzips(level: u8) -> (r: bool)
    ensures
        r == (level != 0),
{
    level != 0
}

/// How the `tar | gzip | age` pipeline ended: `age`'s own failure wins; else a
/// reader that failed means `parent` could not be read; else success.
pub fn stream_outcome(locked: Result<(), String>, tar_ok: bool, gzip_ok: bool, parent: &str) -> (r: Result<(), String>)
    ensures
        match locked {
            Err(e) => r == Err::<(), String>(e),
            Ok(()) => if tar_ok && gzip_ok {
                r is Ok
            } else {
                r matches Err(m) && m@ == "could not read from "@ + parent@
            },
        },
{
    match locked {
        Err(e) => Err(e),
        Ok(()) => if tar_ok && gzip_ok {
            Ok(())
        } else {
            let mut m = String::new();
            push_str(&mut m, "could not read from ");
            push_str(&mut m, parent);
            Err(m)
        },
    }
}

} // verus!
