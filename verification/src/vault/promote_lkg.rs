//! Promote latest snapshot to Last Known Good (LKG).
//!
//! Validates gateway health and uptime, copies the latest snapshot into a
//! versioned LKG directory, verifies SQLite integrity and row-count regression,
//! validates the file manifest, updates the `lkg/current` symlink, and prunes
//! old LKGs.

use crate::platform::ServiceActive;
use crate::util::text::{
    chars_of, cut, decimal, joined, lines, lines_from, lines_of, same, show, split_once, trim,
    trim_white, views, Class,
};
use crate::vault::retention::{directories, dirs_named, expired, meant, prune, Entry};
use crate::vault::sha256::{is_digest, is_hex, sha256, sha256_hex};
use crate::vault::snapshot_files::{
    all_digests, is_manifest, manifest_line, manifest_lines, MANIFEST,
};
use crate::vault::snapshot_sqlite::{detect_drop, is_required, row_drop, Integrity};
use vstd::prelude::*;

verus! {

/// Maximum number of LKG entries to retain.
pub const MAX_LKGS: usize = 10;

/// Minimum gateway uptime (seconds) required before promotion.
pub const MIN_UPTIME_SECS: u64 = 1800;

// ── The pipeline ──────────────────────────────────────────────────────

/// What is known of the gateway's uptime.
#[derive(Debug, Clone, Copy, PartialEq, Eq, Structural)]
pub enum Uptime {
    /// The question failed.
    Failed,
    /// There is no answer.
    Unknown,
    Secs(u64),
}

/// What the check of the manifest said.
#[derive(Debug, Clone, Copy, PartialEq, Eq, Structural)]
pub enum ManifestCheck {
    /// There is no manifest.
    Absent,
    Passed,
    Failed,
}

/// What came of a step of the promotion.
#[derive(Debug, Clone, Copy, PartialEq, Eq, Structural)]
pub enum Event {
    /// Whether the directories of the vault exist now.
    Dirs(bool),
    /// The state of the gateway; `None` where it could not be queried.
    State(Option<ServiceActive>),
    Uptime(Uptime),
    /// Whether the health check passed.
    Health(bool),
    /// Whether there is a file snapshot.
    Files(bool),
    /// Whether there is a snapshot of a source, whether one is required, and
    /// whether it was the last source to look for.
    Source { found: bool, required: bool, last: bool },
    /// Whether the LKG directory exists now.
    DirMade(bool),
    /// Whether the snapshot of the next source was copied.
    Copied(bool),
    /// There is no further source to copy.
    NoMore,
    /// What the integrity check of the copy said, and whether its rows are counted.
    Checked { integrity: Integrity, counted: bool },
    /// The rows of the copy, and those in the current LKG.
    Rows { new_rows: u64, old_rows: Option<u64> },
    /// The files were copied, as far as they could be.
    FilesCopied,
    Manifest(ManifestCheck),
    /// Whether the symlink `lkg/current` points to the new directory.
    Linked(bool),
}

/// What to do next.
#[derive(Debug, Clone, Copy, PartialEq, Eq, Structural)]
pub enum Action {
    MakeDirs,
    AskState,
    AskUptime,
    CheckHealth,
    FindFiles,
    /// Find the latest snapshot of the next source.
    FindSource,
    /// Create the LKG directory.
    MakeDir,
    /// Copy the snapshot of the next source into it.
    CopyNext,
    CheckIntegrity,
    CountRows,
    CopyFiles,
    VerifyManifest,
    SwitchLink,
    /// Prune, and log the success.
    Finish,
    /// Report the failure; remove the LKG directory, log the reason, and send an
    /// alert, where so told.
    Fail { remove: bool, log: bool, alert: bool },
}

/// What follows from an event.
pub open spec fn step(e: Event) -> Action {
    match e {
        Event::Dirs(there) => if there {
            Action::AskState
        } else {
            Action::Fail { remove: false, log: false, alert: false }
        },
        Event::State(s) => match s {
            Some(ServiceActive::Active) => Action::AskUptime,
            Some(_) => Action::Fail { remove: false, log: true, alert: false },
            None => Action::Fail { remove: false, log: false, alert: false },
        },
        Event::Uptime(u) => match u {
            Uptime::Failed => Action::Fail { remove: false, log: false, alert: false },
            Uptime::Unknown => Action::CheckHealth,
            Uptime::Secs(s) => if s < MIN_UPTIME_SECS {
                Action::Fail { remove: false, log: true, alert: false }
            } else {
                Action::CheckHealth
            },
        },
        Event::Health(ok) => if ok {
            Action::FindFiles
        } else {
            Action::Fail { remove: false, log: true, alert: false }
        },
        Event::Files(found) => if found {
            Action::FindSource
        } else {
            Action::Fail { remove: false, log: true, alert: false }
        },
        Event::Source { found, required, last } => if !found && required {
            Action::Fail { remove: false, log: true, alert: false }
        } else if last {
            Action::MakeDir
        } else {
            Action::FindSource
        },
        Event::DirMade(done) => if done {
            Action::CopyNext
        } else {
            Action::Fail { remove: false, log: false, alert: false }
        },
        Event::Copied(done) => if done {
            Action::CheckIntegrity
        } else {
            Action::Fail { remove: true, log: false, alert: false }
        },
        Event::NoMore => Action::CopyFiles,
        Event::Checked { integrity, counted } => match integrity {
            Integrity::Sound => if counted {
                Action::CountRows
            } else {
                Action::CopyNext
            },
            Integrity::Damaged => Action::Fail { remove: true, log: true, alert: true },
            Integrity::Unread => Action::Fail { remove: true, log: false, alert: false },
        },
        Event::Rows { new_rows, old_rows } => if regressed(old_rows, new_rows) {
            Action::Fail { remove: true, log: true, alert: true }
        } else {
            Action::CopyNext
        },
        Event::FilesCopied => Action::VerifyManifest,
        Event::Manifest(m) => match m {
            ManifestCheck::Failed => Action::Fail { remove: true, log: true, alert: true },
            ManifestCheck::Absent | ManifestCheck::Passed => Action::SwitchLink,
        },
        Event::Linked(done) => if done {
            Action::Finish
        } else {
            Action::Fail { remove: false, log: false, alert: false }
        },
    }
}

/// The rows dropped by more than half against the current LKG.
pub open spec fn regressed(old_rows: Option<u64>, new_rows: u64) -> bool {
    match old_rows {
        Some(o) => row_drop(o as int, new_rows as int) is Some,
        None => false,
    }
}

/// What to do after an event of the LKG promotion, which begins with the
/// directories of the vault.
pub fn run(e: Event) -> (r: Action)
    ensures
        r == step(e),
{
    match e {
        Event::Dirs(there) => if there {
            Action::AskState
        } else {
            Action::Fail { remove: false, log: false, alert: false }
        },
        // Pre-check 1: Gateway must be active
        Event::State(s) => match s {
            Some(ServiceActive::Active) => Action::AskUptime,
            Some(_) => Action::Fail { remove: false, log: true, alert: false },
            None => Action::Fail { remove: false, log: false, alert: false },
        },
        // Pre-check 2: Uptime >= MIN_UPTIME_SECS
        Event::Uptime(u) => match u {
            Uptime::Failed => Action::Fail { remove: false, log: false, alert: false },
            Uptime::Unknown => Action::CheckHealth,
            Uptime::Secs(s) => if s < MIN_UPTIME_SECS {
                Action::Fail { remove: false, log: true, alert: false }
            } else {
                Action::CheckHealth
            },
        },
        // Pre-check 3: Health check must pass
        Event::Health(ok) => if ok {
            Action::FindFiles
        } else {
            Action::Fail { remove: false, log: true, alert: false }
        },
        Event::Files(found) => if found {
            Action::FindSource
        } else {
            Action::Fail { remove: false, log: true, alert: false }
        },
        Event::Source { found, required, last } => if !found && required {
            Action::Fail { remove: false, log: true, alert: false }
        } else if last {
            Action::MakeDir
        } else {
            Action::FindSource
        },
        Event::DirMade(done) => if done {
            Action::CopyNext
        } else {
            Action::Fail { remove: false, log: false, alert: false }
        },
        Event::Copied(done) => if done {
            Action::CheckIntegrity
        } else {
            Action::Fail { remove: true, log: false, alert: false }
        },
        Event::NoMore => Action::CopyFiles,
        Event::Checked { integrity, counted } => match integrity {
            Integrity::Sound => if counted {
                Action::CountRows
            } else {
                Action::CopyNext
            },
            Integrity::Damaged => Action::Fail { remove: true, log: true, alert: true },
            Integrity::Unread => Action::Fail { remove: true, log: false, alert: false },
        },
        Event::Rows { new_rows, old_rows } => {
            let drop: Option<u64> = match old_rows {
                Some(o) => detect_drop(o, new_rows),
                None => None,
            };
            if drop.is_some() {
                Action::Fail { remove: true, log: true, alert: true }
            } else {
                Action::CopyNext
            }
        },
        Event::FilesCopied => Action::VerifyManifest,
        Event::Manifest(m) => match m {
            ManifestCheck::Failed => Action::Fail { remove: true, log: true, alert: true },
            ManifestCheck::Absent | ManifestCheck::Passed => Action::SwitchLink,
        },
        Event::Linked(done) => if done {
            Action::Finish
        } else {
            Action::Fail { remove: false, log: false, alert: false }
        },
    }
}

/// The exit code of a promotion that ended so: 0 on success, 1 on failure.
pub fn exit_code(a: Action) -> (r: i32)
    ensures
        r == if a is Fail {
            1i32
        } else {
            0i32
        },
{
    match a {
        Action::Fail { .. } => 1,
        _ => 0,
    }
}

/// What came of looking for a snapshot of the source `label`, with `left` further
/// sources to look for.
pub fn source_event(label: &str, found: bool, left: usize) -> (r: Event)
    ensures
        r == (Event::Source { found, required: label@ == "main"@, last: left == 0 }),
{
    Event::Source { found, required: is_required(label), last: left == 0 }
}

/// The event can come of the action.
pub open spec fn answers(a: Action, e: Event) -> bool {
    match a {
        Action::MakeDirs => e is Dirs,
        Action::AskState => e is State,
        Action::AskUptime => e is Uptime,
        Action::CheckHealth => e is Health,
        Action::FindFiles => e is Files,
        Action::FindSource => e is Source,
        Action::MakeDir => e is DirMade,
        Action::CopyNext => e is Copied || e is NoMore,
        Action::CheckIntegrity => e is Checked,
        Action::CountRows => e is Rows,
        Action::CopyFiles => e is FilesCopied,
        Action::VerifyManifest => e is Manifest,
        Action::SwitchLink => e is Linked,
        Action::Finish | Action::Fail { .. } => false,
    }
}

/// The action at `i` was answered by the event at `i`.
pub open spec fn answered(run: Seq<(Action, Event)>, i: int) -> bool {
    answers(run[i].0, run[i].1)
}

/// The action at `i` follows from the event before.
pub open spec fn follows(run: Seq<(Action, Event)>, i: int) -> bool {
    run[i].0 == step(run[i - 1].1)
}

/// A run of the promotion: each action with what came of it, each following
/// from the event before.
pub open spec fn is_run(run: Seq<(Action, Event)>) -> bool {
    &&& run.len() > 0 ==> run[0].0 == Action::MakeDirs
    &&& forall|i: int| 0 <= i < run.len() ==> #[trigger] answered(run, i)
    &&& forall|i: int| 0 < i < run.len() ==> #[trigger] follows(run, i)
}

/// The event speaks for the promotion.
pub open spec fn favourable(e: Event) -> bool {
    match e {
        Event::Dirs(there) => there,
        Event::State(s) => s == Some(ServiceActive::Active),
        Event::Uptime(u) => u == Uptime::Unknown || (u matches Uptime::Secs(s) && s
            >= MIN_UPTIME_SECS),
        Event::Health(ok) => ok,
        Event::Files(found) => found,
        Event::Source { found, required, .. } => found || !required,
        Event::DirMade(done) => done,
        Event::Copied(done) => done,
        Event::NoMore | Event::FilesCopied => true,
        Event::Checked { integrity, .. } => integrity == Integrity::Sound,
        Event::Rows { new_rows, old_rows } => !regressed(old_rows, new_rows),
        Event::Manifest(m) => m != ManifestCheck::Failed,
        Event::Linked(done) => done,
    }
}

/// The current LKG is replaced only where everything before spoke for it: an
/// active and healthy gateway, up long enough if that is known, sound copies,
/// no regression, and a manifest that is not violated.
pub proof fn law_promotion_needs_everything(run: Seq<(Action, Event)>, n: int, i: int)
    requires
        is_run(run),
        0 <= i < n < run.len(),
    ensures
        favourable(run[i].1),
{
    assert(answered(run, i + 1));
    assert(follows(run, i + 1));
}

/// A promotion that fails between the creation of the LKG directory and the
/// switch of the symlink leaves no directory behind.
pub proof fn law_failed_promotion_is_removed(e: Event)
    requires
        e is Copied || e is Checked || e is Rows || e is Manifest,
        step(e) is Fail,
    ensures
        step(e)->remove,
{
}

/// The state of the gateway, its uptime and its health are asked, in this order,
/// before anything is looked for or copied.
pub proof fn law_gateway_is_asked_first(run: Seq<(Action, Event)>)
    requires
        is_run(run),
        run.len() > 4,
    ensures
        run[1].1 == Event::State(Some(ServiceActive::Active)),
        run[2].1 is Uptime && favourable(run[2].1),
        run[3].1 == Event::Health(true),
        run[4].0 == Action::FindFiles,
{
    assert(answered(run, 0) && answered(run, 1) && answered(run, 2) && answered(run, 3));
    assert(follows(run, 1) && follows(run, 2) && follows(run, 3) && follows(run, 4));
    assert(answered(run, 4));
}

/// Every copy is checked before the next step, and the current LKG is switched
/// only right after the manifest was asked for and not found violated.
pub proof fn law_copies_are_checked(run: Seq<(Action, Event)>, n: int)
    requires
        is_run(run),
        0 < n < run.len(),
    ensures
        run[n - 1].1 is Copied ==> run[n].0 == Action::CheckIntegrity,
        run[n].0 == Action::SwitchLink ==> run[n - 1].0 == Action::VerifyManifest
            && run[n - 1].1 is Manifest && run[n - 1].1 != Event::Manifest(ManifestCheck::Failed),
{
    assert(answered(run, n) && answered(run, n - 1));
    assert(follows(run, n));
}

/// The place of an action in the promotion. The sources are looked for, and
/// copied, one after the other.
pub open spec fn stage(a: Action) -> int {
    match a {
        Action::MakeDirs => 0,
        Action::AskState => 1,
        Action::AskUptime => 2,
        Action::CheckHealth => 3,
        Action::FindFiles => 4,
        Action::FindSource => 5,
        Action::MakeDir => 6,
        Action::CopyNext => 7,
        Action::CheckIntegrity => 8,
        Action::CountRows => 9,
        Action::CopyFiles => 10,
        Action::VerifyManifest => 11,
        Action::SwitchLink => 12,
        Action::Finish => 13,
        Action::Fail { .. } => -1,
    }
}

/// A step that spoke for the promotion leads to the next one, and no step is
/// passed over. The search and the copying of sources are repeated as long as
/// there are further ones; each copy is checked, and its rows counted where they
/// are to be, before the next.
pub proof fn law_steps_in_order(a: Action, e: Event)
    requires
        answers(a, e),
        favourable(e),
    ensures
        a != Action::FindSource && a != Action::CopyNext && a != Action::CheckIntegrity && a
            != Action::CountRows ==> stage(step(e)) == stage(a) + 1,
        e matches Event::Source { last, .. } ==> step(e) == if last {
            Action::MakeDir
        } else {
            Action::FindSource
        },
        e is Copied ==> step(e) == Action::CheckIntegrity,
        e matches Event::Checked { counted, .. } ==> step(e) == if counted {
            Action::CountRows
        } else {
            Action::CopyNext
        },
        e is Rows ==> step(e) == Action::CopyNext,
        e is NoMore ==> step(e) == Action::CopyFiles,
{
}

/// What speaks against the promotion ends it. The new directory is removed where
/// there is one and the link was not touched; the reason is logged where it lies
/// in the data or in the gateway; and data that is damaged, lost or altered
/// raises an alarm.
pub proof fn law_refusals_are_graded(a: Action, e: Event)
    requires
        answers(a, e),
    ensures
        step(e) is Fail <==> !favourable(e),
        step(e) is Fail ==> (step(e)->remove <==> e is Copied || e is Checked || e is Rows || e
            is Manifest),
        step(e) is Fail ==> (step(e)->alert <==> (e matches Event::Checked { integrity, .. }
            && integrity == Integrity::Damaged) || e is Rows || e is Manifest),
        step(e) is Fail ==> (step(e)->log <==> step(e)->alert || (e matches Event::State(s) && s
            is Some) || (e matches Event::Uptime(u) && u is Secs) || e is Health || e is Files || e
            is Source),
{
}

/// A promotion is refused for lost rows exactly where at least 51 percent of
/// those in the current LKG are gone, neither count being empty.
pub proof fn law_regression_is_more_than_half(old_rows: u64, new_rows: u64)
    ensures
        step(Event::Rows { new_rows, old_rows: Some(old_rows) }) is Fail <==> 0 < new_rows < old_rows
            && (old_rows - new_rows) * 100 >= 51 * old_rows,
        step(Event::Rows { new_rows, old_rows: None }) == Action::CopyNext,
{
    crate::vault::snapshot_sqlite::law_drop_is_more_than_half(old_rows, new_rows);
}

/// A gateway is promoted only half an hour after its start, if its start is
/// known, and then it is, as far as the uptime goes.
pub proof fn law_young_gateway_is_refused(secs: u64)
    ensures
        step(Event::Uptime(Uptime::Secs(secs))) == Action::CheckHealth <==> secs >= 30 * 60,
        step(Event::Uptime(Uptime::Unknown)) == Action::CheckHealth,
        step(Event::Uptime(Uptime::Failed)) is Fail,
{
}

// ── Messages ──────────────────────────────────────────────────────────

/// Why a gateway in this state is not promoted.
pub fn not_active_message(state: ServiceActive) -> (r: String)
    ensures
        r@ == "Gateway not active (state: "@ + state.word() + "), refusing LKG promotion"@,
{
    let mut r = "Gateway not active (state: ".to_owned();
    r.append(state.as_str());
    r.append("), refusing LKG promotion");
    r
}

/// Why a gateway that is up for so long is not promoted.
pub fn uptime_message(uptime: u64) -> (r: String)
    ensures
        r@ == "Gateway uptime "@ + decimal(uptime as nat) + "s < required "@ + decimal(
            MIN_UPTIME_SECS as nat,
        ) + "s"@,
{
    let mut r = "Gateway uptime ".to_owned();
    r.append(show(uptime).as_str());
    r.append("s < required ");
    r.append(show(MIN_UPTIME_SECS).as_str());
    r.append("s");
    r
}

/// Why damaged data is not promoted.
pub fn integrity_message(label: &str, integrity: &str) -> (r: String)
    ensures
        r@ == label@ + " integrity check failed: "@ + integrity@,
{
    let mut r = label.to_owned();
    r.append(" integrity check failed: ");
    r.append(integrity);
    r
}

/// `<pct>% (<old> -> <new>)`.
pub open spec fn drop_text(pct: nat, old_rows: nat, new_rows: nat) -> Seq<char> {
    decimal(pct) + "% ("@ + decimal(old_rows) + " -> "@ + decimal(new_rows) + ")"@
}

/// `<pct>% (<old> -> <new>)`.
fn show_drop(pct: u64, old_rows: u64, new_rows: u64) -> (r: String)
    ensures
        r@ == drop_text(pct as nat, old_rows as nat, new_rows as nat),
{
    let mut r = show(pct);
    r.append("% (");
    r.append(show(old_rows).as_str());
    r.append(" -> ");
    r.append(show(new_rows).as_str());
    r.append(")");
    r
}

/// Why data with far fewer rows is not promoted: the reason, and the alert.
pub fn regression_messages(label: &str, pct: u64, old_rows: u64, new_rows: u64) -> (r: (String, String))
    ensures
        r.0@ == label@ + " row count regression "@ + drop_text(
            pct as nat,
            old_rows as nat,
            new_rows as nat,
        ),
        r.1@ == "LKG promotion REFUSED: "@ + label@ + " row count dropped "@ + drop_text(
            pct as nat,
            old_rows as nat,
            new_rows as nat,
        ),
{
    let d = show_drop(pct, old_rows, new_rows);
    let mut reason = label.to_owned();
    reason.append(" row count regression ");
    reason.append(d.as_str());
    let mut alert = "LKG promotion REFUSED: ".to_owned();
    alert.append(label);
    alert.append(" row count dropped ");
    alert.append(d.as_str());
    (reason, alert)
}

/// The LKG directories to remove: all but the newest `keep`.
pub fn prune_lkgs(entries: &Vec<Entry>, keep: usize) -> (r: Vec<String>)
    ensures
        expired(meant(entries@, dirs_named("lkg-"@)), keep as nat, views(r@)),
{
    prune(entries, &directories("lkg-"), keep)
}

// ── The manifest ──────────────────────────────────────────────────────

/// The digest and the path in a line of a manifest; none in empty lines and
/// comments, in lines without white space, and for the manifest itself.
pub open spec fn manifest_entry(l: Seq<char>) -> Option<(Seq<char>, Seq<char>)> {
    let t = trim_white(l);
    if t.len() == 0 || t[0] == '#' {
        None
    } else {
        match cut(t, Class::White) {
            Some((hash, rest)) => if trim_white(rest) == MANIFEST@ {
                None
            } else {
                Some((hash, trim_white(rest)))
            },
            None => None,
        }
    }
}

/// The digests and paths in the first `n` lines of a manifest.
pub open spec fn entries_in(ls: Seq<Seq<char>>, n: int) -> Seq<(Seq<char>, Seq<char>)>
    decreases n,
{
    if n <= 0 {
        Seq::empty()
    } else {
        match manifest_entry(ls[n - 1]) {
            Some(e) => entries_in(ls, n - 1).push(e),
            None => entries_in(ls, n - 1),
        }
    }
}

/// The digests and paths in a manifest.
pub open spec fn entries_of(content: Seq<char>) -> Seq<(Seq<char>, Seq<char>)> {
    entries_in(lines(content), lines(content).len() as int)
}

/// The digests and paths in a manifest, in order.
pub fn manifest_entries(content: &str) -> (r: Vec<(String, String)>)
    ensures
        crate::config::pairs(r@) == entries_of(content@),
{
    let ls = lines_of(content);
    let mut r: Vec<(String, String)> = Vec::new();
    assert(crate::config::pairs(r@) =~= Seq::<(Seq<char>, Seq<char>)>::empty());
    let mut i: usize = 0;
    while i < ls.len()
        invariant
            views(ls@) == lines(content@),
            i <= ls@.len(),
            crate::config::pairs(r@) == entries_in(lines(content@), i as int),
        decreases ls@.len() - i,
    {
        assert(views(ls@)[i as int] == ls@[i as int]@);
        let t = trim(ls[i].as_str());
        let v = chars_of(t);
        if v.len() > 0 && v[0] != '#' {
            // Format: "<hash>  <path>" or "<hash> <path>"
            if let Some((hash, rest)) = split_once(t, Class::White) {
                let path = trim(rest);
                if !same(path, MANIFEST) {
                    let ghost before = crate::config::pairs(r@);
                    r.push((hash.to_owned(), path.to_owned()));
                    assert(crate::config::pairs(r@) =~= before.push((hash@, path@)));
                }
            }
        }
        i += 1;
    }
    r
}

/// A file that a manifest lists, as it is found.
pub enum Found {
    Missing,
    /// It could not be read, for this reason.
    Unreadable(String),
    Data(Vec<u8>),
}

/// What is wrong with a file that a manifest lists.
pub open spec fn fault(hash: Seq<char>, path: Seq<char>, found: Found) -> Option<Seq<char>> {
    match found {
        Found::Missing => Some("File from manifest missing: "@ + path),
        Found::Unreadable(e) => Some(e@),
        Found::Data(d) => if sha256_hex(d@) == hash {
            None
        } else {
            Some(
                "Hash mismatch for "@ + path + ": expected "@ + hash + ", got "@ + sha256_hex(d@),
            )
        },
    }
}

/// Whether a file is as the manifest lists it, and if not, what is wrong.
pub fn verify_entry(hash: &str, path: &str, found: &Found) -> (r: Result<(), String>)
    ensures
        match r {
            Ok(()) => fault(hash@, path@, *found) is None,
            Err(e) => fault(hash@, path@, *found) == Some(e@),
        },
{
    match found {
        Found::Missing => {
            let mut e = "File from manifest missing: ".to_owned();
            e.append(path);
            Err(e)
        },
        Found::Unreadable(e) => Err(e.clone()),
        Found::Data(d) => {
            let actual = sha256(d.as_slice());
            if same(actual.as_str(), hash) {
                Ok(())
            } else {
                let mut e = "Hash mismatch for ".to_owned();
                e.append(path);
                e.append(": expected ");
                e.append(hash);
                e.append(", got ");
                e.append(actual.as_str());
                Err(e)
            }
        },
    }
}

/// What is wrong with the first file at or after `i` that is not as listed.
pub open spec fn first_fault(
    entries: Seq<(Seq<char>, Seq<char>)>,
    found: Seq<Found>,
    i: int,
) -> Option<Seq<char>>
    decreases entries.len() - i,
{
    if i < 0 || i >= entries.len() {
        None
    } else {
        match fault(entries[i].0, entries[i].1, found[i]) {
            Some(e) => Some(e),
            None => first_fault(entries, found, i + 1),
        }
    }
}

/// Verify a SHA-256 manifest, given its entries and what was found of each
/// file. Fails with the first fault.
pub fn verify_manifest(entries: &Vec<(String, String)>, found: &Vec<Found>) -> (r: Result<
    (),
    String,
>)
    requires
        entries@.len() == found@.len(),
    ensures
        match r {
            Ok(()) => first_fault(crate::config::pairs(entries@), found@, 0) is None,
            Err(e) => first_fault(crate::config::pairs(entries@), found@, 0) == Some(e@),
        },
{
    let ghost es = crate::config::pairs(entries@);
    let mut i: usize = 0;
    while i < entries.len()
        invariant
            es == crate::config::pairs(entries@),
            entries@.len() == found@.len(),
            i <= entries@.len(),
            first_fault(es, found@, 0) == first_fault(es, found@, i as int),
        decreases entries@.len() - i,
    {
        assert(es[i as int] == (entries@[i as int].0@, entries@[i as int].1@));
        match verify_entry(entries[i].0.as_str(), entries[i].1.as_str(), &found[i]) {
            Ok(()) => {},
            Err(e) => return Err(e),
        }
        i += 1;
    }
    Ok(())
}

// ── What is written is read back ──────────────────────────────────────

/// A path that a manifest can list: not empty, without line feeds or white
/// space at its ends, and not that of the manifest itself.
pub open spec fn listable(path: Seq<char>) -> bool {
    &&& path.len() > 0
    &&& !crate::util::text::is_white(path[0])
    &&& !crate::util::text::is_white(path.last())
    &&& forall|i: int| 0 <= i < path.len() ==> #[trigger] path[i] != '\n'
    &&& path != MANIFEST@
}

/// The characters of a line of a manifest: the digest, two blanks, and the path.
proof fn lemma_line_chars(hash: Seq<char>, path: Seq<char>)
    requires
        hash.len() == 64,
    ensures
        manifest_line(hash, path).len() == 66 + path.len(),
        manifest_line(hash, path).take(64) == hash,
        manifest_line(hash, path)[64] == ' ',
        manifest_line(hash, path)[65] == ' ',
        manifest_line(hash, path).skip(65) == seq![' '] + path,
        forall|i: int| 0 <= i < 64 ==> #[trigger] manifest_line(hash, path)[i] == hash[i],
        forall|i: int|
            66 <= i < 66 + path.len() ==> #[trigger] manifest_line(hash, path)[i] == path[i - 66],
{
    reveal_strlit("  ");
    let l = manifest_line(hash, path);
    assert(l.take(64) =~= hash);
    assert(l.skip(65) =~= seq![' '] + path);
}

/// A blank in front of a path is trimmed away, and nothing else.
proof fn lemma_blank_is_trimmed(path: Seq<char>)
    requires
        listable(path),
    ensures
        trim_white(seq![' '] + path) == path,
{
    let rest = seq![' '] + path;
    assert(rest[0] == ' ');
    assert(rest[1] == path[0]);
    assert(rest.skip(1) =~= path);
    assert(crate::util::text::past(rest, Class::White, 1) == 1);
    assert(crate::util::text::past(rest, Class::White, 0) == 1);
    crate::util::text::lemma_nothing_to_trim(path, Class::White);
}

/// The first white space in a line of a manifest follows the digest.
proof fn lemma_line_is_cut(hash: Seq<char>, path: Seq<char>)
    requires
        is_digest(hash),
        listable(path),
    ensures
        trim_white(manifest_line(hash, path)) == manifest_line(hash, path),
        cut(manifest_line(hash, path), Class::White) == Some((hash, seq![' '] + path)),
{
    let l = manifest_line(hash, path);
    lemma_line_chars(hash, path);
    assert forall|j: int| 0 <= j < 64 implies !Class::White.holds(#[trigger] l[j]) by {
        assert(is_hex(hash[j]));
    }
    assert(l.last() == path[path.len() - 1]);
    crate::util::text::lemma_nothing_to_trim(l, Class::White);
    crate::util::text::lemma_upto_is(l, Class::White, 0, 64);
}

/// A line of a manifest holds no line feed, and ends in no carriage return.
proof fn lemma_line_is_line(hash: Seq<char>, path: Seq<char>)
    requires
        is_digest(hash),
        listable(path),
    ensures
        crate::util::text::is_line(manifest_line(hash, path)),
{
    let l = manifest_line(hash, path);
    lemma_line_chars(hash, path);
    assert forall|i: int| 0 <= i < l.len() implies #[trigger] l[i] != '\n' by {
        if i < 64 {
            assert(is_hex(hash[i]));
        } else if i >= 66 {
            assert(path[i - 66] != '\n');
        }
    }
    assert(l.last() == path.last());
}

/// A line of a manifest is read back as the digest and the path in it.
proof fn lemma_line_reads_back(hash: Seq<char>, path: Seq<char>)
    requires
        is_digest(hash),
        listable(path),
    ensures
        manifest_entry(manifest_line(hash, path)) == Some((hash, path)),
        crate::util::text::is_line(manifest_line(hash, path)),
{
    lemma_line_is_cut(hash, path);
    lemma_blank_is_trimmed(path);
    lemma_line_is_line(hash, path);
    lemma_line_chars(hash, path);
    assert(is_hex(hash[0]));
    assert(manifest_line(hash, path)[0] == hash[0]);
}

/// The entries of a list of lines, where each has one.
proof fn lemma_entries_of_lines(ls: Seq<Seq<char>>, n: int)
    requires
        0 <= n <= ls.len(),
        forall|i: int| 0 <= i < ls.len() ==> manifest_entry(#[trigger] ls[i]) is Some,
    ensures
        entries_in(ls, n).len() == n,
        forall|i: int|
            0 <= i < n ==> #[trigger] entries_in(ls, n)[i] == manifest_entry(ls[i])->0,
    decreases n,
{
    if n > 0 {
        lemma_entries_of_lines(ls, n - 1);
        assert(manifest_entry(ls[n - 1]) is Some);
    }
}

/// A manifest lists what it was made of: as many entries as there were files,
/// each the digest and the path of one of them, and every file among them. So a
/// snapshot whose files are unchanged passes its own manifest.
pub proof fn law_manifest_reads_back(text: Seq<char>, listed: Seq<(Seq<char>, Seq<char>)>)
    requires
        is_manifest(text, listed),
        all_digests(listed),
        forall|i: int| 0 <= i < listed.len() ==> listable((#[trigger] listed[i]).1),
    ensures
        entries_of(text).len() == listed.len(),
        forall|k: int|
            0 <= k < listed.len() ==> listed.contains(#[trigger] entries_of(text)[k]),
        forall|i: int|
            0 <= i < listed.len() ==> entries_of(text).contains(#[trigger] listed[i]),
{
    let all = manifest_lines(listed);
    let sorted = choose|sorted: Seq<Seq<char>>|
        crate::util::order::in_order(all, sorted) && text == #[trigger] joined(sorted, "\n"@)
            + "\n"@;
    vstd::seq_lib::to_multiset_len(all);
    vstd::seq_lib::to_multiset_len(sorted);
    assert(sorted.len() == listed.len());
    if listed.len() == 0 {
        reveal_strlit("\n");
        assert(text =~= seq!['\n']);
        crate::util::text::lemma_upto_is(text, Class::Is('\n'), 0, 0);
        assert(text.subrange(0, 0) =~= Seq::<char>::empty());
        assert(lines_from(text, 1) =~= Seq::<Seq<char>>::empty());
        assert(lines(text) =~= seq![Seq::<char>::empty()]);
        let none = Seq::<char>::empty();
        assert(trim_white(none) =~= none);
        assert(manifest_entry(lines(text)[0]) is None);
        assert(entries_in(lines(text), 0).len() == 0);
        assert(entries_in(lines(text), 1).len() == 0);
    } else {
        assert forall|k: int| 0 <= k < sorted.len() implies crate::util::text::is_line(
            #[trigger] sorted[k],
        ) && manifest_entry(sorted[k]) is Some && listed.contains(manifest_entry(sorted[k])->0) by {
            let i = lemma_line_of(all, sorted, k);
            lemma_line_reads_back(listed[i].0, listed[i].1);
            assert(all[i] == manifest_line(listed[i].0, listed[i].1));
            assert(listed[i] == (listed[i].0, listed[i].1));
        }
        crate::util::text::lemma_joined_is_terminated(sorted);
        assert forall|i: int, j: int|
            0 <= i < sorted.len() && 0 <= j < sorted[i].len() implies #[trigger] sorted[i][j]
            != '\n' by {
            assert(crate::util::text::is_line(sorted[i]));
        }
        crate::util::text::lemma_lines_of_terminated(sorted);
        assert(lines(text) =~= sorted) by {
            assert forall|i: int| 0 <= i < sorted.len() implies #[trigger] lines(text)[i]
                == sorted[i] by {
                assert(crate::util::text::is_line(sorted[i]));
            }
        }
        lemma_entries_of_lines(sorted, sorted.len() as int);
        assert forall|k: int| 0 <= k < listed.len() implies listed.contains(
            #[trigger] entries_of(text)[k],
        ) by {
            assert(entries_in(sorted, sorted.len() as int)[k] == manifest_entry(sorted[k])->0);
        }
        assert forall|i: int| 0 <= i < listed.len() implies entries_of(text).contains(
            #[trigger] listed[i],
        ) by {
            let k = lemma_line_of(sorted, all, i);
            lemma_line_reads_back(listed[i].0, listed[i].1);
            assert(entries_of(text)[k] == manifest_entry(sorted[k])->0);
            assert(entries_of(text)[k] == listed[i]);
        }
    }
}

/// Where two lists hold the same lines, a line of the second stands in the first.
proof fn lemma_line_of(first: Seq<Seq<char>>, second: Seq<Seq<char>>, k: int) -> (i: int)
    requires
        first.to_multiset() == second.to_multiset(),
        0 <= k < second.len(),
    ensures
        0 <= i < first.len(),
        first[i] == second[k],
{
    broadcast use vstd::seq_lib::group_to_multiset_ensures;

    assert(second.contains(second[k]));
    assert(second.to_multiset().count(second[k]) > 0);
    assert(first.contains(second[k]));
    choose|i: int| 0 <= i < first.len() && first[i] == second[k]
}

// ── What the verification says ────────────────────────────────────────

/// A manifest verifies exactly where every file that it lists is there, can be
/// read and has the digest that is listed for it.
pub proof fn law_manifest_verifies_every_file(
    entries: Seq<(Seq<char>, Seq<char>)>,
    found: Seq<Found>,
    from: int,
)
    requires
        0 <= from <= entries.len(),
        entries.len() == found.len(),
    ensures
        first_fault(entries, found, from) is None <==> (forall|i: int|
            from <= i < entries.len() ==> ((#[trigger] found[i]) matches Found::Data(d)
                && sha256_hex(d@) == entries[i].0)),
    decreases entries.len() - from,
{
    if from < entries.len() {
        law_manifest_verifies_every_file(entries, found, from + 1);
        if first_fault(entries, found, from) is None {
            assert forall|i: int| from <= i < entries.len() implies ((
            #[trigger] found[i]) matches Found::Data(d) && sha256_hex(d@) == entries[i].0) by {
                if i > from {
                    assert(from + 1 <= i);
                }
            }
        }
    }
}

/// It is the first faulty file that is named, with what is wrong with it: a
/// missing file and one with another digest by their paths, an unreadable one by
/// the reason.
pub proof fn law_first_fault_is_named(
    entries: Seq<(Seq<char>, Seq<char>)>,
    found: Seq<Found>,
    from: int,
    k: int,
)
    requires
        0 <= from <= k < entries.len(),
        entries.len() == found.len(),
        forall|i: int|
            from <= i < k ==> ((#[trigger] found[i]) matches Found::Data(d) && sha256_hex(d@)
                == entries[i].0),
    ensures
        found[k] is Missing ==> first_fault(entries, found, from) == Some(
            "File from manifest missing: "@ + entries[k].1,
        ),
        found[k] matches Found::Unreadable(e) ==> first_fault(entries, found, from) == Some(e@),
        found[k] matches Found::Data(d) ==> sha256_hex(d@) != entries[k].0 ==> first_fault(
            entries,
            found,
            from,
        ) == Some(
            "Hash mismatch for "@ + entries[k].1 + ": expected "@ + entries[k].0 + ", got "@
                + sha256_hex(d@),
        ),
    decreases k - from,
{
    if from < k {
        assert(found[from] is Data);
        law_first_fault_is_named(entries, found, from + 1, k);
    }
}

/// Every line is read by itself, in its order: one more line adds its entry, if
/// it has one, and changes nothing otherwise.
pub proof fn law_manifest_lines_are_read_in_turn(ls: Seq<Seq<char>>, l: Seq<char>)
    ensures
        entries_in(ls.push(l), ls.len() as int + 1) == match manifest_entry(l) {
            Some(e) => entries_in(ls, ls.len() as int).push(e),
            None => entries_in(ls, ls.len() as int),
        },
{
    lemma_entries_in_longer(ls, l, ls.len() as int);
}

/// What follows does not change what is listed before.
proof fn lemma_entries_in_longer(ls: Seq<Seq<char>>, l: Seq<char>, n: int)
    requires
        0 <= n <= ls.len(),
    ensures
        entries_in(ls.push(l), n) == entries_in(ls, n),
    decreases n,
{
    if n > 0 {
        lemma_entries_in_longer(ls, l, n - 1);
        assert(ls.push(l)[n - 1] == ls[n - 1]);
    }
}

/// Empty lines and comments of a manifest list nothing.
pub proof fn law_comments_list_nothing(l: Seq<char>)
    ensures
        trim_white(l).len() == 0 ==> manifest_entry(l) is None,
        trim_white(l).len() > 0 && trim_white(l)[0] == '#' ==> manifest_entry(l) is None,
{
}

} // verus!
