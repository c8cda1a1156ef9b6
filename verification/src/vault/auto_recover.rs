//! Automated LKG recovery triggered by the daemon on persistent failures.
//!
//! Validates the LKG, stops the gateway, takes an emergency snapshot of the
//! (potentially corrupt) state, restores SQLite + MEMORY.md + memory/ from LKG,
//! restarts the gateway, and verifies it comes back up.

use crate::platform::ServiceActive;
use crate::util::path::{join_path, joined_path};
use crate::util::text::{decimal, show};
use crate::vault::snapshot_sqlite::Integrity;
use vstd::prelude::*;

verus! {

/// What stands where the current LKG should be.
#[derive(Debug, Clone, Copy, PartialEq, Eq, Structural)]
pub enum Lkg {
    /// The link leads nowhere.
    Unresolved,
    /// It leads to something other than a directory.
    NotDirectory,
    /// The directory holds no SQLite database.
    NoDatabase,
    Present,
}

/// What came of restoring a part.
#[derive(Debug, Clone, Copy, PartialEq, Eq, Structural)]
pub enum Restored {
    /// The LKG does not have it.
    Absent,
    Done,
    Failed,
}

/// What came of a step of the recovery.
#[derive(Debug, Clone, Copy, PartialEq, Eq, Structural)]
pub enum Event {
    /// Whether the audit directory exists now.
    AuditDir(bool),
    Resolved(Lkg),
    /// What the integrity check of the LKG's database said.
    Checked(Integrity),
    /// The gateway was stopped, or was not running.
    Stopped,
    /// Whether the emergency directory exists now.
    EmergencyDir(bool),
    /// The current state was saved, as far as it could be.
    Saved,
    /// The database.
    Database(Restored),
    /// MEMORY.md.
    MemoryFile(Restored),
    /// memory/.
    MemoryDir(Restored),
    /// Whether the gateway was restarted.
    Restarted(bool),
    /// The state of the gateway after the restart.
    State(ServiceActive),
}

/// What to do next.
#[derive(Debug, Clone, Copy, PartialEq, Eq, Structural)]
pub enum Action {
    MakeAuditDir,
    ResolveLkg,
    CheckIntegrity,
    StopGateway,
    MakeEmergencyDir,
    SaveState,
    RestoreDatabase,
    RestoreMemoryFile,
    RestoreMemoryDir,
    RestartGateway,
    AskState,
    /// Report the recovery.
    Finish,
    /// Report the failure.
    Fail,
}

/// What follows from an event.
pub open spec fn step(e: Event) -> Action {
    match e {
        Event::AuditDir(true) => Action::ResolveLkg,
        Event::Resolved(Lkg::Present) => Action::CheckIntegrity,
        Event::Checked(Integrity::Sound) => Action::StopGateway,
        Event::Stopped => Action::MakeEmergencyDir,
        Event::EmergencyDir(true) => Action::SaveState,
        Event::Saved => Action::RestoreDatabase,
        Event::Database(Restored::Done | Restored::Absent) => Action::RestoreMemoryFile,
        Event::MemoryFile(Restored::Done | Restored::Absent) => Action::RestoreMemoryDir,
        Event::MemoryDir(Restored::Done | Restored::Absent) => Action::RestartGateway,
        Event::Restarted(true) => Action::AskState,
        Event::State(ServiceActive::Active) => Action::Finish,
        _ => Action::Fail,
    }
}

/// What to do after an event of the recovery, which begins with the audit
/// directory.
pub fn run(e: Event) -> (r: Action)
    ensures
        r == step(e),
{
    match e {
        Event::AuditDir(true) => Action::ResolveLkg,
        Event::Resolved(Lkg::Present) => Action::CheckIntegrity,
        Event::Checked(Integrity::Sound) => Action::StopGateway,
        Event::Stopped => Action::MakeEmergencyDir,
        Event::EmergencyDir(true) => Action::SaveState,
        Event::Saved => Action::RestoreDatabase,
        Event::Database(Restored::Done | Restored::Absent) => Action::RestoreMemoryFile,
        Event::MemoryFile(Restored::Done | Restored::Absent) => Action::RestoreMemoryDir,
        Event::MemoryDir(Restored::Done | Restored::Absent) => Action::RestartGateway,
        Event::Restarted(true) => Action::AskState,
        Event::State(ServiceActive::Active) => Action::Finish,
        _ => Action::Fail,
    }
}

/// The exit code of a recovery that ended so: 0 on success, 1 on failure.
pub fn exit_code(a: Action) -> (r: i32)
    ensures
        r == if a is Fail {
            1i32
        } else {
            0i32
        },
{
    match a {
        Action::Fail => 1,
        _ => 0,
    }
}

/// The event can come of the action.
pub open spec fn answers(a: Action, e: Event) -> bool {
    match a {
        Action::MakeAuditDir => e is AuditDir,
        Action::ResolveLkg => e is Resolved,
        Action::CheckIntegrity => e is Checked,
        Action::StopGateway => e is Stopped,
        Action::MakeEmergencyDir => e is EmergencyDir,
        Action::SaveState => e is Saved,
        Action::RestoreDatabase => e is Database,
        Action::RestoreMemoryFile => e is MemoryFile,
        Action::RestoreMemoryDir => e is MemoryDir,
        Action::RestartGateway => e is Restarted,
        Action::AskState => e is State,
        Action::Finish | Action::Fail => false,
    }
}

/// The action at `i` was answered by the event at `i`.
pub open spec fn answered(run: Seq<(Action, Event)>, i: int) -> bool {
    answers(run[i].0, run[i].1)
}

/// The action at `i` follows from the event before.
pub open spec fn follows(run: Seq<(Action, Event)>, i: int) -> bool {
    run[i].0 == step(run[i - 1].1)
}

/// A run of the recovery: each action with what came of it, each following
/// from the event before.
pub open spec fn is_run(run: Seq<(Action, Event)>) -> bool {
    &&& run.len() > 0 ==> run[0].0 == Action::MakeAuditDir
    &&& forall|i: int| 0 <= i < run.len() ==> #[trigger] answered(run, i)
    &&& forall|i: int| 0 < i < run.len() ==> #[trigger] follows(run, i)
}

/// The action overwrites data of OpenClaw.
pub open spec fn overwrites(a: Action) -> bool {
    a == Action::RestoreDatabase || a == Action::RestoreMemoryFile || a == Action::RestoreMemoryDir
}

/// Data is overwritten only from an LKG whose database is sound, with the
/// gateway stopped, and after the current state was saved.
pub proof fn law_nothing_is_overwritten_unsaved(run: Seq<(Action, Event)>, n: int)
    requires
        is_run(run),
        0 <= n < run.len(),
        overwrites(run[n].0),
    ensures
        n >= 6,
        run[2].1 == Event::Checked(Integrity::Sound),
        run[3].1 == Event::Stopped,
        run[4].1 == Event::EmergencyDir(true),
        run[5].1 == Event::Saved,
{
    lemma_position(run, n);
    assert(n >= 6);
    assert(follows(run, 1) && answered(run, 1));
    assert(follows(run, 2) && answered(run, 2));
    assert(follows(run, 3) && answered(run, 3));
    assert(follows(run, 4) && answered(run, 4));
    assert(follows(run, 5) && answered(run, 5));
    assert(follows(run, 6));
    assert(answered(run, 0) && answered(run, 6));
}

/// The recovery goes through its steps one by one.
proof fn lemma_position(run: Seq<(Action, Event)>, n: int)
    requires
        is_run(run),
        0 <= n < run.len(),
    ensures
        place(run[n].0) == n,
    decreases n,
{
    assert(answered(run, n));
    if n > 0 {
        lemma_position(run, n - 1);
        assert(answered(run, n - 1));
        assert(follows(run, n));
    }
}

/// The step did what it should. A part that the LKG does not have needs no
/// restoring.
pub open spec fn goes_well(e: Event) -> bool {
    match e {
        Event::AuditDir(ok) => ok,
        Event::Resolved(l) => l == Lkg::Present,
        Event::Checked(i) => i == Integrity::Sound,
        Event::Stopped | Event::Saved => true,
        Event::EmergencyDir(ok) => ok,
        Event::Database(r) => r != Restored::Failed,
        Event::MemoryFile(r) => r != Restored::Failed,
        Event::MemoryDir(r) => r != Restored::Failed,
        Event::Restarted(ok) => ok,
        Event::State(s) => s == ServiceActive::Active,
    }
}

/// The place of an action in the recovery.
pub open spec fn place(a: Action) -> int {
    match a {
        Action::MakeAuditDir => 0,
        Action::ResolveLkg => 1,
        Action::CheckIntegrity => 2,
        Action::StopGateway => 3,
        Action::MakeEmergencyDir => 4,
        Action::SaveState => 5,
        Action::RestoreDatabase => 6,
        Action::RestoreMemoryFile => 7,
        Action::RestoreMemoryDir => 8,
        Action::RestartGateway => 9,
        Action::AskState => 10,
        Action::Finish => 11,
        Action::Fail => -1,
    }
}

/// A step that goes well leads to the next one, and no step is passed over; one
/// that does not ends the recovery in failure.
pub proof fn law_steps_in_order(a: Action, e: Event)
    requires
        answers(a, e),
    ensures
        goes_well(e) ==> place(step(e)) == place(a) + 1,
        !goes_well(e) <==> step(e) == Action::Fail,
{
}

/// Where every step goes well, the run goes through all of them in order: the
/// action at each place is that of its stage, and the next one follows.
pub proof fn law_good_run_goes_through(run: Seq<(Action, Event)>, n: int)
    requires
        is_run(run),
        0 <= n < run.len(),
        forall|i: int| 0 <= i < run.len() ==> goes_well((#[trigger] run[i]).1),
    ensures
        place(run[n].0) == n,
        place(step(run[n].1)) == n + 1,
    decreases n,
{
    assert(answered(run, n));
    assert(goes_well(run[n].1));
    if n > 0 {
        law_good_run_goes_through(run, n - 1);
        assert(follows(run, n));
    }
    law_steps_in_order(run[n].0, run[n].1);
}

// ── Paths and messages ────────────────────────────────────────────────

/// Where the current state is saved before a recovery, or before a rollback:
/// `postmortem/<ts>-<suffix>` in the vault.
pub fn emergency_dir(vault_dir: &str, ts: &str, suffix: &str) -> (r: String)
    ensures
        r@ == joined_path(joined_path(vault_dir@, "postmortem"@), ts@ + "-"@ + suffix@),
{
    let mut name = ts.to_owned();
    name.append("-");
    name.append(suffix);
    join_path(join_path(vault_dir, "postmortem").as_str(), name.as_str())
}

/// What is logged of a valid LKG.
pub fn validated_message(lkg: &str, rows: u64) -> (r: String)
    ensures
        r@ == "LKG validated: "@ + lkg@ + " (rows="@ + decimal(rows as nat) + ")"@,
{
    let mut r = "LKG validated: ".to_owned();
    r.append(lkg);
    r.append(" (rows=");
    r.append(show(rows).as_str());
    r.append(")");
    r
}

/// The alert after a recovery. `name` is that of the LKG, where it has one.
pub fn recovered_message(name: Option<&str>, emergency: &str) -> (r: String)
    ensures
        r@ == "Auto-recovered from LKG. Data rolled back to: "@ + (match name {
            Some(n) => n@,
            None => "unknown"@,
        }) + ". Corrupt state saved: "@ + emergency@,
{
    let mut r = "Auto-recovered from LKG. Data rolled back to: ".to_owned();
    match name {
        Some(n) => r.append(n),
        None => r.append("unknown"),
    }
    r.append(". Corrupt state saved: ");
    r.append(emergency);
    r
}

/// Why a recovery failed whose gateway did not come up again.
pub fn inactive_message(state: ServiceActive) -> (r: String)
    ensures
        r@ == "Gateway still not active after LKG restore. Status: "@ + state.word(),
{
    let mut r = "Gateway still not active after LKG restore. Status: ".to_owned();
    r.append(state.as_str());
    r
}

/// The alert after a recovery that failed.
pub fn failed_message(error: &str) -> (r: String)
    ensures
        r@ == "Auto-recovery FAILED: "@ + error@ + ". Manual intervention required."@,
{
    let mut r = "Auto-recovery FAILED: ".to_owned();
    r.append(error);
    r.append(". Manual intervention required.");
    r
}

} // verus!
