//! Human-triggered rollback to a specific LKG state.
//!
//! This is a DESTRUCTIVE operation that requires interactive confirmation.
//! Shows a rollback plan, confirms with the user, stops the gateway, takes an
//! emergency snapshot, restores data from the chosen LKG, and restarts the
//! gateway.

use crate::platform::ServiceActive;
use crate::util::path::{join_path, joined_path};
use crate::util::size::{format_size, size_text};
use crate::util::text::{decimal, holds_text, occurs_at, show, views};
use crate::vault::retention::{directories, dirs_named, expired, meant, prune, Entry};
use vstd::prelude::*;

verus! {

/// What came of a step of the rollback.
#[derive(Debug, Clone, Copy, PartialEq, Eq, Structural)]
pub enum Event {
    /// Whether the audit directory exists now.
    AuditDir(bool),
    /// Whether the LKG is a directory that exists.
    Resolved(bool),
    /// The plan was shown.
    Shown,
    /// The user's answer; `None` where there was none.
    Confirmed(Option<bool>),
    /// The gateway was stopped, or was not running.
    Stopped,
    /// Whether the emergency directory exists now.
    EmergencyDir(bool),
    /// The current state was saved, as far as it could be.
    Saved,
    /// Whether the next database was restored.
    Database(bool),
    /// There is no further database to restore.
    NoMore,
    /// Whether MEMORY.md was restored; true where the LKG has none.
    MemoryFile(bool),
    /// Whether memory/ was restored, true where the LKG has none; and whether
    /// the LKG has a configuration.
    MemoryDir { done: bool, has_config: bool },
    /// Whether the configuration shall be restored too.
    ConfigWanted(bool),
    /// Whether the configuration was restored.
    Config(bool),
    /// Whether the gateway was restarted.
    Restarted(bool),
    /// The state of the gateway after the restart.
    State(ServiceActive),
}

/// What to do next.
#[derive(Debug, Clone, Copy, PartialEq, Eq, Structural)]
pub enum Action {
    MakeAuditDir,
    ResolveLkg,
    ShowPlan,
    AskConfirmation,
    StopGateway,
    MakeEmergencyDir,
    SaveState,
    RestoreNextDatabase,
    RestoreMemoryFile,
    RestoreMemoryDir,
    AskForConfig,
    RestoreConfig,
    RestartGateway,
    AskState,
    /// Report, log and alert.
    Finish,
    /// Say that nothing was done.
    Abort,
    /// Report the failure.
    Fail,
}

/// What follows from an event.
pub open spec fn step(e: Event) -> Action {
    match e {
        Event::AuditDir(true) => Action::ResolveLkg,
        Event::Resolved(true) => Action::ShowPlan,
        Event::Shown => Action::AskConfirmation,
        Event::Confirmed(Some(true)) => Action::StopGateway,
        Event::Confirmed(Some(false)) => Action::Abort,
        Event::Stopped => Action::MakeEmergencyDir,
        Event::EmergencyDir(true) => Action::SaveState,
        Event::Saved => Action::RestoreNextDatabase,
        Event::Database(true) => Action::RestoreNextDatabase,
        Event::NoMore => Action::RestoreMemoryFile,
        Event::MemoryFile(true) => Action::RestoreMemoryDir,
        Event::MemoryDir { done: true, has_config: true } => Action::AskForConfig,
        Event::MemoryDir { done: true, has_config: false } => Action::RestartGateway,
        Event::ConfigWanted(true) => Action::RestoreConfig,
        Event::ConfigWanted(false) => Action::RestartGateway,
        Event::Config(true) => Action::RestartGateway,
        Event::Restarted(true) => Action::AskState,
        Event::State(_) => Action::Finish,
        _ => Action::Fail,
    }
}

/// What to do after an event of the rollback, which begins with the audit
/// directory.
pub fn run(e: Event) -> (r: Action)
    ensures
        r == step(e),
{
    match e {
        Event::AuditDir(true) => Action::ResolveLkg,
        Event::Resolved(true) => Action::ShowPlan,
        Event::Shown => Action::AskConfirmation,
        Event::Confirmed(Some(true)) => Action::StopGateway,
        Event::Confirmed(Some(false)) => Action::Abort,
        Event::Stopped => Action::MakeEmergencyDir,
        Event::EmergencyDir(true) => Action::SaveState,
        Event::Saved => Action::RestoreNextDatabase,
        Event::Database(true) => Action::RestoreNextDatabase,
        Event::NoMore => Action::RestoreMemoryFile,
        Event::MemoryFile(true) => Action::RestoreMemoryDir,
        Event::MemoryDir { done: true, has_config: true } => Action::AskForConfig,
        Event::MemoryDir { done: true, has_config: false } => Action::RestartGateway,
        Event::ConfigWanted(true) => Action::RestoreConfig,
        Event::ConfigWanted(false) => Action::RestartGateway,
        Event::Config(true) => Action::RestartGateway,
        Event::Restarted(true) => Action::AskState,
        Event::State(_) => Action::Finish,
        _ => Action::Fail,
    }
}

/// The exit code of a rollback that ended so: 1 on failure, 0 on success, and
/// where the user declined it.
pub fn exit_code(a: Action) -> (r: i32)
    ensures
        r == if a is Fail {
            1i32
        } else {
            0i32
        },
{
    match a {
        Action::Fail => 1,
        _ => 0,
    }
}

/// The event can come of the action.
pub open spec fn answers(a: Action, e: Event) -> bool {
    match a {
        Action::MakeAuditDir => e is AuditDir,
        Action::ResolveLkg => e is Resolved,
        Action::ShowPlan => e is Shown,
        Action::AskConfirmation => e is Confirmed,
        Action::StopGateway => e is Stopped,
        Action::MakeEmergencyDir => e is EmergencyDir,
        Action::SaveState => e is Saved,
        Action::RestoreNextDatabase => e is Database || e is NoMore,
        Action::RestoreMemoryFile => e is MemoryFile,
        Action::RestoreMemoryDir => e is MemoryDir,
        Action::AskForConfig => e is ConfigWanted,
        Action::RestoreConfig => e is Config,
        Action::RestartGateway => e is Restarted,
        Action::AskState => e is State,
        Action::Finish | Action::Abort | Action::Fail => false,
    }
}

/// The action at `i` was answered by the event at `i`.
pub open spec fn answered(run: Seq<(Action, Event)>, i: int) -> bool {
    answers(run[i].0, run[i].1)
}

/// The action at `i` follows from the event before.
pub open spec fn follows(run: Seq<(Action, Event)>, i: int) -> bool {
    run[i].0 == step(run[i - 1].1)
}

/// A run of the rollback: each action with what came of it, each following
/// from the event before.
pub open spec fn is_run(run: Seq<(Action, Event)>) -> bool {
    &&& run.len() > 0 ==> run[0].0 == Action::MakeAuditDir
    &&& forall|i: int| 0 <= i < run.len() ==> #[trigger] answered(run, i)
    &&& forall|i: int| 0 < i < run.len() ==> #[trigger] follows(run, i)
}

/// The action comes before the user's answer.
pub open spec fn harmless(a: Action) -> bool {
    a == Action::MakeAuditDir || a == Action::ResolveLkg || a == Action::ShowPlan || a
        == Action::AskConfirmation
}

/// The place of the first steps in every run.
proof fn lemma_first_steps(run: Seq<(Action, Event)>, n: int)
    requires
        is_run(run),
        0 <= n < run.len(),
    ensures
        n == 0 <==> run[n].0 == Action::MakeAuditDir,
        n == 1 <==> run[n].0 == Action::ResolveLkg,
        n == 2 <==> run[n].0 == Action::ShowPlan,
        n == 3 <==> run[n].0 == Action::AskConfirmation,
        n == 4 <==> run[n].0 == Action::StopGateway,
        n == 5 <==> run[n].0 == Action::MakeEmergencyDir,
        n == 6 <==> run[n].0 == Action::SaveState,
    decreases n,
{
    assert(answered(run, n));
    if n > 0 {
        lemma_first_steps(run, n - 1);
        assert(answered(run, n - 1));
        assert(follows(run, n));
    }
}

/// Nothing happens without the user's consent: beyond the question, the answer
/// was yes.
pub proof fn law_rollback_needs_consent(run: Seq<(Action, Event)>, n: int)
    requires
        is_run(run),
        0 <= n < run.len(),
        !harmless(run[n].0),
    ensures
        n >= 4,
        run[3].1 == Event::Confirmed(Some(true)),
{
    lemma_first_steps(run, n);
    assert(n >= 4);
    lemma_first_steps(run, 3);
    lemma_first_steps(run, 4);
    assert(answered(run, 3));
    assert(follows(run, 4));
}

/// Nothing is restored before the gateway was stopped and the current state
/// was saved.
pub proof fn law_nothing_is_overwritten_unsaved(run: Seq<(Action, Event)>, n: int)
    requires
        is_run(run),
        0 <= n < run.len(),
        run[n].0 == Action::RestoreNextDatabase || run[n].0 == Action::RestoreMemoryFile || run[n].0
            == Action::RestoreMemoryDir || run[n].0 == Action::RestoreConfig,
    ensures
        n >= 7,
        run[4].1 == Event::Stopped,
        run[5].1 == Event::EmergencyDir(true),
        run[6].1 == Event::Saved,
{
    lemma_first_steps(run, n);
    assert(n >= 7);
    lemma_first_steps(run, 4);
    lemma_first_steps(run, 5);
    lemma_first_steps(run, 6);
    assert(answered(run, 4) && answered(run, 5) && answered(run, 6));
    assert(follows(run, 6));
}

/// The place of an action in the rollback.
pub open spec fn stage(a: Action) -> int {
    match a {
        Action::MakeAuditDir => 0,
        Action::ResolveLkg => 1,
        Action::ShowPlan => 2,
        Action::AskConfirmation => 3,
        Action::StopGateway => 4,
        Action::MakeEmergencyDir => 5,
        Action::SaveState => 6,
        Action::RestoreNextDatabase => 7,
        Action::RestoreMemoryFile => 8,
        Action::RestoreMemoryDir => 9,
        Action::AskForConfig => 10,
        Action::RestoreConfig => 11,
        Action::RestartGateway => 12,
        Action::AskState => 13,
        Action::Finish => 14,
        Action::Abort | Action::Fail => -1,
    }
}

/// The step did what it should. The state after the restart is only reported.
pub open spec fn goes_well(e: Event) -> bool {
    match e {
        Event::AuditDir(ok) => ok,
        Event::Resolved(ok) => ok,
        Event::Confirmed(answer) => answer == Some(true),
        Event::EmergencyDir(ok) => ok,
        Event::Database(ok) => ok,
        Event::MemoryFile(ok) => ok,
        Event::MemoryDir { done, .. } => done,
        Event::Config(ok) => ok,
        Event::Restarted(ok) => ok,
        Event::Shown
        | Event::Stopped
        | Event::Saved
        | Event::NoMore
        | Event::ConfigWanted(_)
        | Event::State(_) => true,
    }
}

/// A step that goes well leads to the next one, and no step is passed over:
/// databases are restored one after the other, and the configuration is asked
/// for only where there is one, and restored only where it is wanted. The
/// rollback is aborted where the user says no, and fails where anything else
/// does not go well.
pub proof fn law_steps_in_order(a: Action, e: Event)
    requires
        answers(a, e),
    ensures
        e is Database && goes_well(e) ==> step(e) == Action::RestoreNextDatabase,
        e matches Event::MemoryDir { done, has_config } ==> (done ==> step(e) == if has_config {
            Action::AskForConfig
        } else {
            Action::RestartGateway
        }),
        e matches Event::ConfigWanted(wanted) ==> step(e) == if wanted {
            Action::RestoreConfig
        } else {
            Action::RestartGateway
        },
        goes_well(e) && !(e is Database) && !(e is MemoryDir) && !(e is ConfigWanted) ==> stage(
            step(e),
        ) == stage(a) + 1,
        step(e) == Action::Abort <==> e == Event::Confirmed(Some(false)),
        step(e) == Action::Fail <==> !goes_well(e) && e != Event::Confirmed(Some(false)),
{
}

/// The gateway is restarted only after everything was restored: the databases to
/// the last, then MEMORY.md, then memory/. Where the LKG has a configuration, it
/// was asked for, and restored exactly where the answer was yes. Returned is the
/// place where memory/ was restored.
pub proof fn law_restart_follows_every_restore(run: Seq<(Action, Event)>, n: int) -> (k: int)
    requires
        is_run(run),
        0 <= n < run.len(),
        run[n].0 == Action::RestartGateway,
    ensures
        2 <= k < n,
        run[k - 2] == (Action::RestoreNextDatabase, Event::NoMore),
        run[k - 1] == (Action::RestoreMemoryFile, Event::MemoryFile(true)),
        run[k].0 == Action::RestoreMemoryDir,
        run[k].1 matches Event::MemoryDir { done, has_config } && done && (if has_config {
            &&& run[k + 1].0 == Action::AskForConfig
            &&& run[k + 1].1 == Event::ConfigWanted(true) ==> n == k + 3 && run[k + 2] == (
                Action::RestoreConfig,
                Event::Config(true),
            )
            &&& run[k + 1].1 != Event::ConfigWanted(true) ==> n == k + 2 && run[k + 1].1
                == Event::ConfigWanted(false)
        } else {
            n == k + 1
        }),
{
    assert(answered(run, n) && n > 0);
    assert(follows(run, n) && answered(run, n - 1));
    let k = if run[n - 1].1 is MemoryDir {
        n - 1
    } else if run[n - 1].1 is ConfigWanted {
        assert(follows(run, n - 1) && answered(run, n - 2));
        n - 2
    } else {
        assert(run[n - 1].1 == Event::Config(true));
        assert(follows(run, n - 1) && answered(run, n - 2));
        assert(follows(run, n - 2) && answered(run, n - 3));
        n - 3
    };
    assert(run[k].0 == Action::RestoreMemoryDir && k > 0);
    assert(follows(run, k) && answered(run, k - 1));
    assert(run[k - 1].0 == Action::RestoreMemoryFile && k > 1);
    assert(follows(run, k - 1) && answered(run, k - 2));
    k
}

// ── Texts ─────────────────────────────────────────────────────────────

/// Where the LKG is looked for: the path given, or `lkg/current` in the vault.
pub fn lkg_path(path: Option<&str>, lkg_dir: &str) -> (r: String)
    ensures
        r@ == match path {
            Some(p) => p@,
            None => joined_path(lkg_dir@, "current"@),
        },
{
    match path {
        Some(p) => p.to_owned(),
        None => join_path(lkg_dir, "current"),
    }
}

/// The size of a file, or a question mark.
pub open spec fn shown_size(size: Option<u64>) -> Seq<char> {
    match size {
        Some(n) => size_text(n as nat),
        None => "?"@,
    }
}

/// The size of a file, or a question mark.
fn show_size(size: Option<u64>) -> (r: String)
    ensures
        r@ == shown_size(size),
{
    match size {
        Some(n) => format_size(n),
        None => "?".to_owned(),
    }
}

/// A database that the LKG has.
pub struct LkgDatabase {
    pub label: String,
    /// Where it goes below the OpenClaw directory.
    pub rel_path: String,
    /// `None` where it is not known.
    pub size: Option<u64>,
}

/// What the LKG has.
pub struct LkgContent {
    pub databases: Vec<LkgDatabase>,
    /// The size of MEMORY.md, where there is one.
    pub memory_md: Option<Option<u64>>,
    /// The number of files in memory/, where there is one.
    pub memory_files: Option<u64>,
    /// The number of files in config/, where there is a configuration.
    pub config_files: Option<u64>,
}

/// The lines on the first `n` databases to restore.
pub open spec fn database_lines(dbs: Seq<LkgDatabase>, n: int) -> Seq<char>
    decreases n,
{
    if n <= 0 {
        Seq::empty()
    } else {
        database_lines(dbs, n - 1) + "  - SQLite["@ + dbs[n - 1].label@ + "]:    "@ + shown_size(
            dbs[n - 1].size,
        ) + "\n"@
    }
}

/// The lines on the first `n` databases to overwrite.
pub open spec fn overwrite_lines(dbs: Seq<LkgDatabase>, openclaw_dir: Seq<char>, n: int) -> Seq<char>
    decreases n,
{
    if n <= 0 {
        Seq::empty()
    } else {
        overwrite_lines(dbs, openclaw_dir, n - 1) + "  -> "@ + openclaw_dir + "/"@ + dbs[n
            - 1].rel_path@ + "\n"@
    }
}

/// The line on MEMORY.md.
pub open spec fn memory_line(memory_md: Option<Option<u64>>) -> Seq<char> {
    match memory_md {
        Some(size) => "  - MEMORY.md:        "@ + shown_size(size) + "\n"@,
        None => Seq::empty(),
    }
}

/// The line on a directory.
pub open spec fn dir_line(head: Seq<char>, files: Option<u64>) -> Seq<char> {
    match files {
        Some(n) => head + decimal(n as nat) + " files\n"@,
        None => Seq::empty(),
    }
}

/// The rollback plan.
pub open spec fn plan_text(lkg: Seq<char>, openclaw_dir: Seq<char>, c: LkgContent) -> Seq<char> {
    "\n================================================================\n                     ROLLBACK PLAN\n================================================================\n\nSource LKG: "@
        + lkg + "\n\nWill restore:\n"@ + database_lines(c.databases@, c.databases@.len() as int)
        + memory_line(c.memory_md) + dir_line("  - memory/ dir:      "@, c.memory_files)
        + dir_line("  - config/:          "@, c.config_files) + "\nWill OVERWRITE:\n"@
        + overwrite_lines(c.databases@, openclaw_dir, c.databases@.len() as int) + "  -> "@
        + openclaw_dir + "/workspace/MEMORY.md\n  -> "@ + openclaw_dir
        + "/workspace/memory/\n\nWARNING: This will STOP the OpenClaw gateway during rollback.\n\n"@
}

/// The line on a directory.
fn show_dir(head: &str, files: Option<u64>) -> (r: String)
    ensures
        r@ == dir_line(head@, files),
{
    match files {
        Some(n) => {
            let mut r = head.to_owned();
            r.append(show(n).as_str());
            r.append(" files\n");
            r
        },
        None => String::new(),
    }
}

/// The line on MEMORY.md.
fn show_memory(memory_md: Option<Option<u64>>) -> (r: String)
    ensures
        r@ == memory_line(memory_md),
{
    match memory_md {
        Some(size) => {
            let mut r = "  - MEMORY.md:        ".to_owned();
            r.append(show_size(size).as_str());
            r.append("\n");
            r
        },
        None => String::new(),
    }
}

/// The rollback plan, to be shown to the user.
pub fn show_plan(lkg: &str, openclaw_dir: &str, c: &LkgContent) -> (r: String)
    ensures
        r@ == plan_text(lkg@, openclaw_dir@, *c),
{
    let mut dbs = String::new();
    let mut i: usize = 0;
    while i < c.databases.len()
        invariant
            i <= c.databases@.len(),
            dbs@ == database_lines(c.databases@, i as int),
        decreases c.databases@.len() - i,
    {
        dbs.append("  - SQLite[");
        dbs.append(c.databases[i].label.as_str());
        dbs.append("]:    ");
        dbs.append(show_size(c.databases[i].size).as_str());
        dbs.append("\n");
        i += 1;
    }
    let mut over = String::new();
    let mut k: usize = 0;
    while k < c.databases.len()
        invariant
            k <= c.databases@.len(),
            over@ == overwrite_lines(c.databases@, openclaw_dir@, k as int),
        decreases c.databases@.len() - k,
    {
        over.append("  -> ");
        over.append(openclaw_dir);
        over.append("/");
        over.append(c.databases[k].rel_path.as_str());
        over.append("\n");
        k += 1;
    }
    let mut r = "\n================================================================\n                     ROLLBACK PLAN\n================================================================\n\nSource LKG: ".to_owned();
    r.append(lkg);
    r.append("\n\nWill restore:\n");
    r.append(dbs.as_str());
    r.append(show_memory(c.memory_md).as_str());
    r.append(show_dir("  - memory/ dir:      ", c.memory_files).as_str());
    r.append(show_dir("  - config/:          ", c.config_files).as_str());
    r.append("\nWill OVERWRITE:\n");
    r.append(over.as_str());
    r.append("  -> ");
    r.append(openclaw_dir);
    r.append("/workspace/MEMORY.md\n  -> ");
    r.append(openclaw_dir);
    r.append(
        "/workspace/memory/\n\nWARNING: This will STOP the OpenClaw gateway during rollback.\n\n",
    );
    r
}

/// The report after a rollback.
pub fn show_report(lkg: &str, state: ServiceActive, emergency: &str) -> (r: String)
    ensures
        r@
            == "\n================================================================\n                   ROLLBACK COMPLETE\n================================================================\n\n  Restored from: "@
            + lkg@ + "\n  Gateway status: "@ + state.word() + "\n  Pre-rollback backup: "@
            + emergency@ + "\n\n"@,
{
    let mut r = "\n================================================================\n                   ROLLBACK COMPLETE\n================================================================\n\n  Restored from: ".to_owned();
    r.append(lkg);
    r.append("\n  Gateway status: ");
    r.append(state.as_str());
    r.append("\n  Pre-rollback backup: ");
    r.append(emergency);
    r.append("\n\n");
    r
}

/// The alert after a rollback.
pub fn rollback_alert(lkg: &str, state: ServiceActive) -> (r: String)
    ensures
        r@ == "ROLLBACK executed from "@ + lkg@ + ". Gateway status: "@ + state.word(),
{
    let mut r = "ROLLBACK executed from ".to_owned();
    r.append(lkg);
    r.append(". Gateway status: ");
    r.append(state.as_str());
    r
}

/// The available LKGs, newest first.
pub fn list_available_lkgs(entries: &Vec<Entry>) -> (r: Vec<String>)
    ensures
        expired(meant(entries@, dirs_named("lkg-"@)), 0, views(r@)),
{
    prune(entries, &directories("lkg-"), 0)
}

/// The plan names every database of the LKG, and the path that each will
/// overwrite.
pub proof fn law_plan_names_every_database(
    dbs: Seq<LkgDatabase>,
    openclaw_dir: Seq<char>,
    n: int,
    i: int,
)
    requires
        0 <= i < n <= dbs.len(),
    ensures
        holds_text(database_lines(dbs, n), dbs[i].label@),
        holds_text(overwrite_lines(dbs, openclaw_dir, n), openclaw_dir + "/"@ + dbs[i].rel_path@),
    decreases n,
{
    let d = dbs[n - 1];
    let (a, b) = (database_lines(dbs, n - 1), overwrite_lines(dbs, openclaw_dir, n - 1));
    if i < n - 1 {
        law_plan_names_every_database(dbs, openclaw_dir, n - 1, i);
        let tail = "  - SQLite["@ + d.label@ + "]:    "@ + shown_size(d.size) + "\n"@;
        assert(database_lines(dbs, n) =~= a + tail);
        lemma_still_held(a, tail, dbs[i].label@);
        let tail = "  -> "@ + openclaw_dir + "/"@ + d.rel_path@ + "\n"@;
        assert(overwrite_lines(dbs, openclaw_dir, n) =~= b + tail);
        lemma_still_held(b, tail, openclaw_dir + "/"@ + dbs[i].rel_path@);
    } else {
        let k = (a.len() + "  - SQLite["@.len()) as int;
        assert(database_lines(dbs, n).subrange(k, k + d.label@.len()) =~= d.label@);
        assert(occurs_at(database_lines(dbs, n), d.label@, k));
        let p = openclaw_dir + "/"@ + d.rel_path@;
        let k = (b.len() + "  -> "@.len()) as int;
        assert(overwrite_lines(dbs, openclaw_dir, n).subrange(k, k + p.len()) =~= p);
        assert(occurs_at(overwrite_lines(dbs, openclaw_dir, n), p, k));
    }
}

/// What a text holds, a longer one that begins with it holds too.
proof fn lemma_still_held(a: Seq<char>, b: Seq<char>, p: Seq<char>)
    requires
        holds_text(a, p),
    ensures
        holds_text(a + b, p),
{
    let i = choose|i: int| occurs_at(a, p, i);
    assert((a + b).subrange(i, i + p.len()) =~= a.subrange(i, i + p.len()));
    assert(occurs_at(a + b, p, i));
}

} // verus!
