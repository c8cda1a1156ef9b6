//! Atomic SQLite snapshots: each step of the pipeline, and what follows from
//! how it went.

use crate::util::path::{join_path, joined_path};
use crate::util::size::{format_size, size_text};
use crate::util::order::{
    before, comes_before, lemma_before_transitive, lemma_not_before_itself,
};
use crate::util::text::{decimal, same, show, views};
use crate::vault::names::{is_snapshot_of, snapshot_name};
use crate::vault::retention::{
    directories, dirs_named, expired, is_latest, latest, main_snapshots, meant, prune,
    sqlite_snapshots, Entry,
};
use crate::vault::sha256::{is_digest, sha256, sha256_hex};
use vstd::prelude::*;

verus! {

/// Maximum number of SQLite snapshots to retain (96 = 48 hours at 30-min intervals).
pub const MAX_SNAPSHOTS: usize = 96;

/// A SQLite database of OpenClaw.
pub struct SqliteSource {
    pub label: String,
    /// Where it lies below the OpenClaw directory.
    pub rel_path: String,
    /// The table whose rows are counted, if any.
    pub count_table: Option<String>,
}

/// The known databases: the main one, which is required.
pub fn sqlite_sources() -> (r: Vec<SqliteSource>)
    ensures
        r@.len() == 1,
        r@[0].label@ == "main"@,
        r@[0].rel_path@ == "memory/main.sqlite"@,
        r@[0].count_table matches Some(t) && t@ == "chunks"@,
{
    vec![
        SqliteSource {
            label: "main".to_owned(),
            rel_path: "memory/main.sqlite".to_owned(),
            count_table: Some("chunks".to_owned()),
        },
    ]
}

/// Whether a promotion needs a snapshot of the database `label`: of the main one
/// it does, of the others it takes what there is.
pub fn is_required(label: &str) -> (r: bool)
    ensures
        r == (label@ == "main"@),
{
    same(label, "main")
}

// ── Decisions ─────────────────────────────────────────────────────────

/// What an integrity check said.
#[derive(Debug, Clone, Copy, PartialEq, Eq, Structural)]
pub enum Integrity {
    /// `ok`.
    Sound,
    /// Something else.
    Damaged,
    /// Nothing: the database could not be opened or asked.
    Unread,
}

/// What an integrity check said; `None` where it could not be made.
pub fn judge_integrity(answer: Option<&str>) -> (r: Integrity)
    ensures
        r == match answer {
            Some(a) => if a@ == "ok"@ {
                Integrity::Sound
            } else {
                Integrity::Damaged
            },
            None => Integrity::Unread,
        },
{
    match answer {
        Some(a) => if same(a, "ok") {
            Integrity::Sound
        } else {
            Integrity::Damaged
        },
        None => Integrity::Unread,
    }
}

/// The rows that a count found; 0 where it failed or came out negative.
pub fn count_chunks(count: Option<i64>) -> (r: u64)
    ensures
        r == match count {
            Some(n) => if n > 0 {
                n as int
            } else {
                0
            },
            None => 0,
        },
{
    match count {
        Some(n) => if n > 0 {
            n as u64
        } else {
            0
        },
        None => 0,
    }
}

/// By how many percent the rows dropped, where that is more than half. A count
/// of 0 tells nothing.
pub open spec fn row_drop(old_rows: int, new_rows: int) -> Option<int> {
    if old_rows > 0 && 0 < new_rows < old_rows && (old_rows - new_rows) * 100 / old_rows > 50 {
        Some((old_rows - new_rows) * 100 / old_rows)
    } else {
        None
    }
}

/// By how many percent the rows dropped, where that is more than half.
pub fn detect_drop(old_rows: u64, new_rows: u64) -> (r: Option<u64>)
    ensures
        match r {
            Some(p) => row_drop(old_rows as int, new_rows as int) == Some(p as int),
            None => row_drop(old_rows as int, new_rows as int) is None,
        },
        r matches Some(p) ==> 50 < p < 100,
{
    if old_rows > 0 && new_rows > 0 && new_rows < old_rows {
        let pct: u128 = (old_rows - new_rows) as u128 * 100 / old_rows as u128;
        assert(pct < 100) by (nonlinear_arith)
            requires
                pct == (old_rows - new_rows) * 100 / old_rows as int,
                0 < new_rows < old_rows,
        ;
        if pct > 50 {
            return Some(pct as u64);
        }
    }
    None
}

/// What came of a step of the pipeline.
#[derive(Debug, Clone, Copy, PartialEq, Eq, Structural)]
pub enum Event {
    /// Whether the vault is within its quota.
    Quota(bool),
    /// Whether the source exists.
    Source(bool),
    /// Whether the directories exist now.
    Dirs(bool),
    /// The source could not be opened.
    NotOpened,
    /// Whether `VACUUM INTO` succeeded.
    Vacuum(bool),
    /// What the integrity check of the copy said.
    Checked(Integrity),
    /// The rows of the copy, and those of the latest snapshot.
    Counted { rows: u64, previous: Option<u64> },
    /// Whether the copy got its final name.
    Renamed(bool),
    /// Whether its digest could be computed.
    Hashed(bool),
}

/// What to do next.
#[derive(Debug, Clone, Copy, PartialEq, Eq, Structural)]
pub enum Action {
    CheckQuota,
    CheckSource,
    MakeDirs,
    /// `VACUUM INTO` a temporary file.
    Vacuum,
    CheckIntegrity,
    CountRows,
    /// Give the temporary file its final name, after the warnings.
    Rename { empty: bool, drop: Option<u64> },
    Hash,
    /// Log the success, and prune.
    Finish,
    /// Log that the snapshot is deferred.
    Skip,
    /// Report the failure; log it, and remove the temporary file, where so told.
    Fail { log: bool, remove: bool },
}

/// What follows from an event.
pub open spec fn step(e: Event) -> Action {
    match e {
        Event::Quota(within) => if within {
            Action::CheckSource
        } else {
            Action::Skip
        },
        Event::Source(there) => if there {
            Action::MakeDirs
        } else {
            Action::Fail { log: true, remove: false }
        },
        Event::Dirs(there) => if there {
            Action::Vacuum
        } else {
            Action::Fail { log: false, remove: false }
        },
        Event::NotOpened => Action::Fail { log: false, remove: false },
        Event::Vacuum(done) => if done {
            Action::CheckIntegrity
        } else {
            Action::Fail { log: false, remove: true }
        },
        Event::Checked(i) => match i {
            Integrity::Sound => Action::CountRows,
            Integrity::Damaged => Action::Fail { log: true, remove: true },
            Integrity::Unread => Action::Fail { log: false, remove: false },
        },
        Event::Counted { rows, previous } => Action::Rename {
            empty: rows == 0,
            drop: match previous {
                Some(p) => match row_drop(p as int, rows as int) {
                    Some(d) => Some(d as u64),
                    None => None,
                },
                None => None,
            },
        },
        Event::Renamed(done) => if done {
            Action::Hash
        } else {
            Action::Fail { log: false, remove: false }
        },
        Event::Hashed(done) => if done {
            Action::Finish
        } else {
            Action::Fail { log: false, remove: false }
        },
    }
}

/// What to do after an event of the snapshot pipeline, which begins with the
/// check of the quota.
pub fn run_sqlite(e: Event) -> (r: Action)
    ensures
        r == step(e),
{
    match e {
        Event::Quota(within) => if within {
            Action::CheckSource
        } else {
            Action::Skip
        },
        Event::Source(there) => if there {
            Action::MakeDirs
        } else {
            Action::Fail { log: true, remove: false }
        },
        Event::Dirs(there) => if there {
            Action::Vacuum
        } else {
            Action::Fail { log: false, remove: false }
        },
        Event::NotOpened => Action::Fail { log: false, remove: false },
        Event::Vacuum(done) => if done {
            Action::CheckIntegrity
        } else {
            Action::Fail { log: false, remove: true }
        },
        Event::Checked(i) => match i {
            Integrity::Sound => Action::CountRows,
            Integrity::Damaged => Action::Fail { log: true, remove: true },
            Integrity::Unread => Action::Fail { log: false, remove: false },
        },
        Event::Counted { rows, previous } => {
            let drop: Option<u64> = match previous {
                Some(p) => detect_drop(p, rows),
                None => None,
            };
            Action::Rename { empty: rows == 0, drop }
        },
        Event::Renamed(done) => if done {
            Action::Hash
        } else {
            Action::Fail { log: false, remove: false }
        },
        Event::Hashed(done) => if done {
            Action::Finish
        } else {
            Action::Fail { log: false, remove: false }
        },
    }
}

/// The exit code of a snapshot that ended so: 1 on failure, 0 on success, and
/// where it was put off.
pub fn exit_code(a: Action) -> (r: i32)
    ensures
        r == if a is Fail {
            1i32
        } else {
            0i32
        },
{
    match a {
        Action::Fail { .. } => 1,
        _ => 0,
    }
}

/// The event can come of the action.
pub open spec fn answers(a: Action, e: Event) -> bool {
    match a {
        Action::CheckQuota => e is Quota,
        Action::CheckSource => e is Source,
        Action::MakeDirs => e is Dirs,
        Action::Vacuum => e is NotOpened || e is Vacuum,
        Action::CheckIntegrity => e is Checked,
        Action::CountRows => e is Counted,
        Action::Rename { .. } => e is Renamed,
        Action::Hash => e is Hashed,
        Action::Finish | Action::Skip | Action::Fail { .. } => false,
    }
}

/// The action at `i` was answered by the event at `i`.
pub open spec fn answered(run: Seq<(Action, Event)>, i: int) -> bool {
    answers(run[i].0, run[i].1)
}

/// The action at `i` follows from the event before.
pub open spec fn follows(run: Seq<(Action, Event)>, i: int) -> bool {
    run[i].0 == step(run[i - 1].1)
}

/// A run of the pipeline: each action with what came of it, each following from
/// the event before.
pub open spec fn is_run(run: Seq<(Action, Event)>) -> bool {
    &&& run.len() > 0 ==> run[0].0 == Action::CheckQuota
    &&& forall|i: int| 0 <= i < run.len() ==> #[trigger] answered(run, i)
    &&& forall|i: int| 0 < i < run.len() ==> #[trigger] follows(run, i)
}

/// A snapshot gets its final name only after its integrity check said `ok`.
pub proof fn law_only_sound_snapshots_are_published(run: Seq<(Action, Event)>, n: int)
    requires
        is_run(run),
        0 <= n < run.len(),
        run[n].0 is Rename,
    ensures
        exists|i: int| 0 <= i < n && (#[trigger] run[i]).1 == Event::Checked(Integrity::Sound),
{
    assert(follows(run, n) && answered(run, n - 1));
    assert(run[n - 1].0 == Action::CountRows);
    assert(follows(run, n - 1) && answered(run, n - 2));
    assert(run[n - 2].1 == Event::Checked(Integrity::Sound));
}

/// The place of an action in the pipeline.
pub open spec fn stage(a: Action) -> int {
    match a {
        Action::CheckQuota => 0,
        Action::CheckSource => 1,
        Action::MakeDirs => 2,
        Action::Vacuum => 3,
        Action::CheckIntegrity => 4,
        Action::CountRows => 5,
        Action::Rename { .. } => 6,
        Action::Hash => 7,
        Action::Finish => 8,
        Action::Skip | Action::Fail { .. } => -1,
    }
}

/// The step did what it should. Every count of rows does: it only warns.
pub open spec fn goes_well(e: Event) -> bool {
    match e {
        Event::Quota(ok) => ok,
        Event::Source(ok) => ok,
        Event::Dirs(ok) => ok,
        Event::NotOpened => false,
        Event::Vacuum(ok) => ok,
        Event::Checked(i) => i == Integrity::Sound,
        Event::Counted { .. } => true,
        Event::Renamed(ok) => ok,
        Event::Hashed(ok) => ok,
    }
}

/// A step that goes well leads to the next one, and no step is passed over. A
/// vault over its quota puts the snapshot off, and nothing else does; any other
/// step that does not go well ends the pipeline in failure.
pub proof fn law_steps_in_order(a: Action, e: Event)
    requires
        answers(a, e),
    ensures
        goes_well(e) ==> stage(step(e)) == stage(a) + 1,
        step(e) == Action::Skip <==> e == Event::Quota(false),
        step(e) is Fail <==> !goes_well(e) && e != Event::Quota(false),
{
}

/// Where every step goes well, the run goes through all of them in order: the
/// action at each place is that of its stage, and the next one follows.
pub proof fn law_good_run_goes_through(run: Seq<(Action, Event)>, n: int)
    requires
        is_run(run),
        0 <= n < run.len(),
        forall|i: int| 0 <= i < run.len() ==> goes_well((#[trigger] run[i]).1),
    ensures
        stage(run[n].0) == n,
        stage(step(run[n].1)) == n + 1,
    decreases n,
{
    assert(answered(run, n));
    assert(goes_well(run[n].1));
    if n > 0 {
        law_good_run_goes_through(run, n - 1);
        assert(follows(run, n));
    }
    law_steps_in_order(run[n].0, run[n].1);
}

/// A failure leaves no temporary file behind where one was written and found
/// bad, and is logged where the source is missing or the copy damaged.
pub proof fn law_failures_clean_up(e: Event)
    requires
        step(e) is Fail,
    ensures
        step(e)->remove <==> e == Event::Vacuum(false) || e == Event::Checked(Integrity::Damaged),
        step(e)->log <==> e == Event::Source(false) || e == Event::Checked(Integrity::Damaged),
{
}

/// A drop is more than half of the rows gone: at least 51 percent of them,
/// given as a percentage rounded down. An empty count, on either side, is none.
pub proof fn law_drop_is_more_than_half(old_rows: u64, new_rows: u64)
    ensures
        row_drop(old_rows as int, new_rows as int) is Some <==> 0 < new_rows < old_rows && (old_rows
            - new_rows) * 100 >= 51 * old_rows,
        row_drop(old_rows as int, new_rows as int) matches Some(d) ==> d * old_rows <= (old_rows
            - new_rows) * 100 < (d + 1) * old_rows,
{
    if 0 < new_rows < old_rows {
        let (o, n) = (old_rows as int, new_rows as int);
        let d = (o - n) * 100 / o;
        assert(d * o <= (o - n) * 100 < (d + 1) * o && 0 <= d < 100) by (nonlinear_arith)
            requires
                d == (o - n) * 100 / o,
                0 < n < o,
        ;
        assert(d > 50 <==> (o - n) * 100 >= 51 * o) by (nonlinear_arith)
            requires
                d * o <= (o - n) * 100 < (d + 1) * o,
                0 < o,
        ;
    }
}

/// Before a snapshot is published it is warned of where it is empty, and where
/// it lost more than half of the rows of the previous one.
pub proof fn law_lost_rows_are_noticed(rows: u64, previous: Option<u64>)
    ensures
        ({
            let a = step(Event::Counted { rows, previous });
            &&& a is Rename
            &&& a->empty <==> rows == 0
            &&& a->drop is Some <==> (previous matches Some(p) && 0 < rows < p && (p - rows) * 100
                >= 51 * p)
            &&& a->drop matches Some(d) ==> d * previous->0 <= (previous->0 - rows) * 100 < (d + 1)
                * previous->0
        }),
{
    if let Some(p) = previous {
        law_drop_is_more_than_half(p, rows);
        if 0 < rows < p {
            assert((p - rows) * 100 / (p as int) < 100) by (nonlinear_arith)
                requires
                    0 < rows < p,
            ;
            assert((p - rows) * 100 / (p as int) >= 0) by (nonlinear_arith)
                requires
                    0 < rows < p,
            ;
        }
    }
}

// ── Texts ─────────────────────────────────────────────────────────────

/// The statement that copies a database.
pub fn vacuum_sql(dst: &str) -> (r: String)
    ensures
        r@ == "VACUUM INTO '"@ + dst@ + "'"@,
{
    let mut r = "VACUUM INTO '".to_owned();
    r.append(dst);
    r.append("'");
    r
}

/// The paths of a snapshot taken at the time `ts`: the final one and the temporary one.
pub fn snapshot_paths(vault_dir: &str, ts: &str) -> (r: (String, String))
    ensures
        r.0@ == joined_path(
            joined_path(vault_dir@, "snapshots"@),
            "main-"@ + ts@ + ".sqlite"@,
        ),
        r.1@ == joined_path(
            joined_path(vault_dir@, "snapshots"@),
            "main-"@ + ts@ + ".sqlite.tmp"@,
        ),
{
    let dir = join_path(vault_dir, "snapshots");
    let mut name = "main-".to_owned();
    name.append(ts);
    let mut tmp = name.clone();
    name.append(".sqlite");
    tmp.append(".sqlite.tmp");
    (join_path(dir.as_str(), name.as_str()), join_path(dir.as_str(), tmp.as_str()))
}

/// The warning about dropped rows.
pub fn drop_warning(pct: u64, old_rows: u64, new_rows: u64) -> (r: String)
    ensures
        r@ == "SQLite row count dropped "@ + decimal(pct as nat) + "% ("@ + decimal(
            old_rows as nat,
        ) + " -> "@ + decimal(new_rows as nat) + "). Possible data loss."@,
{
    let mut r = "SQLite row count dropped ".to_owned();
    r.append(show(pct).as_str());
    r.append("% (");
    r.append(show(old_rows).as_str());
    r.append(" -> ");
    r.append(show(new_rows).as_str());
    r.append("). Possible data loss.");
    r
}

/// The SHA-256 digest of a file's content, in hexadecimal.
pub fn sha256_file(data: &[u8]) -> (r: String)
    ensures
        r@ == sha256_hex(data@),
        is_digest(r@),
{
    sha256(data)
}

/// The line in the hash log for a snapshot.
pub fn hash_line(ts: &str, sha: &str, path: &str) -> (r: String)
    ensures
        r@ == ts@ + " "@ + sha@ + " "@ + path@ + "\n"@,
{
    let mut r = ts.to_owned();
    r.append(" ");
    r.append(sha);
    r.append(" ");
    r.append(path);
    r.append("\n");
    r
}

/// The log message for a snapshot that was taken.
pub fn success_message(path: &str, sha: &str, size: u64, rows: u64) -> (r: String)
    requires
        is_digest(sha@),
    ensures
        r@ == "OK: "@ + path@ + " ("@ + sha@.take(16) + ") size="@ + size_text(size as nat)
            + " rows="@ + decimal(rows as nat),
{
    let mut r = "OK: ".to_owned();
    r.append(path);
    r.append(" (");
    r.append(sha.substring_char(0, 16));
    r.append(") size=");
    r.append(format_size(size).as_str());
    r.append(" rows=");
    r.append(show(rows).as_str());
    r
}

// ── Finding and pruning ───────────────────────────────────────────────

/// Find the most recent existing `main-*.sqlite` file in the snapshots dir.
pub fn find_latest_snapshot(entries: &Vec<Entry>) -> (r: Option<String>)
    ensures
        match r {
            Some(name) => is_latest(meant(entries@, main_snapshots()), name@),
            None => meant(entries@, main_snapshots()).len() == 0,
        },
{
    let rule = sqlite_snapshots();
    latest(entries, &rule)
}

/// Find the most recent `files-*` directory in the snapshots dir.
pub fn find_latest_files_snapshot(entries: &Vec<Entry>) -> (r: Option<String>)
    ensures
        match r {
            Some(name) => is_latest(meant(entries@, dirs_named("files-"@)), name@),
            None => meant(entries@, dirs_named("files-"@)).len() == 0,
        },
{
    let rule = directories("files-");
    latest(entries, &rule)
}

/// `name` is that of the latest finished snapshot of the source `label`.
pub open spec fn is_latest_of(entries: Seq<Entry>, label: Seq<char>, name: Seq<char>) -> bool {
    &&& snapshot_name(label, name)
    &&& exists|i: int| 0 <= i < entries.len() && (#[trigger] entries[i]).0@ == name
    &&& forall|i: int|
        0 <= i < entries.len() && snapshot_name(label, (#[trigger] entries[i]).0@) ==> !before(
            name,
            entries[i].0@,
        )
}

/// Find the most recent snapshot of the source `label` in the snapshots dir.
pub fn find_latest_snapshot_by_label(entries: &Vec<Entry>, label: &str) -> (r: Option<String>)
    ensures
        match r {
            Some(name) => is_latest_of(entries@, label@, name@),
            None => forall|i: int|
                0 <= i < entries@.len() ==> !snapshot_name(label@, (#[trigger] entries@[i]).0@),
        },
{
    let mut best: Option<usize> = None;
    let mut i: usize = 0;
    while i < entries.len()
        invariant
            i <= entries@.len(),
            match best {
                Some(b) => b < i && snapshot_name(label@, entries@[b as int].0@) && forall|k: int|
                    0 <= k < i && snapshot_name(label@, (#[trigger] entries@[k]).0@) ==> !before(
                        entries@[b as int].0@,
                        entries@[k].0@,
                    ),
                None => forall|k: int|
                    0 <= k < i ==> !snapshot_name(label@, (#[trigger] entries@[k]).0@),
            },
        decreases entries@.len() - i,
    {
        let name = entries[i].0.as_str();
        if is_snapshot_of(label, name) {
            proof {
                lemma_not_before_itself(name@, 0);
            }
            match best {
                Some(b) => {
                    if comes_before(entries[b].0.as_str(), name) {
                        proof {
                            let old_best = entries@[b as int].0@;
                            assert forall|k: int|
                                0 <= k < i + 1 && snapshot_name(
                                    label@,
                                    (#[trigger] entries@[k]).0@,
                                ) implies !before(name@, entries@[k].0@) by {
                                if k < i && before(name@, entries@[k].0@) {
                                    lemma_before_transitive(old_best, name@, entries@[k].0@, 0);
                                }
                            }
                        }
                        best = Some(i);
                    }
                },
                None => {
                    best = Some(i);
                },
            }
        }
        i += 1;
    }
    match best {
        Some(b) => Some(entries[b].0.clone()),
        None => None,
    }
}

/// The SQLite snapshots to remove: all but the newest `MAX_SNAPSHOTS`.
pub fn prune_sqlite_snapshots(entries: &Vec<Entry>) -> (r: Vec<String>)
    ensures
        expired(meant(entries@, main_snapshots()), MAX_SNAPSHOTS as nat, views(r@)),
{
    let rule = sqlite_snapshots();
    prune(entries, &rule, MAX_SNAPSHOTS)
}

/// The snapshot that rows are compared with is one of the entries and a snapshot
/// of the same database, and no such snapshot has a later name.
pub proof fn law_latest_is_of_the_same_database(
    entries: Seq<Entry>,
    label: Seq<char>,
    name: Seq<char>,
    i: int,
)
    requires
        is_latest_of(entries, label, name),
        0 <= i < entries.len(),
    ensures
        snapshot_name(label, name),
        crate::vault::retention::names_of(entries).contains(name),
        snapshot_name(label, entries[i].0@) ==> !before(name, entries[i].0@),
{
    let k = choose|k: int| 0 <= k < entries.len() && (#[trigger] entries[k]).0@ == name;
    assert(crate::vault::retention::names_of(entries)[k] == name);
}

} // verus!
