//! Cloud backup sync — push snapshots and LKG to encrypted cloud storage.

use crate::cloud::RCLONE_CONFIG_PATH;
use crate::platform::command::{owned, strs};
use crate::util::text::{decimal, show, show_signed, signed_decimal, views};
use crate::vault::retention::{Entry, EntryKind};
use vstd::prelude::*;

verus! {

/// Why nothing is synced: the exit code, the log message, and the alert, if any.
pub struct Refusal {
    pub code: i32,
    pub message: String,
    pub alert: Option<&'static str>,
}

impl Refusal {
    /// What the refusal says.
    pub open spec fn says(self, code: i32, message: Seq<char>, alert: Option<Seq<char>>) -> bool {
        &&& self.code == code
        &&& self.message@ == message
        &&& match self.alert {
            Some(a) => alert == Some(a@),
            None => alert is None,
        }
    }
}

/// Why nothing is synced; `None` where the sync can begin. `calm` says whether
/// the I/O pressure allows it.
pub fn run(enabled: bool, rclone: bool, config: bool, calm: bool) -> (r: Option<Refusal>)
    ensures
        match r {
            None => enabled && rclone && config && calm,
            Some(f) => if !enabled {
                f.says(0, "SKIP: Cloud sync disabled (CLOUD_ENABLED!=true)"@, None)
            } else if !rclone {
                f.says(
                    1,
                    "ERROR: rclone not found"@,
                    Some("Cloud sync failed: rclone not installed"@),
                )
            } else if !config {
                f.says(
                    1,
                    "ERROR: rclone config not found at "@ + RCLONE_CONFIG_PATH@,
                    Some("Cloud sync failed: rclone not configured (run cloud setup)"@),
                )
            } else {
                !calm && f.says(0, "SKIP: I/O pressure too high, cloud sync deferred"@, None)
            },
        },
{
    if !enabled {
        Some(
            Refusal {
                code: 0,
                message: "SKIP: Cloud sync disabled (CLOUD_ENABLED!=true)".to_owned(),
                alert: None,
            },
        )
    } else if !rclone {
        Some(
            Refusal {
                code: 1,
                message: "ERROR: rclone not found".to_owned(),
                alert: Some("Cloud sync failed: rclone not installed"),
            },
        )
    } else if !config {
        let mut m = "ERROR: rclone config not found at ".to_owned();
        m.append(RCLONE_CONFIG_PATH);
        Some(
            Refusal {
                code: 1,
                message: m,
                alert: Some("Cloud sync failed: rclone not configured (run cloud setup)"),
            },
        )
    } else if !calm {
        Some(
            Refusal {
                code: 0,
                message: "SKIP: I/O pressure too high, cloud sync deferred".to_owned(),
                alert: None,
            },
        )
    } else {
        None
    }
}

/// The flags of every sync.
pub open spec fn base_flags() -> Seq<Seq<char>> {
    seq![
        "--config"@,
        RCLONE_CONFIG_PATH@,
        "--retries"@,
        "3"@,
        "--low-level-retries"@,
        "5"@,
        "--timeout"@,
        "60s"@,
        "--contimeout"@,
        "30s"@,
        "--log-level"@,
        "WARNING"@,
        "--stats"@,
        "0"@,
    ]
}

/// The flags of a sync: with a limit where the bandwidth (in KiB/s) is limited.
pub open spec fn sync_flags(bandwidth: u64) -> Seq<Seq<char>> {
    if bandwidth > 0 {
        base_flags() + seq!["--bwlimit"@, decimal(bandwidth as nat) + "k"@]
    } else {
        base_flags()
    }
}

/// The flags of a sync.
pub fn flags(bandwidth: u64) -> (r: Vec<String>)
    ensures
        views(r@) == sync_flags(bandwidth),
{
    let v = vec![
        "--config",
        RCLONE_CONFIG_PATH,
        "--retries",
        "3",
        "--low-level-retries",
        "5",
        "--timeout",
        "60s",
        "--contimeout",
        "30s",
        "--log-level",
        "WARNING",
        "--stats",
        "0",
    ];
    assert(strs(v@) =~= base_flags());
    let mut r = owned(v);
    if bandwidth > 0 {
        let ghost before = views(r@);
        let mut limit = show(bandwidth);
        limit.append("k");
        r.push("--bwlimit".to_owned());
        r.push(limit);
        assert(views(r@) =~= before + seq!["--bwlimit"@, decimal(bandwidth as nat) + "k"@]);
    }
    r
}

/// The arguments of the sync of a directory to `remote:<what>/`.
pub open spec fn sync_args(dir: Seq<char>, remote: Seq<char>, what: Seq<char>, bandwidth: u64) -> Seq<Seq<char>> {
    seq!["sync"@, dir, remote + ":"@ + what + "/"@] + sync_flags(bandwidth)
}

/// The arguments of the rclone sync of a directory.
pub fn sync_command(dir: &str, remote: &str, what: &str, bandwidth: u64) -> (r: Vec<String>)
    ensures
        views(r@) == sync_args(dir@, remote@, what@, bandwidth),
{
    let mut dest = remote.to_owned();
    dest.append(":");
    dest.append(what);
    dest.append("/");
    let mut r = vec!["sync".to_owned(), dir.to_owned(), dest];
    let ghost head = views(r@);
    assert(head =~= seq!["sync"@, dir@, remote@ + ":"@ + what@ + "/"@]);
    let mut f = flags(bandwidth);
    let ghost tail = views(f@);
    r.append(&mut f);
    assert(views(r@) =~= head + tail);
    r
}

/// How many of the first `n` entries are of this kind.
pub open spec fn kind_count(entries: Seq<Entry>, kind: EntryKind, n: int) -> nat
    decreases n,
{
    if n <= 0 {
        0
    } else if entries[n - 1].1 == kind {
        kind_count(entries, kind, n - 1) + 1
    } else {
        kind_count(entries, kind, n - 1)
    }
}

/// Count entries of a directory. If `dirs_only`, count only subdirectories;
/// otherwise count only files.
pub fn count_entries(entries: &Vec<Entry>, dirs_only: bool) -> (r: usize)
    ensures
        r == kind_count(
            entries@,
            if dirs_only {
                EntryKind::Dir
            } else {
                EntryKind::File
            },
            entries@.len() as int,
        ),
{
    let kind = if dirs_only {
        EntryKind::Dir
    } else {
        EntryKind::File
    };
    let mut count: usize = 0;
    let mut i: usize = 0;
    while i < entries.len()
        invariant
            i <= entries@.len(),
            count <= i,
            count == kind_count(entries@, kind, i as int),
        decreases entries@.len() - i,
    {
        if entries[i].1 == kind {
            count += 1;
        }
        i += 1;
    }
    count
}

/// What is synced.
#[derive(Debug, Clone, Copy, PartialEq, Eq, Structural)]
pub enum Part {
    Snapshots,
    Lkg,
}

impl Part {
    /// The name of the directory, in the vault and in the cloud.
    pub open spec fn name(self) -> Seq<char> {
        match self {
            Part::Snapshots => "snapshots"@,
            Part::Lkg => "lkg"@,
        }
    }

    /// The name of the directory, in the vault and in the cloud.
    pub fn dir(&self) -> (r: &'static str)
        ensures
            r@ == self.name(),
    {
        match self {
            Part::Snapshots => "snapshots",
            Part::Lkg => "lkg",
        }
    }

    /// What is logged before the sync of `count` entries; with none there is
    /// nothing to sync.
    pub fn announce(&self, count: usize) -> (r: (bool, String))
        ensures
            r.0 == (count > 0),
            r.1@ == match *self {
                Part::Snapshots => if count > 0 {
                    "Syncing "@ + decimal(count as nat) + " snapshot files..."@
                } else {
                    "SKIP: no snapshots to sync"@
                },
                Part::Lkg => if count > 0 {
                    "Syncing "@ + decimal(count as nat) + " LKG states..."@
                } else {
                    "SKIP: no LKG states to sync"@
                },
            },
    {
        if count == 0 {
            return match self {
                Part::Snapshots => (false, "SKIP: no snapshots to sync".to_owned()),
                Part::Lkg => (false, "SKIP: no LKG states to sync".to_owned()),
            };
        }
        let mut m = "Syncing ".to_owned();
        m.append(show(count as u64).as_str());
        match self {
            Part::Snapshots => m.append(" snapshot files..."),
            Part::Lkg => m.append(" LKG states..."),
        }
        (true, m)
    }

    /// What is logged after a sync.
    pub open spec fn outcome(self, result: SyncResult, count: nat) -> Seq<char> {
        match result {
            SyncResult::Done => match self {
                Part::Snapshots => "OK: snapshots synced ("@ + decimal(count) + " files)"@,
                Part::Lkg => "OK: lkg synced ("@ + decimal(count) + " states)"@,
            },
            SyncResult::Failed(code) => "ERROR: "@ + self.name() + " sync failed (rc="@
                + signed_decimal(
                match code {
                    Some(c) => c as int,
                    None => -1,
                },
            ) + ")"@,
            SyncResult::NotRun(e) => "ERROR: "@ + self.name() + " sync failed: "@ + e@,
        }
    }

    /// Whether a sync failed, and what is logged after it.
    pub fn report(&self, result: &SyncResult, count: usize) -> (r: (bool, String))
        ensures
            r.0 == !(result is Done),
            r.1@ == self.outcome(*result, count as nat),
    {
        match result {
            SyncResult::Done => match self {
                Part::Snapshots => {
                    let mut m = "OK: snapshots synced (".to_owned();
                    m.append(show(count as u64).as_str());
                    m.append(" files)");
                    (false, m)
                },
                Part::Lkg => {
                    let mut m = "OK: lkg synced (".to_owned();
                    m.append(show(count as u64).as_str());
                    m.append(" states)");
                    (false, m)
                },
            },
            SyncResult::Failed(code) => {
                let c: i64 = match code {
                    Some(c) => *c as i64,
                    None => -1,
                };
                let mut m = "ERROR: ".to_owned();
                m.append(self.dir());
                m.append(" sync failed (rc=");
                m.append(show_signed(c).as_str());
                m.append(")");
                (true, m)
            },
            SyncResult::NotRun(e) => {
                let mut m = "ERROR: ".to_owned();
                m.append(self.dir());
                m.append(" sync failed: ");
                m.append(e.as_str());
                (true, m)
            },
        }
    }
}

/// What came of a sync.
pub enum SyncResult {
    Done,
    /// Rclone failed with this exit code.
    Failed(Option<i32>),
    /// Rclone could not be run, for this reason.
    NotRun(String),
}

/// The exit code, the log message and the alert after all syncs.
pub open spec fn closing(errors: nat) -> (int, Seq<char>, Option<Seq<char>>) {
    if errors > 0 {
        (
            1,
            "DONE: Cloud sync completed with "@ + decimal(errors) + " error(s)"@,
            Some("Cloud sync completed with "@ + decimal(errors) + " error(s)"@),
        )
    } else {
        (0, "DONE: Cloud sync successful"@, None)
    }
}

/// The exit code, the log message and the alert after all syncs.
pub fn finish(errors: u32) -> (r: (i32, String, Option<String>))
    ensures
        (
            r.0 as int,
            r.1@,
            match r.2 {
                Some(a) => Some(a@),
                None => None,
            },
        ) == closing(errors as nat),
{
    if errors > 0 {
        let n = show(errors as u64);
        let mut m = "DONE: Cloud sync completed with ".to_owned();
        m.append(n.as_str());
        m.append(" error(s)");
        let mut a = "Cloud sync completed with ".to_owned();
        a.append(n.as_str());
        a.append(" error(s)");
        (1, m, Some(a))
    } else {
        (0, "DONE: Cloud sync successful".to_owned(), None)
    }
}

/// The sync succeeds exactly where nothing failed, and raises an alert exactly
/// where it does not.
pub proof fn law_errors_fail_the_sync(errors: nat)
    ensures
        closing(errors).0 == 0 <==> errors == 0,
        closing(errors).0 == 1 <==> errors > 0,
        closing(errors).2 is Some <==> errors > 0,
{
}

/// The log tells a sync that was done from one that was not, and which part
/// it was.
pub proof fn law_log_tells_what_was_synced(part: Part, result: SyncResult, count: nat)
    ensures
        part.outcome(result, count)[0] == 'O' <==> result is Done,
        part.outcome(result, count)[0] == 'E' <==> !(result is Done),
        !(result is Done) ==> part.outcome(result, count).skip(7).take(part.name().len() as int)
            == part.name(),
        part == Part::Snapshots <==> part.name() == "snapshots"@,
        part == Part::Lkg <==> part.name() == "lkg"@,
{
    reveal_strlit("OK: snapshots synced (");
    reveal_strlit("OK: lkg synced (");
    reveal_strlit("ERROR: ");
    reveal_strlit("snapshots");
    reveal_strlit("lkg");
    assert("snapshots"@.len() == 9 && "lkg"@.len() == 3);
    if !(result is Done) {
        assert(part.outcome(result, count).skip(7).take(part.name().len() as int) =~= part.name());
    }
}

/// The bandwidth is limited exactly where a limit is set, to that limit, and
/// nothing else depends on it. The source is the directory, the destination the
/// part in the remote.
pub proof fn law_limit_is_passed_on(dir: Seq<char>, remote: Seq<char>, what: Seq<char>, bandwidth: u64)
    ensures
        ({
            let free = sync_args(dir, remote, what, 0);
            let a = sync_args(dir, remote, what, bandwidth);
            &&& free[0] == "sync"@ && free[1] == dir && free[2] == remote + ":"@ + what + "/"@
            &&& bandwidth > 0 ==> a == free + seq!["--bwlimit"@, decimal(bandwidth as nat) + "k"@]
        }),
{
    let free = sync_args(dir, remote, what, 0);
    if bandwidth > 0 {
        assert(sync_args(dir, remote, what, bandwidth) =~= free + seq![
            "--bwlimit"@,
            decimal(bandwidth as nat) + "k"@,
        ]);
    }
}

/// An entry counts where it is of the kind that is counted, and only there.
pub proof fn law_entries_count_by_kind(entries: Seq<Entry>, e: Entry, kind: EntryKind)
    ensures
        kind_count(entries.push(e), kind, entries.len() as int + 1) - kind_count(
            entries,
            kind,
            entries.len() as int,
        ) == if e.1 == kind {
            1int
        } else {
            0
        },
{
    lemma_kind_count_in_longer(entries, e, kind, entries.len() as int);
}

/// What follows does not change how many there are before.
proof fn lemma_kind_count_in_longer(entries: Seq<Entry>, e: Entry, kind: EntryKind, n: int)
    requires
        0 <= n <= entries.len(),
    ensures
        kind_count(entries.push(e), kind, n) == kind_count(entries, kind, n),
    decreases n,
{
    if n > 0 {
        lemma_kind_count_in_longer(entries, e, kind, n - 1);
        assert(entries.push(e)[n - 1] == entries[n - 1]);
    }
}

/// A refusal has one code, one message and at most one alert.
pub proof fn law_refusal_says_one_thing(
    f: Refusal,
    code: i32,
    message: Seq<char>,
    alert: Option<Seq<char>>,
)
    requires
        f.says(code, message, alert),
    ensures
        f.code == code,
        f.message@ == message,
        f.alert is Some <==> alert is Some,
        f.alert is Some ==> alert == Some((f.alert->0)@),
{
}

} // verus!
