//! File snapshots: what is copied, and the SHA-256 manifest.

use crate::util::order::{in_order, sort_ascending};
use crate::util::path::{join_path, joined_path};
use crate::util::size::size_text;
use crate::util::text::{decimal, join, joined, same, show, views};
use crate::vault::retention::{directories, dirs_named, expired, meant, prune, Entry};
use crate::vault::sha256::{is_digest, sha256, sha256_hex};
use vstd::prelude::*;

pub use crate::util::size::format_size;

verus! {

/// Maximum number of file snapshot directories to retain.
pub const MAX_SNAPSHOTS: usize = 96;

/// The manifest's own name.
pub const MANIFEST: &'static str = "MANIFEST.sha256";

// ── What is copied ────────────────────────────────────────────────────

/// How something is copied into a snapshot.
#[derive(Debug, Clone, Copy, PartialEq, Eq, Structural)]
pub enum CopyKind {
    /// A file, once it is no longer being written.
    StableFile,
    /// A file.
    File,
    /// A directory tree.
    Tree,
    /// A bundle of a git repository.
    Bundle,
}

/// One thing to copy, where it exists.
pub struct CopyStep {
    pub kind: CopyKind,
    pub source: String,
    pub dest: String,
    /// What it is called in a warning.
    pub what: &'static str,
}

impl CopyStep {
    /// What the step copies, and where to.
    pub open spec fn copies(self, kind: CopyKind, source: Seq<char>, dest: Seq<char>, what: Seq<char>) -> bool {
        self.kind == kind && self.source@ == source && self.dest@ == dest && self.what@ == what
    }
}

/// The snapshot directory for the time `ts`.
pub fn snapshot_dir(vault_dir: &str, ts: &str) -> (r: String)
    ensures
        r@ == joined_path(joined_path(vault_dir@, "snapshots"@), "files-"@ + ts@),
{
    let mut name = "files-".to_owned();
    name.append(ts);
    join_path(join_path(vault_dir, "snapshots").as_str(), name.as_str())
}

/// What is copied into the snapshot directory `snap`, in order.
pub fn copy_plan(openclaw_dir: &str, snap: &str) -> (r: Vec<CopyStep>)
    ensures
        ({
            let ws = joined_path(openclaw_dir@, "workspace"@);
            &&& r@.len() == 5
            &&& r@[0].copies(
                CopyKind::StableFile,
                joined_path(ws, "MEMORY.md"@),
                joined_path(snap@, "MEMORY.md"@),
                "MEMORY.md"@,
            )
            &&& r@[1].copies(
                CopyKind::Tree,
                joined_path(ws, "memory"@),
                joined_path(snap@, "memory"@),
                "memory/"@,
            )
            &&& r@[2].copies(
                CopyKind::File,
                joined_path(openclaw_dir@, "openclaw.json"@),
                joined_path(snap@, "config/openclaw.json"@),
                "openclaw.json"@,
            )
            &&& r@[3].copies(
                CopyKind::File,
                joined_path(openclaw_dir@, "exec-approvals.json"@),
                joined_path(snap@, "config/exec-approvals.json"@),
                "exec-approvals.json"@,
            )
            &&& r@[4].copies(
                CopyKind::Bundle,
                joined_path(ws, ".git"@),
                joined_path(snap@, "workspace.bundle"@),
                "git bundle"@,
            )
        }),
{
    let ws = join_path(openclaw_dir, "workspace");
    vec![
        CopyStep {
            kind: CopyKind::StableFile,
            source: join_path(ws.as_str(), "MEMORY.md"),
            dest: join_path(snap, "MEMORY.md"),
            what: "MEMORY.md",
        },
        CopyStep {
            kind: CopyKind::Tree,
            source: join_path(ws.as_str(), "memory"),
            dest: join_path(snap, "memory"),
            what: "memory/",
        },
        CopyStep {
            kind: CopyKind::File,
            source: join_path(openclaw_dir, "openclaw.json"),
            dest: join_path(snap, "config/openclaw.json"),
            what: "openclaw.json",
        },
        CopyStep {
            kind: CopyKind::File,
            source: join_path(openclaw_dir, "exec-approvals.json"),
            dest: join_path(snap, "config/exec-approvals.json"),
            what: "exec-approvals.json",
        },
        CopyStep {
            kind: CopyKind::Bundle,
            source: join_path(ws.as_str(), ".git"),
            dest: join_path(snap, "workspace.bundle"),
            what: "git bundle",
        },
    ]
}

/// The warning about something that could not be copied.
pub fn copy_warning(what: &str, error: &str) -> (r: String)
    ensures
        r@ == "WARNING: "@ + what@ + " copy failed: "@ + error@,
{
    let mut r = "WARNING: ".to_owned();
    r.append(what);
    r.append(" copy failed: ");
    r.append(error);
    r
}

/// The warning about a bundle: `ran` says whether git could be run at all.
pub fn bundle_warning(ran: bool, error: &str) -> (r: String)
    ensures
        r@ == if ran {
            "WARNING: git bundle failed: "@ + error@
        } else {
            "WARNING: git not found or bundle failed: "@ + error@
        },
{
    let mut r = if ran {
        "WARNING: git bundle failed: ".to_owned()
    } else {
        "WARNING: git not found or bundle failed: ".to_owned()
    };
    r.append(error);
    r
}

/// Whether to wait for a file once more, so as not to copy it half-written: its
/// last change must lie at least 2 seconds back. `attempt` counts from 0, and
/// the tenth is the last; `age` is `None` where it is not known.
pub fn wait_stable(attempt: u32, age: Option<u64>) -> (r: bool)
    ensures
        r == (attempt < 10 && match age {
            Some(secs) => secs < 2,
            None => true,
        }),
{
    attempt < 10 && match age {
        Some(secs) => secs < 2,
        None => true,
    }
}

/// The log message for a snapshot that was taken.
pub fn success_message(snap: &str, files: u64, size: u64) -> (r: String)
    ensures
        r@ == "OK: "@ + snap@ + " ("@ + decimal(files as nat) + " files, "@ + size_text(
            size as nat,
        ) + ")"@,
{
    let mut r = "OK: ".to_owned();
    r.append(snap);
    r.append(" (");
    r.append(show(files).as_str());
    r.append(" files, ");
    r.append(format_size(size).as_str());
    r.append(")");
    r
}

/// The file snapshots to remove: all but the newest `MAX_SNAPSHOTS`.
pub fn prune_file_snapshots(entries: &Vec<Entry>) -> (r: Vec<String>)
    ensures
        expired(meant(entries@, dirs_named("files-"@)), MAX_SNAPSHOTS as nat, views(r@)),
{
    prune(entries, &directories("files-"), MAX_SNAPSHOTS)
}

// ── The pipeline ──────────────────────────────────────────────────────

/// What came of a step of the pipeline.
#[derive(Debug, Clone, Copy, PartialEq, Eq, Structural)]
pub enum Event {
    /// Whether the vault is within its quota.
    Quota(bool),
    /// Whether the directories exist now.
    Dirs(bool),
    /// The copies were made, as far as they could be.
    Copied,
    /// Whether the manifest was written.
    Manifest(bool),
}

/// What to do next.
#[derive(Debug, Clone, Copy, PartialEq, Eq, Structural)]
pub enum Action {
    CheckQuota,
    MakeDirs,
    Copy,
    WriteManifest,
    /// Log the success, and prune.
    Finish,
    /// Log that the snapshot is deferred.
    Skip,
    /// Report the failure.
    Fail,
}

/// What follows from an event.
pub open spec fn step(e: Event) -> Action {
    match e {
        Event::Quota(true) => Action::MakeDirs,
        Event::Quota(false) => Action::Skip,
        Event::Dirs(true) => Action::Copy,
        Event::Copied => Action::WriteManifest,
        Event::Manifest(true) => Action::Finish,
        Event::Dirs(false) | Event::Manifest(false) => Action::Fail,
    }
}

/// What to do after an event of the snapshot pipeline, which begins with the
/// check of the quota. What cannot be copied is only warned of.
pub fn run_files(e: Event) -> (r: Action)
    ensures
        r == step(e),
{
    match e {
        Event::Quota(true) => Action::MakeDirs,
        Event::Quota(false) => Action::Skip,
        Event::Dirs(true) => Action::Copy,
        Event::Copied => Action::WriteManifest,
        Event::Manifest(true) => Action::Finish,
        Event::Dirs(false) | Event::Manifest(false) => Action::Fail,
    }
}

/// The exit code of a snapshot that ended so: 1 on failure, 0 on success, and
/// where it was put off.
pub fn exit_code(a: Action) -> (r: i32)
    ensures
        r == if a is Fail {
            1i32
        } else {
            0i32
        },
{
    match a {
        Action::Fail => 1,
        _ => 0,
    }
}

/// The event can come of the action.
pub open spec fn answers(a: Action, e: Event) -> bool {
    match a {
        Action::CheckQuota => e is Quota,
        Action::MakeDirs => e is Dirs,
        Action::Copy => e is Copied,
        Action::WriteManifest => e is Manifest,
        Action::Finish | Action::Skip | Action::Fail => false,
    }
}

/// The action at `i` was answered by the event at `i`.
pub open spec fn answered(run: Seq<(Action, Event)>, i: int) -> bool {
    answers(run[i].0, run[i].1)
}

/// The action at `i` follows from the event before.
pub open spec fn follows(run: Seq<(Action, Event)>, i: int) -> bool {
    run[i].0 == step(run[i - 1].1)
}

/// A run of the pipeline: each action with what came of it, each following from
/// the event before.
pub open spec fn is_run(run: Seq<(Action, Event)>) -> bool {
    &&& run.len() > 0 ==> run[0].0 == Action::CheckQuota
    &&& forall|i: int| 0 <= i < run.len() ==> #[trigger] answered(run, i)
    &&& forall|i: int| 0 < i < run.len() ==> #[trigger] follows(run, i)
}

/// The place of an action in the pipeline.
pub open spec fn stage(a: Action) -> int {
    match a {
        Action::CheckQuota => 0,
        Action::MakeDirs => 1,
        Action::Copy => 2,
        Action::WriteManifest => 3,
        Action::Finish => 4,
        Action::Skip | Action::Fail => -1,
    }
}

/// The step did what it should. Copying always does: it only warns.
pub open spec fn goes_well(e: Event) -> bool {
    match e {
        Event::Quota(ok) => ok,
        Event::Dirs(ok) => ok,
        Event::Copied => true,
        Event::Manifest(ok) => ok,
    }
}

/// A step that goes well leads to the next one, and no step is passed over. A
/// vault over its quota puts the snapshot off, and nothing else does; any other
/// step that does not go well ends the pipeline in failure.
pub proof fn law_steps_in_order(a: Action, e: Event)
    requires
        answers(a, e),
    ensures
        goes_well(e) ==> stage(step(e)) == stage(a) + 1,
        step(e) == Action::Skip <==> e == Event::Quota(false),
        step(e) == Action::Fail <==> !goes_well(e) && e != Event::Quota(false),
{
}

/// Where every step goes well, the run goes through all of them in order: the
/// action at each place is that of its stage, and the next one follows.
pub proof fn law_good_run_goes_through(run: Seq<(Action, Event)>, n: int)
    requires
        is_run(run),
        0 <= n < run.len(),
        forall|i: int| 0 <= i < run.len() ==> goes_well((#[trigger] run[i]).1),
    ensures
        stage(run[n].0) == n,
        stage(step(run[n].1)) == n + 1,
    decreases n,
{
    assert(answered(run, n));
    assert(goes_well(run[n].1));
    if n > 0 {
        law_good_run_goes_through(run, n - 1);
        assert(follows(run, n));
    }
    law_steps_in_order(run[n].0, run[n].1);
}

// ── The manifest ──────────────────────────────────────────────────────

/// A file of a snapshot: its path below the snapshot, and its content.
pub type SnapshotFile = (String, Vec<u8>);

/// One line of a manifest: `<sha256_hex>  <relative_path>`.
pub open spec fn manifest_line(hash: Seq<char>, path: Seq<char>) -> Seq<char> {
    hash + "  "@ + path
}

/// The digests and paths of the first `n` files, the manifest itself left out.
pub open spec fn digests(files: Seq<SnapshotFile>, n: int) -> Seq<(Seq<char>, Seq<char>)>
    decreases n,
{
    if n <= 0 {
        Seq::empty()
    } else if files[n - 1].0@ == MANIFEST@ {
        digests(files, n - 1)
    } else {
        digests(files, n - 1).push((sha256_hex(files[n - 1].1@), files[n - 1].0@))
    }
}

/// The lines of a manifest, in the order of the files.
pub open spec fn manifest_lines(listed: Seq<(Seq<char>, Seq<char>)>) -> Seq<Seq<char>> {
    Seq::new(listed.len(), |i: int| manifest_line(listed[i].0, listed[i].1))
}

/// The text is a manifest of these digests and paths: their lines in ascending order.
pub open spec fn is_manifest(text: Seq<char>, listed: Seq<(Seq<char>, Seq<char>)>) -> bool {
    exists|sorted: Seq<Seq<char>>|
        in_order(manifest_lines(listed), sorted) && text == #[trigger] joined(sorted, "\n"@)
            + "\n"@
}

/// Every digest has its 64 hexadecimal digits.
pub open spec fn all_digests(listed: Seq<(Seq<char>, Seq<char>)>) -> bool {
    forall|i: int| 0 <= i < listed.len() ==> is_digest((#[trigger] listed[i]).0)
}

/// The text of MANIFEST.sha256 for the files of a snapshot.
///
/// Each line: `<sha256_hex>  <relative_path>`
pub fn generate_manifest(files: &Vec<SnapshotFile>) -> (r: String)
    ensures
        is_manifest(r@, digests(files@, files@.len() as int)),
        all_digests(digests(files@, files@.len() as int)),
{
    let mut ls: Vec<String> = Vec::new();
    let mut i: usize = 0;
    assert(views(ls@) =~= manifest_lines(digests(files@, 0)));
    while i < files.len()
        invariant
            i <= files@.len(),
            views(ls@) == manifest_lines(digests(files@, i as int)),
            all_digests(digests(files@, i as int)),
        decreases files@.len() - i,
    {
        // Skip the manifest itself
        if !same(files[i].0.as_str(), MANIFEST) {
            let ghost before = views(ls@);
            let mut l = sha256(files[i].1.as_slice());
            let ghost hash = l@;
            l.append("  ");
            l.append(files[i].0.as_str());
            ls.push(l);
            proof {
                let listed = digests(files@, i as int);
                let more = digests(files@, i as int + 1);
                assert(more == listed.push((hash, files@[i as int].0@)));
                assert(views(ls@) =~= before.push(l@));
                assert(manifest_lines(more) =~= before.push(l@));
                assert forall|k: int| 0 <= k < more.len() implies is_digest((#[trigger] more[k]).0) by {
                    if k < listed.len() {
                        assert(more[k] == listed[k]);
                    }
                }
            }
        }
        i += 1;
    }
    let sorted = sort_ascending(ls);
    let mut r = join(&sorted, "\n");
    r.append("\n");
    assert(r@ == joined(views(sorted@), "\n"@) + "\n"@);
    r
}

/// Every file of a snapshot is listed with the digest of what it holds, in
/// order, the manifest itself excepted.
pub proof fn law_every_file_is_listed(files: Seq<SnapshotFile>, f: SnapshotFile)
    ensures
        f.0@ != "MANIFEST.sha256"@ ==> digests(files.push(f), files.len() as int + 1) == digests(
            files,
            files.len() as int,
        ).push((sha256_hex(f.1@), f.0@)),
        f.0@ == "MANIFEST.sha256"@ ==> digests(files.push(f), files.len() as int + 1) == digests(
            files,
            files.len() as int,
        ),
{
    lemma_digests_in_longer(files, f, files.len() as int);
}

/// What follows does not change what is listed before.
proof fn lemma_digests_in_longer(files: Seq<SnapshotFile>, f: SnapshotFile, n: int)
    requires
        0 <= n <= files.len(),
    ensures
        digests(files.push(f), n) == digests(files, n),
    decreases n,
{
    if n > 0 {
        lemma_digests_in_longer(files, f, n - 1);
        assert(files.push(f)[n - 1] == files[n - 1]);
    }
}

/// A step copies one thing to one place.
pub proof fn law_step_copies_one_thing(
    s: CopyStep,
    kind: CopyKind,
    source: Seq<char>,
    dest: Seq<char>,
    what: Seq<char>,
)
    ensures
        s.copies(s.kind, s.source@, s.dest@, s.what@),
        s.copies(kind, source, dest, what) ==> kind == s.kind && source == s.source@ && dest
            == s.dest@ && what == s.what@,
{
}

} // verus!
