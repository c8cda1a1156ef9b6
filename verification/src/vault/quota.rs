//! Vault disk quota check with emergency pruning.

use crate::util::text::{decimal, show, views};
use crate::vault::retention::{expired, meant, prune, Entry, EntryKind, Rule, RuleView};
use vstd::prelude::*;

verus! {

/// What is logged when the vault is found over its limit.
pub open spec fn warning(current_mb: nat, max_mb: nat) -> Seq<char> {
    "WARNING: Vault at "@ + decimal(current_mb) + "MB / "@ + decimal(max_mb)
        + "MB -- attempting emergency prune"@
}

/// Check vault disk quota. `None` if under limit (OK to proceed); else the
/// message to log before the emergency prune, after which `recheck` decides.
pub fn check(current_mb: u64, max_mb: u64) -> (r: Option<String>)
    ensures
        r is None <==> current_mb <= max_mb,
        r matches Some(m) ==> m@ == warning(current_mb as nat, max_mb as nat),
{
    if current_mb <= max_mb {
        return None;
    }
    let mut m = "WARNING: Vault at ".to_owned();
    m.append(show(current_mb).as_str());
    m.append("MB / ");
    m.append(show(max_mb).as_str());
    m.append("MB -- attempting emergency prune");
    Some(m)
}

/// What is logged after the emergency prune.
pub open spec fn verdict(after_mb: nat, max_mb: nat) -> Seq<char> {
    if after_mb <= max_mb {
        "OK: Emergency prune freed space, now "@ + decimal(after_mb) + "MB / "@ + decimal(max_mb)
            + "MB"@
    } else {
        "FAIL: Vault still at "@ + decimal(after_mb) + "MB after emergency prune (limit: "@
            + decimal(max_mb) + "MB)"@
    }
}

/// Check again after the emergency prune: whether it is OK to proceed, and the
/// message to log.
pub fn recheck(after_mb: u64, max_mb: u64) -> (r: (bool, String))
    ensures
        r.0 == (after_mb <= max_mb),
        r.1@ == verdict(after_mb as nat, max_mb as nat),
{
    if after_mb <= max_mb {
        let mut m = "OK: Emergency prune freed space, now ".to_owned();
        m.append(show(after_mb).as_str());
        m.append("MB / ");
        m.append(show(max_mb).as_str());
        m.append("MB");
        (true, m)
    } else {
        let mut m = "FAIL: Vault still at ".to_owned();
        m.append(show(after_mb).as_str());
        m.append("MB after emergency prune (limit: ");
        m.append(show(max_mb).as_str());
        m.append("MB)");
        (false, m)
    }
}

/// The kind of entry that is pruned.
pub open spec fn pruned_kind(is_dir: bool) -> EntryKind {
    if is_dir {
        EntryKind::Dir
    } else {
        EntryKind::File
    }
}

/// Of the entries matching `prefix`, sorted by name descending, the names of
/// all beyond `keep`: those to be removed. Directories are meant where `is_dir`
/// says so, else files.
pub fn prune_sorted_entries(
    entries: &Vec<Entry>,
    prefix: &'static str,
    keep: usize,
    is_dir: bool,
) -> (r: Vec<String>)
    ensures
        expired(
            meant(
                entries@,
                (RuleView {
                    prefix: prefix@,
                    suffix: Seq::empty(),
                    kind: Some(pruned_kind(is_dir)),
                }),
            ),
            keep as nat,
            views(r@),
        ),
{
    proof {
        reveal_strlit("");
        assert(""@ =~= Seq::<char>::empty());
    }
    let kind = if is_dir {
        EntryKind::Dir
    } else {
        EntryKind::File
    };
    let rule = Rule { prefix, suffix: "", kind: Some(kind) };
    prune(entries, &rule, keep)
}

/// Total size in MiB.
pub fn dir_size_mb(bytes: u64) -> (r: u64)
    ensures
        r == bytes / 1048576,
{
    bytes / 1048576
}

/// One step of the emergency prune: the entries of a directory of the vault
/// that begin with `prefix` are reduced to `keep`.
pub struct Reduction {
    pub subdir: &'static str,
    pub prefix: &'static str,
    pub keep: usize,
    pub is_dir: bool,
}

impl Reduction {
    /// What the step reduces, and to how many.
    pub open spec fn reduces(self, subdir: Seq<char>, prefix: Seq<char>, keep: nat, is_dir: bool) -> bool {
        &&& self.subdir@ == subdir
        &&& self.prefix@ == prefix
        &&& self.keep == keep
        &&& self.is_dir == is_dir
    }
}

/// The emergency prune: snapshots, postmortems and LKGs with reduced retention.
pub fn emergency_prune() -> (r: Vec<Reduction>)
    ensures
        r@.len() == 4,
        // Snapshots: keep 48 SQLite files
        r@[0].reduces("snapshots"@, "main-"@, 48, false),
        // Snapshots: keep 48 file snapshot dirs
        r@[1].reduces("snapshots"@, "files-"@, 48, true),
        // Postmortems: keep 10
        r@[2].reduces("postmortem"@, Seq::empty(), 10, true),
        // LKGs: keep 5
        r@[3].reduces("lkg"@, "lkg-"@, 5, true),
{
    proof {
        reveal_strlit("");
        assert(""@ =~= Seq::<char>::empty());
    }
    vec![
        Reduction { subdir: "snapshots", prefix: "main-", keep: 48, is_dir: false },
        Reduction { subdir: "snapshots", prefix: "files-", keep: 48, is_dir: true },
        Reduction { subdir: "postmortem", prefix: "", keep: 10, is_dir: true },
        Reduction { subdir: "lkg", prefix: "lkg-", keep: 5, is_dir: true },
    ]
}

/// After an emergency prune the log tells success from failure.
pub proof fn law_log_tells_success(after_mb: nat, max_mb: nat)
    ensures
        verdict(after_mb, max_mb)[0] == 'O' <==> after_mb <= max_mb,
        verdict(after_mb, max_mb)[0] == 'F' <==> after_mb > max_mb,
{
    reveal_strlit("OK: Emergency prune freed space, now ");
    reveal_strlit("FAIL: Vault still at ");
}

/// Directories are pruned where directories are meant, and files otherwise.
pub proof fn law_kinds_are_not_confused(is_dir: bool)
    ensures
        pruned_kind(is_dir) == EntryKind::Dir <==> is_dir,
        pruned_kind(is_dir) == EntryKind::File <==> !is_dir,
{
}

/// A reduction is of one kind of entry, in one directory, to one number.
pub proof fn law_reduction_is_of_one_kind(
    r: Reduction,
    subdir: Seq<char>,
    prefix: Seq<char>,
    keep: nat,
    is_dir: bool,
)
    requires
        r.reduces(subdir, prefix, keep, is_dir),
    ensures
        r.subdir@ == subdir,
        r.prefix@ == prefix,
        r.keep == keep,
        r.is_dir == is_dir,
{
}

} // verus!
