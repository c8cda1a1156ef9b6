//! Cloud backup restore — list, download and verify backups.

use crate::cli::CloudRestoreArgs;
use crate::platform::command::{command, line, strs, CommandLine};
use crate::util::size::{one_decimal, show_one_decimal};
use crate::util::text::{
    after_prefix, align, aligned, begins, cut, decimal, ends, ends_in, lines, lines_of, number, parse_or,
    same, show, split_once, starts, strip_prefix, terminate, terminated, trim, trim_start, trim_white,
    trimmed_start, views, words, words_of, Class,
};
use crate::vault::retention::{names_of, Entry};
use vstd::prelude::*;

verus! {

/// What to do.
pub enum Choice {
    ShowHint,
    List,
    RestoreLkg(String),
    RestoreSnapshot(String),
    /// No flags specified.
    Usage,
}

/// What to do, by the flags: the hint comes first, then the list, then an LKG,
/// then a snapshot.
pub fn run(args: &CloudRestoreArgs) -> (r: Choice)
    ensures
        if args.show_hint {
            r is ShowHint
        } else if args.list {
            r is List
        } else {
            match (args.restore_lkg, args.restore_snapshot) {
                (Some(n), _) => r matches Choice::RestoreLkg(m) && m@ == n@,
                (None, Some(n)) => r matches Choice::RestoreSnapshot(m) && m@ == n@,
                (None, None) => r is Usage,
            }
        },
{
    if args.show_hint {
        return Choice::ShowHint;
    }
    if args.list {
        return Choice::List;
    }
    if let Some(name) = &args.restore_lkg {
        return Choice::RestoreLkg(name.clone());
    }
    if let Some(name) = &args.restore_snapshot {
        return Choice::RestoreSnapshot(name.clone());
    }
    Choice::Usage
}

/// Why a restore cannot even begin; `None` where it can.
pub fn preflight(root: bool, rclone: bool, config: bool) -> (r: Option<&'static str>)
    ensures
        match r {
            Some(e) => if !root {
                e@ == "ERROR: Must run as root (sudo outerclaw cloud restore ...)"@
            } else if !rclone {
                e@ == "ERROR: rclone not found -- install it first"@
            } else {
                !config && e@
                    == "ERROR: rclone config not found -- run 'outerclaw cloud setup' first"@
            },
            None => root && rclone && config,
        },
{
    if !root {
        Some("ERROR: Must run as root (sudo outerclaw cloud restore ...)")
    } else if !rclone {
        Some("ERROR: rclone not found -- install it first")
    } else if !config {
        Some("ERROR: rclone config not found -- run 'outerclaw cloud setup' first")
    } else {
        None
    }
}

// ── Sizes ─────────────────────────────────────────────────────────────

/// A size with the unit that fits it: B, or KB and MB with one decimal.
pub open spec fn listed_size(bytes: nat) -> Seq<char> {
    if bytes >= 1_048_576 {
        one_decimal(bytes, 1_048_576) + " MB"@
    } else if bytes >= 1024 {
        one_decimal(bytes, 1024) + " KB"@
    } else {
        decimal(bytes) + " B"@
    }
}

/// Format a byte size for human-readable display.
pub fn format_size(bytes: u64) -> (r: String)
    ensures
        r@ == listed_size(bytes as nat),
{
    if bytes >= 1_048_576 {
        let mut r = show_one_decimal(bytes, 1_048_576);
        r.append(" MB");
        r
    } else if bytes >= 1024 {
        let mut r = show_one_decimal(bytes, 1024);
        r.append(" KB");
        r
    } else {
        let mut r = show(bytes);
        r.append(" B");
        r
    }
}

// ── The list ──────────────────────────────────────────────────────────

/// The names in the first `n` lines of `rclone lsd`: the last word of each.
pub open spec fn lkg_lines(ls: Seq<Seq<char>>, n: int) -> Seq<Seq<char>>
    decreases n,
{
    if n <= 0 {
        Seq::empty()
    } else if words(ls[n - 1]).len() > 0 {
        lkg_lines(ls, n - 1).push("  "@ + words(ls[n - 1]).last())
    } else {
        lkg_lines(ls, n - 1)
    }
}

/// The LKG states in the cloud, given the output of `rclone lsd`.
pub open spec fn lkg_list(output: Option<&str>) -> Seq<Seq<char>> {
    match output {
        Some(o) => if trim_white(o@).len() == 0 {
            seq!["  (none)"@]
        } else {
            lkg_lines(lines(o@), lines(o@).len() as int)
        },
        None => seq!["  (none or not accessible)"@],
    }
}

/// The LKG states in the cloud, given the output of `rclone lsd`; `None` where
/// it failed.
pub fn list_lkgs(output: Option<&str>) -> (r: Vec<String>)
    ensures
        views(r@) == lkg_list(output),
{
    let o = match output {
        Some(o) => o,
        None => {
            let r = vec!["  (none or not accessible)".to_owned()];
            assert(views(r@) =~= seq!["  (none or not accessible)"@]);
            return r;
        },
    };
    if trim(o).is_empty() {
        let r = vec!["  (none)".to_owned()];
        assert(views(r@) =~= seq!["  (none)"@]);
        return r;
    }
    let ls = lines_of(o);
    let mut r: Vec<String> = Vec::new();
    assert(views(r@) =~= Seq::<Seq<char>>::empty());
    let mut i: usize = 0;
    while i < ls.len()
        invariant
            views(ls@) == lines(o@),
            i <= ls@.len(),
            views(r@) == lkg_lines(lines(o@), i as int),
        decreases ls@.len() - i,
    {
        assert(views(ls@)[i as int] == ls@[i as int]@);
        let ws = words_of(ls[i].as_str());
        assert(views(ws@).len() == ws@.len());
        if ws.len() > 0 {
            assert(views(ws@).last() == ws@[ws@.len() - 1]@);
            let ghost before = views(r@);
            let mut l = "  ".to_owned();
            l.append(ws[ws.len() - 1].as_str());
            r.push(l);
            assert(views(r@) =~= before.push(l@));
        }
        i += 1;
    }
    r
}

/// What a line of `rclone ls` shows: size and name.
pub open spec fn snapshot_line(t: Seq<char>) -> Seq<char> {
    match cut(t, Class::White) {
        Some((size, name)) => "  "@ + aligned(
            listed_size(number(size, u64::MAX as nat).unwrap_or(0)),
            10,
        ) + "  "@ + trim_white(name),
        None => "  "@ + t,
    }
}

/// What the first `n` lines of `rclone ls` show; empty lines show nothing.
pub open spec fn snapshot_lines(ls: Seq<Seq<char>>, n: int) -> Seq<Seq<char>>
    decreases n,
{
    if n <= 0 {
        Seq::empty()
    } else if trim_white(ls[n - 1]).len() > 0 {
        snapshot_lines(ls, n - 1).push(snapshot_line(trim_white(ls[n - 1])))
    } else {
        snapshot_lines(ls, n - 1)
    }
}

/// The snapshots in the cloud, given the output of `rclone ls`.
pub open spec fn snapshot_list(output: Option<&str>) -> Seq<Seq<char>> {
    match output {
        Some(o) => if trim_white(o@).len() == 0 {
            seq!["  (none)"@]
        } else {
            snapshot_lines(lines(o@), lines(o@).len() as int)
        },
        None => seq!["  (none or not accessible)"@],
    }
}

/// The snapshots in the cloud, given the output of `rclone ls`; `None` where it
/// failed.
pub fn list_snapshots(output: Option<&str>) -> (r: Vec<String>)
    ensures
        views(r@) == snapshot_list(output),
{
    let o = match output {
        Some(o) => o,
        None => {
            let r = vec!["  (none or not accessible)".to_owned()];
            assert(views(r@) =~= seq!["  (none or not accessible)"@]);
            return r;
        },
    };
    if trim(o).is_empty() {
        let r = vec!["  (none)".to_owned()];
        assert(views(r@) =~= seq!["  (none)"@]);
        return r;
    }
    let ls = lines_of(o);
    let mut r: Vec<String> = Vec::new();
    assert(views(r@) =~= Seq::<Seq<char>>::empty());
    let mut i: usize = 0;
    while i < ls.len()
        invariant
            views(ls@) == lines(o@),
            i <= ls@.len(),
            views(r@) == snapshot_lines(lines(o@), i as int),
        decreases ls@.len() - i,
    {
        assert(views(ls@)[i as int] == ls@[i as int]@);
        let t = trim(ls[i].as_str());
        if !t.is_empty() {
            let ghost before = views(r@);
            let mut l = "  ".to_owned();
            match split_once(t, Class::White) {
                Some((size, name)) => {
                    let formatted = format_size(parse_or(size, u64::MAX, 0));
                    l.append(align(formatted.as_str(), 10).as_str());
                    l.append("  ");
                    l.append(trim(name));
                },
                None => l.append(t),
            }
            r.push(l);
            assert(views(r@) =~= before.push(l@));
        }
        i += 1;
    }
    r
}

/// The list of cloud backups, given the outputs of `rclone lsd` and `rclone ls`.
pub fn list_cloud(lkgs: Option<&str>, snapshots: Option<&str>) -> (r: String)
    ensures
        r@ == "\n=== Cloud LKG States ===\n"@ + terminated(lkg_list(lkgs))
            + "\n=== Cloud Snapshots ===\n"@ + terminated(snapshot_list(snapshots)) + "\n"@,
{
    let mut r = "\n=== Cloud LKG States ===\n".to_owned();
    r.append(terminate(&list_lkgs(lkgs)).as_str());
    r.append("\n=== Cloud Snapshots ===\n");
    r.append(terminate(&list_snapshots(snapshots)).as_str());
    r.append("\n");
    r
}

// ── Remotes ───────────────────────────────────────────────────────────

/// The value behind `remote` in a line of a section.
pub open spec fn remote_value(t: Seq<char>) -> Option<Seq<char>> {
    match after_prefix(t, "remote"@) {
        Some(rest) => {
            let v = trim_white(trimmed_start(rest, Class::Either(' ', '=')));
            if v.len() > 0 {
                Some(v)
            } else {
                None
            }
        },
        None => None,
    }
}

/// The first remote named in the section `[name]`, in the lines from `i` on;
/// `inside` says whether line `i` belongs to that section.
pub open spec fn remote_from(ls: Seq<Seq<char>>, header: Seq<char>, i: int, inside: bool) -> Option<Seq<char>>
    decreases ls.len() - i,
{
    if i < 0 || i >= ls.len() {
        None
    } else {
        let t = trim_white(ls[i]);
        if t == header {
            remote_from(ls, header, i + 1, true)
        } else if !inside {
            remote_from(ls, header, i + 1, false)
        } else if begins(t, "["@) && ends(t, "]"@) {
            None
        } else {
            match remote_value(t) {
                Some(v) => Some(v),
                None => remote_from(ls, header, i + 1, true),
            }
        }
    }
}

/// The base remote of the crypt remote `name`.
pub open spec fn base_remote(content: Seq<char>, name: Seq<char>) -> Option<Seq<char>> {
    remote_from(lines(content), "["@ + name + "]"@, 0, false)
}

/// Resolve the base remote path from the crypt remote's config: the
/// `remote = ...` line in the crypt remote's section of the rclone config.
pub fn resolve_base_remote(content: &str, crypt_remote: &str) -> (r: Option<String>)
    ensures
        match r {
            Some(v) => base_remote(content@, crypt_remote@) == Some(v@),
            None => base_remote(content@, crypt_remote@) is None,
        },
{
    let mut header = "[".to_owned();
    header.append(crypt_remote);
    header.append("]");
    let ls = lines_of(content);
    let mut inside = false;
    let mut i: usize = 0;
    while i < ls.len()
        invariant
            views(ls@) == lines(content@),
            header@ == "["@ + crypt_remote@ + "]"@,
            i <= ls@.len(),
            base_remote(content@, crypt_remote@) == remote_from(
                lines(content@),
                header@,
                i as int,
                inside,
            ),
        decreases ls@.len() - i,
    {
        assert(views(ls@)[i as int] == ls@[i as int]@);
        let t = trim(ls[i].as_str());
        if same(t, header.as_str()) {
            inside = true;
        } else if inside {
            // New section starts
            if starts(t, "[") && ends_in(t, "]") {
                return None;
            }
            if let Some(rest) = strip_prefix(t, "remote") {
                let v = trim(trim_start(rest, Class::Either(' ', '=')));
                if !v.is_empty() {
                    return Some(v.to_owned());
                }
            }
        }
        i += 1;
    }
    None
}

// ── Downloads ─────────────────────────────────────────────────────────

/// The command that lists the LKG states or the snapshots of a remote.
pub fn list_command(lkgs: bool, remote: &str, config: &str) -> (r: CommandLine)
    ensures
        r@ == line(
            "rclone"@,
            if lkgs {
                seq!["lsd"@, remote@ + ":lkg/"@, "--config"@, config@]
            } else {
                seq!["ls"@, remote@ + ":snapshots/"@, "--config"@, config@]
            },
        ),
{
    let mut path = remote.to_owned();
    if lkgs {
        path.append(":lkg/");
        let args = vec!["lsd", path.as_str(), "--config", config];
        assert(strs(args@) =~= seq!["lsd"@, remote@ + ":lkg/"@, "--config"@, config@]);
        command("rclone", args)
    } else {
        path.append(":snapshots/");
        let args = vec!["ls", path.as_str(), "--config", config];
        assert(strs(args@) =~= seq!["ls"@, remote@ + ":snapshots/"@, "--config"@, config@]);
        command("rclone", args)
    }
}

/// The command that prints the recovery hint.
pub fn hint_command(base: &str, config: &str) -> (r: CommandLine)
    ensures
        r@ == line(
            "rclone"@,
            seq!["cat"@, base@ + "/RECOVERY-HINT.txt"@, "--config"@, config@],
        ),
{
    let mut path = base.to_owned();
    path.append("/RECOVERY-HINT.txt");
    let args = vec!["cat", path.as_str(), "--config", config];
    assert(strs(args@) =~= seq!["cat"@, base@ + "/RECOVERY-HINT.txt"@, "--config"@, config@]);
    command("rclone", args)
}

/// The command that downloads an LKG state.
pub fn restore_lkg(name: &str, remote: &str, dest: &str, config: &str) -> (r: CommandLine)
    ensures
        r@ == line(
            "rclone"@,
            seq![
                "copy"@,
                remote@ + ":lkg/"@ + name@ + "/"@,
                dest@,
                "--config"@,
                config@,
                "--progress"@,
            ],
        ),
{
    let mut path = remote.to_owned();
    path.append(":lkg/");
    path.append(name);
    path.append("/");
    let args = vec!["copy", path.as_str(), dest, "--config", config, "--progress"];
    assert(strs(args@) =~= seq![
        "copy"@,
        remote@ + ":lkg/"@ + name@ + "/"@,
        dest@,
        "--config"@,
        config@,
        "--progress"@,
    ]);
    command("rclone", args)
}

/// The command that downloads a snapshot.
pub fn restore_snapshot(name: &str, remote: &str, dest: &str, config: &str) -> (r: CommandLine)
    ensures
        r@ == line(
            "rclone"@,
            seq![
                "copyto"@,
                remote@ + ":snapshots/"@ + name@,
                dest@,
                "--config"@,
                config@,
                "--progress"@,
            ],
        ),
{
    let mut path = remote.to_owned();
    path.append(":snapshots/");
    path.append(name);
    let args = vec!["copyto", path.as_str(), dest, "--config", config, "--progress"];
    assert(strs(args@) =~= seq![
        "copyto"@,
        remote@ + ":snapshots/"@ + name@,
        dest@,
        "--config"@,
        config@,
        "--progress"@,
    ]);
    command("rclone", args)
}

/// What is logged of a restore. `what` is `LKG` or `snapshot`.
pub fn restore_message(done: bool, what: &str, name: &str) -> (r: String)
    ensures
        r@ == (if done {
            "RESTORED: "@
        } else {
            "ERROR: Failed to restore "@
        }) + what@ + " '"@ + name@ + "' from cloud"@,
{
    let mut r = if done {
        "RESTORED: ".to_owned()
    } else {
        "ERROR: Failed to restore ".to_owned()
    };
    r.append(what);
    r.append(" '");
    r.append(name);
    r.append("' from cloud");
    r
}

/// Whether a restored file is a database, whose integrity is then checked.
pub fn is_database(name: &str) -> (r: bool)
    ensures
        r == ends(name@, ".sqlite"@),
{
    ends_in(name, ".sqlite")
}

/// The databases among the files of a restored LKG: those with the extension
/// `sqlite`. A name that starts with its only dot has no extension.
pub open spec fn listed_databases(names: Seq<Seq<char>>, n: int) -> Seq<Seq<char>>
    decreases n,
{
    if n <= 0 {
        Seq::empty()
    } else if ends(names[n - 1], ".sqlite"@) && names[n - 1] != ".sqlite"@ {
        listed_databases(names, n - 1).push(names[n - 1])
    } else {
        listed_databases(names, n - 1)
    }
}

/// The databases among the files of a restored LKG, whose integrity is then
/// checked, in the order in which the files are listed.
pub fn databases_in(entries: &Vec<Entry>) -> (r: Vec<String>)
    ensures
        views(r@) == listed_databases(names_of(entries@), entries@.len() as int),
{
    let mut r: Vec<String> = Vec::new();
    assert(views(r@) =~= Seq::<Seq<char>>::empty());
    let mut i: usize = 0;
    while i < entries.len()
        invariant
            i <= entries@.len(),
            views(r@) == listed_databases(names_of(entries@), i as int),
        decreases entries@.len() - i,
    {
        let name = entries[i].0.as_str();
        assert(names_of(entries@)[i as int] == name@);
        if is_database(name) && !same(name, ".sqlite") {
            let ghost before = views(r@);
            r.push(name.to_owned());
            assert(views(r@) =~= before.push(name@));
        }
        i += 1;
    }
    r
}

/// What is said of the integrity of a restored database: whether it is good,
/// and the text. `answer` is what the check said, or why it could not be made;
/// `opened` says whether the file could be opened.
pub fn integrity_report(opened: bool, answer: &Result<String, String>) -> (r: (bool, String))
    ensures
        match answer {
            Ok(a) => if a@ == "ok"@ {
                r.0 && r.1@ == "[OK] SQLite integrity check passed"@
            } else {
                !r.0 && r.1@ == "[WARN] SQLite integrity check: "@ + a@
            },
            Err(e) => !r.0 && r.1@ == (if opened {
                "[WARN] SQLite integrity check failed: "@
            } else {
                "[WARN] Cannot open SQLite file for integrity check: "@
            }) + e@,
        },
{
    match answer {
        Ok(a) => {
            if same(a.as_str(), "ok") {
                (true, "[OK] SQLite integrity check passed".to_owned())
            } else {
                let mut m = "[WARN] SQLite integrity check: ".to_owned();
                m.append(a.as_str());
                (false, m)
            }
        },
        Err(e) => {
            let mut m = if opened {
                "[WARN] SQLite integrity check failed: ".to_owned()
            } else {
                "[WARN] Cannot open SQLite file for integrity check: ".to_owned()
            };
            m.append(e.as_str());
            (false, m)
        },
    }
}

/// Usage information.
pub const USAGE: &'static str = "\nUsage: sudo outerclaw cloud restore [OPTION]\n\nOptions:\n  --list                         List all cloud backups\n  --show-hint                    Show password recovery hint from cloud\n  --restore-lkg <name>           Download an LKG state from cloud\n  --restore-snapshot <name>      Download a snapshot file from cloud\n\nExamples:\n  sudo outerclaw cloud restore --list\n  sudo outerclaw cloud restore --restore-lkg lkg-2026-03-20T10:00:00\n  sudo outerclaw cloud restore --restore-snapshot main-2026-03-20T12:00:00.sqlite\n\nAfter restoring, use rollback to apply the data:\n  sudo outerclaw rollback\n";

/// The remote of a section is the first one that is named between the section's
/// header and the next header.
pub proof fn law_remote_of_the_section(ls: Seq<Seq<char>>, header: Seq<char>, h: int, k: int)
    requires
        0 <= h < k < ls.len(),
        trim_white(ls[h]) == header,
        forall|i: int| 0 <= i < h ==> trim_white(#[trigger] ls[i]) != header,
        forall|i: int|
            h < i < k ==> remote_value(trim_white(#[trigger] ls[i])) is None && !(begins(
                trim_white(ls[i]),
                "["@,
            ) && ends(trim_white(ls[i]), "]"@)),
        trim_white(ls[k]) != header,
    ensures
        begins(trim_white(ls[k]), "["@) && ends(trim_white(ls[k]), "]"@) ==> remote_from(
            ls,
            header,
            0,
            false,
        ) is None,
        !(begins(trim_white(ls[k]), "["@) && ends(trim_white(ls[k]), "]"@)) && remote_value(
            trim_white(ls[k]),
        ) is Some ==> remote_from(ls, header, 0, false) == remote_value(trim_white(ls[k])),
{
    lemma_before_the_section(ls, header, 0, h);
    lemma_inside_the_section(ls, header, h + 1, k);
}

/// The lines before the header do not matter.
proof fn lemma_before_the_section(ls: Seq<Seq<char>>, header: Seq<char>, i: int, h: int)
    requires
        0 <= i <= h < ls.len(),
        trim_white(ls[h]) == header,
        forall|j: int| 0 <= j < h ==> trim_white(#[trigger] ls[j]) != header,
    ensures
        remote_from(ls, header, i, false) == remote_from(ls, header, h + 1, true),
    decreases h - i,
{
    if i < h {
        assert(trim_white(ls[i]) != header);
        lemma_before_the_section(ls, header, i + 1, h);
    }
}

/// The lines of a section that name no remote do not matter.
proof fn lemma_inside_the_section(ls: Seq<Seq<char>>, header: Seq<char>, i: int, k: int)
    requires
        0 <= i <= k < ls.len(),
        forall|j: int|
            i <= j < k ==> remote_value(trim_white(#[trigger] ls[j])) is None && !(begins(
                trim_white(ls[j]),
                "["@,
            ) && ends(trim_white(ls[j]), "]"@)),
    ensures
        remote_from(ls, header, i, true) == remote_from(ls, header, k, true),
    decreases k - i,
{
    if i < k {
        assert(remote_value(trim_white(ls[i])) is None);
        lemma_inside_the_section(ls, header, i + 1, k);
    }
}

/// Without the section there is no remote.
pub proof fn law_no_section_no_remote(ls: Seq<Seq<char>>, header: Seq<char>, i: int)
    requires
        0 <= i <= ls.len(),
        forall|j: int| i <= j < ls.len() ==> trim_white(#[trigger] ls[j]) != header,
    ensures
        remote_from(ls, header, i, false) is None,
    decreases ls.len() - i,
{
    if i < ls.len() {
        assert(trim_white(ls[i]) != header);
        law_no_section_no_remote(ls, header, i + 1);
    }
}

/// Every backup is listed by itself, in its order: one more line adds at most
/// one item, and none where it is empty.
pub proof fn law_backups_are_listed_in_turn(ls: Seq<Seq<char>>, l: Seq<char>)
    ensures
        ({
            let n = ls.len() as int;
            let (before, after) = (lkg_lines(ls, n), lkg_lines(ls.push(l), n + 1));
            &&& words(l).len() == 0 ==> after == before
            &&& words(l).len() > 0 ==> after.drop_last() == before && after.last() == "  "@
                + words(l)[words(l).len() - 1]
        }),
        ({
            let n = ls.len() as int;
            let (before, after) = (snapshot_lines(ls, n), snapshot_lines(ls.push(l), n + 1));
            &&& trim_white(l).len() == 0 ==> after == before
            &&& trim_white(l).len() > 0 ==> after.drop_last() == before
        }),
{
    let n = ls.len() as int;
    lemma_lists_in_longer(ls, l, n);
    assert(lkg_lines(ls, n).push("  "@ + words(l).last()).drop_last() =~= lkg_lines(ls, n));
    assert(snapshot_lines(ls, n).push(snapshot_line(trim_white(l))).drop_last() =~= snapshot_lines(
        ls,
        n,
    ));
}

/// What follows does not change what is listed before.
proof fn lemma_lists_in_longer(ls: Seq<Seq<char>>, l: Seq<char>, n: int)
    requires
        0 <= n <= ls.len(),
    ensures
        lkg_lines(ls.push(l), n) == lkg_lines(ls, n),
        snapshot_lines(ls.push(l), n) == snapshot_lines(ls, n),
    decreases n,
{
    if n > 0 {
        lemma_lists_in_longer(ls, l, n - 1);
        assert(ls.push(l)[n - 1] == ls[n - 1]);
    }
}

/// A snapshot is listed with its size and its name: the line ends with the name
/// and holds the size before it.
pub proof fn law_snapshot_is_listed_with_its_size(bytes: u64, name: Seq<char>)
    requires
        name.len() > 0,
        !Class::White.holds(name[0]),
        !Class::White.holds(name.last()),
    ensures
        snapshot_line(decimal(bytes as nat) + " "@ + name) == "  "@ + aligned(
            listed_size(bytes as nat),
            10,
        ) + "  "@ + name,
{
    reveal_strlit(" ");
    let size = decimal(bytes as nat);
    let t = size + " "@ + name;
    crate::util::text::lemma_decimal_reads_back(bytes as nat);
    crate::util::text::lemma_upto_is(t, Class::White, 0, size.len() as int);
    assert(t.take(size.len() as int) =~= size);
    assert(t.skip(size.len() as int + 1) =~= name);
    crate::util::text::lemma_nothing_to_trim(name, Class::White);
}

/// The unit fits the size: bytes below a kibibyte, then KB, and MB from a
/// mebibyte on.
pub proof fn law_unit_fits_the_size(bytes: nat)
    ensures
        ({
            let s = listed_size(bytes);
            let u = s[s.len() - 2];
            &&& bytes < 1024 <==> u == ' '
            &&& 1024 <= bytes < 1024 * 1024 <==> u == 'K'
            &&& bytes >= 1024 * 1024 <==> u == 'M'
        }),
{
    reveal_strlit(" MB");
    reveal_strlit(" KB");
    reveal_strlit(" B");
}

/// A line that names no remote names none by an empty value either.
pub proof fn law_empty_remote_is_none(t: Seq<char>)
    ensures
        remote_value("remote"@) is None,
        remote_value(t) matches Some(v) ==> v.len() > 0 && begins(t, "remote"@),
        !begins(t, "remote"@) ==> remote_value(t) is None,
{
    let p = "remote"@;
    if begins(p, p) {
        assert(p.skip(p.len() as int) =~= Seq::<char>::empty());
        let e = Seq::<char>::empty();
        assert(trimmed_start(e, Class::Either(' ', '=')).len() == 0);
        assert(trim_white(trimmed_start(e, Class::Either(' ', '='))).len() == 0);
    }
}

/// Of the restored files, exactly those are checked whose names have something
/// in front of `.sqlite`.
pub proof fn law_databases_are_picked(names: Seq<Seq<char>>, name: Seq<char>)
    ensures
        ({
            let n = names.len() as int;
            let (before, after) = (
                listed_databases(names, n),
                listed_databases(names.push(name), n + 1),
            );
            &&& ends(name, ".sqlite"@) && name.len() > 7 ==> after == before.push(name)
            &&& !ends(name, ".sqlite"@) || name.len() <= 7 ==> after == before
        }),
{
    reveal_strlit(".sqlite");
    lemma_databases_in_longer(names, name, names.len() as int);
    if ends(name, ".sqlite"@) && name.len() == 7 {
        assert(name.subrange(0, 7) =~= name);
    }
}

/// What follows does not change what is picked before.
proof fn lemma_databases_in_longer(names: Seq<Seq<char>>, name: Seq<char>, n: int)
    requires
        0 <= n <= names.len(),
    ensures
        listed_databases(names.push(name), n) == listed_databases(names, n),
    decreases n,
{
    if n > 0 {
        lemma_databases_in_longer(names, name, n - 1);
        assert(names.push(name)[n - 1] == names[n - 1]);
    }
}

} // verus!
