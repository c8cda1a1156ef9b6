//! Filesystem ACLs that let the outerclaw user read OpenClaw's data.

use crate::platform::command::{command, expect_success, failure, line, owned, strs, CommandLine, CommandLineView, CommandOutput};
use crate::platform::macos::command_views;
use crate::util::text::{join, joined, same, views};
use vstd::prelude::*;

verus! {

/// `name` is one of the names.
pub open spec fn listed(names: Seq<Seq<char>>, name: Seq<char>) -> bool {
    exists|i: int| 0 <= i < names.len() && #[trigger] names[i] == name
}

/// Whether `name` is one of the names.
fn is_listed(names: &Vec<String>, name: &str) -> (r: bool)
    ensures
        r == listed(views(names@), name@),
{
    let mut i: usize = 0;
    while i < names.len()
        invariant
            i <= names@.len(),
            forall|k: int| 0 <= k < i ==> #[trigger] views(names@)[k] != name@,
        decreases names@.len() - i,
    {
        if same(names[i].as_str(), name) {
            assert(views(names@)[i as int] == name@);
            return true;
        }
        i += 1;
    }
    false
}

/// The command `setfacl` with these arguments.
pub open spec fn setfacl(args: Seq<Seq<char>>) -> CommandLineView {
    line("setfacl"@, args)
}

/// The commands for a subdirectory: one for what is there, one for what will be.
pub open spec fn subtree(change: Seq<Seq<char>>, path: Seq<char>) -> Seq<CommandLineView> {
    seq![
        setfacl(seq!["-R"@] + change.push(path)),
        setfacl(seq!["-R"@, "-d"@] + change.push(path)),
    ]
}

/// The commands for the first `n` subdirectories, of those that are there.
pub open spec fn subtrees(
    change: Seq<Seq<char>>,
    dir: Seq<char>,
    names: Seq<Seq<char>>,
    there: Seq<Seq<char>>,
    n: int,
) -> Seq<CommandLineView>
    decreases n,
{
    if n <= 0 {
        Seq::empty()
    } else {
        let before = subtrees(change, dir, names, there, n - 1);
        if listed(there, names[n - 1]) {
            before + subtree(change, dir + "/"@ + names[n - 1])
        } else {
            before
        }
    }
}

/// The commands for the first `n` files, of those that are there.
pub open spec fn single_files(
    change: Seq<Seq<char>>,
    dir: Seq<char>,
    names: Seq<Seq<char>>,
    there: Seq<Seq<char>>,
    n: int,
) -> Seq<CommandLineView>
    decreases n,
{
    if n <= 0 {
        Seq::empty()
    } else {
        let before = single_files(change, dir, names, there, n - 1);
        if listed(there, names[n - 1]) {
            before.push(setfacl(change.push(dir + "/"@ + names[n - 1])))
        } else {
            before
        }
    }
}

/// The configuration files.
pub open spec fn config_names() -> Seq<Seq<char>> {
    seq!["openclaw.json"@, "exec-approvals.json"@, ".env"@]
}

/// The commands that grant read access, in order. The mask is set explicitly
/// alongside each entry — POSIX ACL masks otherwise get recomputed when group
/// bits change (e.g. `chmod g-rwx`), silently collapsing the effective
/// permission to `---` and locking outerclaw out of the directory.
pub open spec fn grants(home: Seq<char>, dir: Seq<char>, there: Seq<Seq<char>>) -> Seq<CommandLineView> {
    seq![
        // Home directory traverse
        setfacl(seq!["-m"@, "u:outerclaw:x,m::x"@, home]),
        // .openclaw root traverse + read
        setfacl(seq!["-m"@, "u:outerclaw:rx,m::rx"@, dir]),
    ] + subtrees(
        seq!["-m"@, "u:outerclaw:rX,m::rX"@],
        dir,
        seq!["workspace"@, "memory"@, "tasks"@, "logs"@],
        there,
        4,
    ) + seq![
        // Files created at the top level
        setfacl(seq!["-d"@, "-m"@, "u:outerclaw:r,m::r"@, dir]),
    ] + single_files(seq!["-m"@, "u:outerclaw:r,m::r"@], dir, config_names(), there, 3)
}

/// The commands that take the access back, in order.
pub open spec fn removals(home: Seq<char>, dir: Seq<char>, there: Seq<Seq<char>>) -> Seq<CommandLineView> {
    seq![
        setfacl(seq!["-x"@, "u:outerclaw"@, home]),
        setfacl(seq!["-x"@, "u:outerclaw"@, dir]),
        setfacl(seq!["-d"@, "-x"@, "u:outerclaw"@, dir]),
    ] + subtrees(
        seq!["-x"@, "u:outerclaw"@],
        dir,
        seq!["workspace"@, "memory"@, "logs"@],
        there,
        3,
    ) + single_files(seq!["-x"@, "u:outerclaw"@], dir, config_names(), there, 3)
}

/// The commands for the subdirectories that are there, added to `out`.
fn add_subtrees(
    op: &str,
    entry: &str,
    dir: &str,
    names: &Vec<String>,
    there: &Vec<String>,
    out: &mut Vec<CommandLine>,
)
    ensures
        command_views(final(out)@) == command_views(old(out)@) + subtrees(
            seq![op@, entry@],
            dir@,
            views(names@),
            views(there@),
            names@.len() as int,
        ),
{
    let ghost change = seq![op@, entry@];
    let ghost start = command_views(out@);
    let mut i: usize = 0;
    assert(start + Seq::<CommandLineView>::empty() =~= start);
    while i < names.len()
        invariant
            change == seq![op@, entry@],
            i <= names@.len(),
            command_views(out@) == start + subtrees(
                change,
                dir@,
                views(names@),
                views(there@),
                i as int,
            ),
        decreases names@.len() - i,
    {
        assert(views(names@)[i as int] == names@[i as int]@);
        if is_listed(there, names[i].as_str()) {
            let ghost so_far = command_views(out@);
            let ghost found = subtrees(change, dir@, views(names@), views(there@), i as int);
            let mut path = dir.to_owned();
            path.append("/");
            path.append(names[i].as_str());
            let now = vec!["-R", op, entry, path.as_str()];
            assert(strs(now@) =~= seq!["-R"@] + change.push(path@));
            let later = vec!["-R", "-d", op, entry, path.as_str()];
            assert(strs(later@) =~= seq!["-R"@, "-d"@] + change.push(path@));
            out.push(command("setfacl", now));
            out.push(command("setfacl", later));
            assert(command_views(out@) =~= so_far + subtree(change, path@));
            assert((start + found) + subtree(change, path@) =~= start + (found + subtree(
                change,
                path@,
            )));
        }
        i += 1;
    }
}

/// The commands for the configuration files that are there, added to `out`.
fn add_files(
    op: &str,
    entry: &str,
    dir: &str,
    there: &Vec<String>,
    out: &mut Vec<CommandLine>,
)
    ensures
        command_views(final(out)@) == command_views(old(out)@) + single_files(
            seq![op@, entry@],
            dir@,
            config_names(),
            views(there@),
            3,
        ),
{
    let ghost change = seq![op@, entry@];
    let ghost start = command_views(out@);
    let v = vec!["openclaw.json", "exec-approvals.json", ".env"];
    assert(strs(v@) =~= config_names());
    let names = owned(v);
    assert(views(names@).len() == names@.len());
    let mut i: usize = 0;
    assert(start + Seq::<CommandLineView>::empty() =~= start);
    while i < names.len()
        invariant
            change == seq![op@, entry@],
            views(names@) == config_names(),
            i <= names@.len(),
            command_views(out@) == start + single_files(
                change,
                dir@,
                config_names(),
                views(there@),
                i as int,
            ),
        decreases names@.len() - i,
    {
        assert(views(names@)[i as int] == names@[i as int]@);
        if is_listed(there, names[i].as_str()) {
            let ghost so_far = command_views(out@);
            let ghost found = single_files(
                change,
                dir@,
                config_names(),
                views(there@),
                i as int,
            );
            let mut path = dir.to_owned();
            path.append("/");
            path.append(names[i].as_str());
            let args = vec![op, entry, path.as_str()];
            assert(strs(args@) =~= change.push(path@));
            out.push(command("setfacl", args));
            let ghost c = setfacl(change.push(path@));
            assert(command_views(out@) =~= so_far.push(c));
            assert((start + found).push(c) =~= start + found.push(c));
        }
        i += 1;
    }
}

/// The commands that set filesystem ACLs for the outerclaw user to read
/// OpenClaw data. `there` are the names below `openclaw_dir` that exist. They
/// are run in order, up to the first that fails.
pub fn set_acls(agent_home: &str, openclaw_dir: &str, there: &Vec<String>) -> (r: Vec<CommandLine>)
    ensures
        command_views(r@) == grants(agent_home@, openclaw_dir@, views(there@)),
{
    let home = vec!["-m", "u:outerclaw:x,m::x", agent_home];
    assert(strs(home@) =~= seq!["-m"@, "u:outerclaw:x,m::x"@, agent_home@]);
    let root = vec!["-m", "u:outerclaw:rx,m::rx", openclaw_dir];
    assert(strs(root@) =~= seq!["-m"@, "u:outerclaw:rx,m::rx"@, openclaw_dir@]);
    let mut out = vec![command("setfacl", home), command("setfacl", root)];
    assert(command_views(out@) =~= seq![
        setfacl(seq!["-m"@, "u:outerclaw:x,m::x"@, agent_home@]),
        setfacl(seq!["-m"@, "u:outerclaw:rx,m::rx"@, openclaw_dir@]),
    ]);
    let subs = vec!["workspace", "memory", "tasks", "logs"];
    assert(strs(subs@) =~= seq!["workspace"@, "memory"@, "tasks"@, "logs"@]);
    let names = owned(subs);
    assert(views(names@).len() == names@.len());
    add_subtrees("-m", "u:outerclaw:rX,m::rX", openclaw_dir, &names, there, &mut out);
    let ghost so_far = command_views(out@);
    let top = vec!["-d", "-m", "u:outerclaw:r,m::r", openclaw_dir];
    assert(strs(top@) =~= seq!["-d"@, "-m"@, "u:outerclaw:r,m::r"@, openclaw_dir@]);
    out.push(command("setfacl", top));
    assert(command_views(out@) =~= so_far + seq![
        setfacl(seq!["-d"@, "-m"@, "u:outerclaw:r,m::r"@, openclaw_dir@]),
    ]);
    add_files("-m", "u:outerclaw:r,m::r", openclaw_dir, there, &mut out);
    out
}

/// The commands that remove filesystem ACLs for the outerclaw user from
/// OpenClaw directories. All of them are run, whatever becomes of each.
pub fn remove_acls(agent_home: &str, openclaw_dir: &str, there: &Vec<String>) -> (r: Vec<
    CommandLine,
>)
    ensures
        command_views(r@) == removals(agent_home@, openclaw_dir@, views(there@)),
{
    let home = vec!["-x", "u:outerclaw", agent_home];
    assert(strs(home@) =~= seq!["-x"@, "u:outerclaw"@, agent_home@]);
    let root = vec!["-x", "u:outerclaw", openclaw_dir];
    assert(strs(root@) =~= seq!["-x"@, "u:outerclaw"@, openclaw_dir@]);
    let top = vec!["-d", "-x", "u:outerclaw", openclaw_dir];
    assert(strs(top@) =~= seq!["-d"@, "-x"@, "u:outerclaw"@, openclaw_dir@]);
    let mut out = vec![
        command("setfacl", home),
        command("setfacl", root),
        command("setfacl", top),
    ];
    assert(command_views(out@) =~= seq![
        setfacl(seq!["-x"@, "u:outerclaw"@, agent_home@]),
        setfacl(seq!["-x"@, "u:outerclaw"@, openclaw_dir@]),
        setfacl(seq!["-d"@, "-x"@, "u:outerclaw"@, openclaw_dir@]),
    ]);
    let subs = vec!["workspace", "memory", "logs"];
    assert(strs(subs@) =~= seq!["workspace"@, "memory"@, "logs"@]);
    let names = owned(subs);
    assert(views(names@).len() == names@.len());
    add_subtrees("-x", "u:outerclaw", openclaw_dir, &names, there, &mut out);
    add_files("-x", "u:outerclaw", openclaw_dir, there, &mut out);
    out
}

/// Whether `setfacl` with these arguments succeeded.
pub fn setfacl_result(args: &Vec<String>, out: &CommandOutput) -> (r: Result<(), String>)
    ensures
        r is Ok <==> out.success,
        r matches Err(e) ==> e@ == failure(
            "setfacl "@ + joined(views(args@), " "@),
            out.code,
            out.stderr@,
        ),
{
    let mut what = "setfacl ".to_owned();
    what.append(join(args, " ").as_str());
    expect_success(what.as_str(), out)
}

/// Of the directories, exactly those that are there are changed, each with
/// everything in it, for what is there now and for what will be.
pub proof fn law_what_is_there_is_changed(
    change: Seq<Seq<char>>,
    dir: Seq<char>,
    names: Seq<Seq<char>>,
    name: Seq<char>,
    there: Seq<Seq<char>>,
)
    ensures
        ({
            let n = names.len() as int;
            let (before, after) = (
                subtrees(change, dir, names, there, n),
                subtrees(change, dir, names.push(name), there, n + 1),
            );
            let path = dir + "/"@ + name;
            &&& there.contains(name) ==> after == before.push(
                line("setfacl"@, seq!["-R"@] + change.push(path)),
            ).push(line("setfacl"@, seq!["-R"@, "-d"@] + change.push(path)))
            &&& !there.contains(name) ==> after == before
        }),
        ({
            let n = names.len() as int;
            let (before, after) = (
                single_files(change, dir, names, there, n),
                single_files(change, dir, names.push(name), there, n + 1),
            );
            &&& there.contains(name) ==> after == before.push(
                line("setfacl"@, change.push(dir + "/"@ + name)),
            )
            &&& !there.contains(name) ==> after == before
        }),
{
    let n = names.len() as int;
    lemma_changes_in_longer(change, dir, names, name, there, n);
    let before = subtrees(change, dir, names, there, n);
    let path = dir + "/"@ + name;
    assert(before + subtree(change, path) =~= before.push(
        line("setfacl"@, seq!["-R"@] + change.push(path)),
    ).push(line("setfacl"@, seq!["-R"@, "-d"@] + change.push(path))));
    if there.contains(name) {
        let i = choose|i: int| 0 <= i < there.len() && there[i] == name;
        assert(there[i] == name);
    }
}

/// What follows does not change what is changed before.
proof fn lemma_changes_in_longer(
    change: Seq<Seq<char>>,
    dir: Seq<char>,
    names: Seq<Seq<char>>,
    name: Seq<char>,
    there: Seq<Seq<char>>,
    n: int,
)
    requires
        0 <= n <= names.len(),
    ensures
        subtrees(change, dir, names.push(name), there, n) == subtrees(change, dir, names, there, n),
        single_files(change, dir, names.push(name), there, n) == single_files(
            change,
            dir,
            names,
            there,
            n,
        ),
    decreases n,
{
    if n > 0 {
        lemma_changes_in_longer(change, dir, names, name, there, n - 1);
        assert(names.push(name)[n - 1] == names[n - 1]);
    }
}

} // verus!
