//! Detection utilities for the setup: where OpenClaw lies, and who invoked
//! `sudo`.

use crate::platform::command::{command, line, strs, CommandLine, CommandLineView};
use crate::util::text::{lines, lines_of, same, trim, trim_white, views};
use vstd::prelude::*;

verus! {

/// A command that may print where the OpenClaw binary lies.
pub struct Probe {
    pub command: CommandLine,
    /// The directory that must exist for the command to be run.
    pub needs: Option<String>,
    /// The command prints all matches, one in a line; the last one counts
    /// (likely highest version if multiple).
    pub many: bool,
}

impl Probe {
    /// What the probe runs.
    pub open spec fn runs(self, c: CommandLineView, needs: Option<Seq<char>>, many: bool) -> bool {
        &&& self.command@ == c
        &&& match self.needs {
            Some(d) => needs == Some(d@),
            None => needs is None,
        }
        &&& self.many == many
    }
}

/// The command that asks a user's login shell.
pub open spec fn shell_probe(user: Seq<char>) -> CommandLineView {
    line("sudo"@, seq!["-u"@, user, "bash"@, "-lc"@, "command -v openclaw"@])
}

/// The command that searches a directory.
pub open spec fn find_probe(dir: Seq<char>) -> CommandLineView {
    line(
        "find"@,
        seq![dir, "-name"@, "openclaw"@, "-path"@, "*/bin/openclaw"@, "-type"@, "f"@],
    )
}

/// The command that searches a directory.
fn find_in(dir: &str) -> (r: Probe)
    ensures
        r.runs(find_probe(dir@), Some(dir@), true),
{
    let args = vec![dir, "-name", "openclaw", "-path", "*/bin/openclaw", "-type", "f"];
    assert(strs(args@) =~= seq![
        dir@,
        "-name"@,
        "openclaw"@,
        "-path"@,
        "*/bin/openclaw"@,
        "-type"@,
        "f"@,
    ]);
    Probe { command: command("find", args), needs: Some(dir.to_owned()), many: true }
}

/// The ways to detect the OpenClaw binary, to be tried one after the other:
/// 1. Ask `agent_user`'s login shell
/// 2. Search common npm global directories under the agent's home
/// 3. System PATH via `command -v openclaw`, then `which`
pub fn detect_openclaw_binary(agent_user: &str) -> (r: Vec<Probe>)
    ensures
        r@.len() == 6,
        r@[0].runs(shell_probe(agent_user@), None, false),
        r@[1].runs(
            find_probe("/home/"@ + agent_user@ + "/.npm-global"@),
            Some("/home/"@ + agent_user@ + "/.npm-global"@),
            true,
        ),
        r@[2].runs(find_probe("/usr/local/lib"@), Some("/usr/local/lib"@), true),
        r@[3].runs(find_probe("/usr/lib"@), Some("/usr/lib"@), true),
        r@[4].runs(line("command"@, seq!["-v"@, "openclaw"@]), None, false),
        r@[5].runs(line("which"@, seq!["openclaw"@]), None, false),
{
    let shell = vec!["-u", agent_user, "bash", "-lc", "command -v openclaw"];
    assert(strs(shell@) =~= seq!["-u"@, agent_user@, "bash"@, "-lc"@, "command -v openclaw"@]);
    let path = vec!["-v", "openclaw"];
    assert(strs(path@) =~= seq!["-v"@, "openclaw"@]);
    let which = vec!["openclaw"];
    assert(strs(which@) =~= seq!["openclaw"@]);
    let mut npm = "/home/".to_owned();
    npm.append(agent_user);
    npm.append("/.npm-global");
    vec![
        Probe { command: command("sudo", shell), needs: None, many: false },
        find_in(npm.as_str()),
        find_in("/usr/local/lib"),
        find_in("/usr/lib"),
        Probe { command: command("command", path), needs: None, many: false },
        Probe { command: command("which", which), needs: None, many: false },
    ]
}

/// The path that the output of a successful probe names: the whole output, or
/// the last line.
pub open spec fn named_path(many: bool, output: Seq<char>) -> Option<Seq<char>> {
    if many {
        if lines(output).len() > 0 {
            Some(trim_white(lines(output).last()))
        } else {
            None
        }
    } else if trim_white(output).len() > 0 {
        Some(trim_white(output))
    } else {
        None
    }
}

/// The path that the output of a successful probe names. It counts only where
/// it exists.
pub fn probed_path(many: bool, output: &str) -> (r: Option<String>)
    ensures
        match r {
            Some(p) => named_path(many, output@) == Some(p@),
            None => named_path(many, output@) is None,
        },
{
    if many {
        let ls = lines_of(output);
        assert(views(ls@).len() == ls@.len());
        if ls.len() > 0 {
            assert(views(ls@).last() == ls@[ls@.len() - 1]@);
            Some(trim(ls[ls.len() - 1].as_str()).to_owned())
        } else {
            None
        }
    } else {
        let t = trim(output);
        if t.is_empty() {
            None
        } else {
            Some(t.to_owned())
        }
    }
}

/// How the search for the binary goes on.
#[derive(Debug, Clone, Copy, PartialEq, Eq, Structural)]
pub enum Search {
    /// Try the probe at this place.
    Try(usize),
    /// The path that the last probe named is that of the binary.
    Found,
    /// No probe is left.
    Missing,
}

/// How the search goes on after the probe at `tried`, of `probes` in all: the
/// first path that exists ends it. `there` says whether the probe named one.
pub fn next_probe(tried: usize, probes: usize, there: bool) -> (r: Search)
    ensures
        there ==> r == Search::Found,
        !there && tried + 1 < probes ==> (r matches Search::Try(next) && next == tried + 1),
        !there && tried + 1 >= probes ==> r == Search::Missing,
{
    if there {
        Search::Found
    } else if tried < probes && tried + 1 < probes {
        Search::Try(tried + 1)
    } else {
        Search::Missing
    }
}

/// A home directory: its name, and whether it holds an OpenClaw installation.
pub type Home = (String, bool);

/// The first home at or after `i` with an OpenClaw installation.
pub open spec fn owner(homes: Seq<Home>, i: int) -> Option<Seq<char>>
    decreases homes.len() - i,
{
    if i < 0 || i >= homes.len() {
        None
    } else if homes[i].1 {
        Some(homes[i].0@)
    } else {
        owner(homes, i + 1)
    }
}

/// The user who invoked sudo.
pub open spec fn human_user(sudo_user: Option<&str>, homes: Seq<Home>) -> Option<Seq<char>> {
    match sudo_user {
        Some(u) => if u@.len() > 0 && u@ != "root"@ {
            Some(u@)
        } else {
            owner(homes, 0)
        },
        None => owner(homes, 0),
    }
}

/// Detect the human user who invoked sudo.
///
/// Strategy:
/// 1. Check `SUDO_USER` environment variable
/// 2. Scan `/home/*/` for directories containing `.openclaw/`
pub fn detect_human_user(sudo_user: Option<&str>, homes: &Vec<Home>) -> (r: Option<String>)
    ensures
        match r {
            Some(u) => human_user(sudo_user, homes@) == Some(u@),
            None => human_user(sudo_user, homes@) is None,
        },
{
    if let Some(u) = sudo_user {
        if !u.is_empty() && !same(u, "root") {
            return Some(u.to_owned());
        }
    }
    let mut i: usize = 0;
    while i < homes.len()
        invariant
            i <= homes@.len(),
            human_user(sudo_user, homes@) == owner(homes@, i as int),
        decreases homes@.len() - i,
    {
        if homes[i].1 {
            return Some(homes[i].0.clone());
        }
        i += 1;
    }
    None
}

/// The human behind the installation is who called `sudo`, unless that is root
/// or nobody; else the first who has OpenClaw in their home.
pub proof fn law_human_called_sudo(sudo_user: Option<&str>, homes: Seq<Home>, from: int, k: int)
    requires
        0 <= from <= k <= homes.len(),
        forall|i: int| from <= i < k ==> !(#[trigger] homes[i]).1,
    ensures
        sudo_user matches Some(u) ==> u@.len() > 0 && u@ != "root"@ ==> human_user(sudo_user, homes)
            == Some(u@),
        sudo_user matches Some(u) ==> u@ == "root"@ ==> human_user(sudo_user, homes) == owner(
            homes,
            0,
        ),
        sudo_user is None ==> human_user(sudo_user, homes) == owner(homes, 0),
        k < homes.len() && homes[k].1 ==> owner(homes, from) == Some(homes[k].0@),
        k == homes.len() ==> owner(homes, from) is None,
    decreases k - from,
{
    if from < k {
        assert(!homes[from].1);
        law_human_called_sudo(sudo_user, homes, from + 1, k);
    }
}

/// Of many lines the last is taken, of one its text; without any there is none.
pub proof fn law_last_line_is_taken(output: Seq<char>)
    ensures
        lines(output).len() > 0 ==> named_path(true, output) == Some(
            trim_white(lines(output)[lines(output).len() - 1]),
        ),
        lines(output).len() == 0 ==> named_path(true, output) is None,
        named_path(false, output) is None <==> trim_white(output).len() == 0,
        named_path(false, output) is Some ==> named_path(false, output) == Some(trim_white(output)),
{
}

/// A probe runs one command, below at most one directory.
pub proof fn law_probe_runs_one_command(
    p: Probe,
    c: CommandLineView,
    needs: Option<Seq<char>>,
    many: bool,
)
    requires
        p.runs(c, needs, many),
    ensures
        p.command@ == c,
        p.many == many,
        p.needs is Some <==> needs is Some,
        p.needs is Some ==> needs == Some((p.needs->0)@),
{
}

} // verus!
