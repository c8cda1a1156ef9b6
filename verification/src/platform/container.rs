//! Containers and Linux without an init system: processes are found by their
//! command lines, and services cannot be managed.

use crate::platform::linux::{is_snapshot, memory_fits, proc_snapshot};
use crate::platform::{ProcessMetrics, ServiceActive};
use crate::util::text::{
    chars_of, contains, holds_text, number, parse, replace_char, replaced_char, strip_suffix, views,
    without_suffix, words, words_of,
};
use crate::util::time_fmt::Timestamp;
use vstd::prelude::*;

verus! {

/// Linux container platform implementation (no init system).
pub struct LinuxContainer;

/// An entry of `/proc`: its name, and its command line where it could be read.
pub type ProcEntry = (String, Option<String>);

/// The entry is a process other than the first one and our own, and its command
/// line, with spaces for the NULs, contains `name`.
pub open spec fn runs(entry: ProcEntry, own: u32, name: Seq<char>) -> bool {
    match number(entry.0@, u32::MAX as nat) {
        Some(pid) => pid > 1 && pid != own && match entry.1 {
            Some(c) => holds_text(replaced_char(c@, '\0', ' '), name),
            None => false,
        },
        None => false,
    }
}

/// The first process at or after position `i` whose command line contains `name`.
pub open spec fn running(entries: Seq<ProcEntry>, own: u32, name: Seq<char>, i: int) -> Option<u32>
    decreases entries.len() - i,
{
    if i < 0 || i >= entries.len() {
        None
    } else if runs(entries[i], own, name) {
        Some(number(entries[i].0@, u32::MAX as nat)->0 as u32)
    } else {
        running(entries, own, name, i + 1)
    }
}

/// The process of a service: found by its name, or by its name with spaces for
/// the dashes.
pub open spec fn service_pid(entries: Seq<ProcEntry>, own: u32, service: Seq<char>) -> Option<u32> {
    let name = without_suffix(service, ".service"@);
    match running(entries, own, name, 0) {
        Some(pid) => Some(pid),
        None => if name.contains('-') {
            running(entries, own, replaced_char(name, '-', ' '), 0)
        } else {
            None
        },
    }
}

/// The position of the last `)` before `j`.
pub open spec fn last_paren(s: Seq<char>, j: int) -> Option<int>
    decreases j,
{
    if j <= 0 || j > s.len() {
        None
    } else if s[j - 1] == ')' {
        Some(j - 1)
    } else {
        last_paren(s, j - 1)
    }
}

/// Behind the command in a `stat` file, if there is one, stands a space (or
/// some other character of one byte).
pub open spec fn stat_splits(stat: Seq<char>) -> bool {
    last_paren(stat, stat.len() as int) matches Some(p) ==> p + 1 < stat.len() && stat[p + 1]
        as u32 <= 0x7f
}

/// The fields behind the command in a `stat` file.
pub open spec fn stat_fields(stat: Seq<char>) -> Seq<Seq<char>> {
    match last_paren(stat, stat.len() as int) {
        Some(p) => words(stat.skip(p + 2)),
        None => Seq::empty(),
    }
}

/// The last `)` in a text.
fn find_paren(v: &Vec<char>) -> (r: Option<usize>)
    ensures
        match r {
            Some(p) => last_paren(v@, v@.len() as int) == Some(p as int) && p < v@.len(),
            None => last_paren(v@, v@.len() as int) is None,
        },
{
    let mut j: usize = v.len();
    while j > 0
        invariant
            j <= v@.len(),
            last_paren(v@, v@.len() as int) == last_paren(v@, j as int),
        decreases j,
    {
        if v[j - 1] == ')' {
            return Some(j - 1);
        }
        j -= 1;
    }
    None
}

/// Whether a `stat` file can be taken apart.
pub fn is_stat_splitting(stat: &str) -> (r: bool)
    ensures
        r == stat_splits(stat@),
{
    let v = chars_of(stat);
    let n: usize = v.len();
    match find_paren(&v) {
        Some(p) => p < n - 1 && v[p + 1] as u32 <= 0x7f,
        None => true,
    }
}

/// When a process started, in clock ticks since boot, from its `stat` file.
/// The time is the 20th field behind the command.
pub fn start_ticks(stat: &str) -> (r: Option<u64>)
    requires
        stat_splits(stat@),
    ensures
        match r {
            Some(t) => stat_fields(stat@).len() > 19 && number(
                stat_fields(stat@)[19],
                u64::MAX as nat,
            ) == Some(t as nat),
            None => stat_fields(stat@).len() <= 19 || number(
                stat_fields(stat@)[19],
                u64::MAX as nat,
            ) is None,
        },
{
    let v = chars_of(stat);
    match find_paren(&v) {
        Some(p) => {
            let rest = stat.substring_char(p + 2, v.len());
            assert(rest@ =~= stat@.skip(p + 2));
            let fields = words_of(rest);
            if fields.len() > 19 {
                assert(views(fields@)[19] == fields@[19]@);
                parse(fields[19].as_str(), u64::MAX)
            } else {
                None
            }
        },
        None => None,
    }
}

/// Whether `s` holds a dash.
fn has_dash(s: &str) -> (r: bool)
    ensures
        r == s@.contains('-'),
{
    let v = chars_of(s);
    let mut i: usize = 0;
    while i < v.len()
        invariant
            v@ == s@,
            i <= v@.len(),
            forall|k: int| 0 <= k < i ==> v@[k] != '-',
        decreases v@.len() - i,
    {
        if v[i] == '-' {
            assert(s@[i as int] == '-');
            return true;
        }
        i += 1;
    }
    false
}

/// What to do about a process that was told to terminate.
#[derive(Debug, Clone, Copy, PartialEq, Eq, Structural)]
pub enum Patience {
    /// Look again in a tenth of a second.
    Wait,
    /// Kill it.
    Kill,
    /// It is gone.
    Done,
}

/// What to do about a process that was told to terminate, after so many looks:
/// it has three seconds to exit before it is killed.
pub fn restart_service(looks: u32, alive: bool) -> (r: Patience)
    ensures
        r == if !alive {
            Patience::Done
        } else if looks < 30 {
            Patience::Wait
        } else {
            Patience::Kill
        },
{
    if !alive {
        Patience::Done
    } else if looks < 30 {
        Patience::Wait
    } else {
        Patience::Kill
    }
}

/// `<what>(<name>): <why>`.
pub open spec fn refusal(what: Seq<char>, name: Seq<char>, why: Seq<char>) -> Seq<char> {
    what + "("@ + name + "): "@ + why
}

/// `<what>(<name>): <why>`.
fn refuse(what: &str, name: &str, why: &str) -> (r: String)
    ensures
        r@ == refusal(what@, name@, why@),
{
    let mut m = what.to_owned();
    m.append("(");
    m.append(name);
    m.append("): ");
    m.append(why);
    m
}

impl LinuxContainer {
    /// Create a new instance.
    pub fn new() -> (r: Self)
        ensures
            r == LinuxContainer,
    {
        LinuxContainer
    }

    /// The name of the platform.
    pub fn platform_name(&self) -> (r: &'static str)
        ensures
            r@ == "linux-container"@,
    {
        "linux-container"
    }

    /// The first process whose command line contains `name`. `entries` are
    /// those of `/proc`, and `own` is our own process.
    pub fn find_pid_by_cmdline(entries: &Vec<ProcEntry>, own: u32, name: &str) -> (r: Option<u32>)
        ensures
            r == running(entries@, own, name@, 0),
    {
        let mut i: usize = 0;
        while i < entries.len()
            invariant
                i <= entries@.len(),
                running(entries@, own, name@, 0) == running(entries@, own, name@, i as int),
            decreases entries@.len() - i,
        {
            // Only look at numeric directory names (PIDs); skip PID 1
            // (init/entrypoint) and our own PID
            if let Some(pid) = parse(entries[i].0.as_str(), 4294967295) {
                if pid > 1 && pid != own as u64 {
                    if let Some(c) = &entries[i].1 {
                        // cmdline is NUL-separated
                        let cmdline = replace_char(c.as_str(), '\0', ' ');
                        if contains(cmdline.as_str(), name) {
                            return Some(pid as u32);
                        }
                    }
                }
            }
            i += 1;
        }
        None
    }

    /// The process of a service, among the entries of `/proc`.
    pub fn find_service_pid(&self, entries: &Vec<ProcEntry>, own: u32, service: &str) -> (r: Option<
        u32,
    >)
        ensures
            r == service_pid(entries@, own, service@),
    {
        let name = strip_suffix(service, ".service");
        // First try to find by the service name pattern
        if let Some(pid) = LinuxContainer::find_pid_by_cmdline(entries, own, name) {
            return Some(pid);
        }
        // For "openclaw-gateway" specifically, also search for "openclaw gateway"
        if has_dash(name) {
            let alt_name = replace_char(name, '-', ' ');
            return LinuxContainer::find_pid_by_cmdline(entries, own, alt_name.as_str());
        }
        None
    }

    /// The metrics of a process, from the texts of its files.
    pub fn collect_proc_metrics(
        &self,
        pid: u32,
        timestamp: Timestamp,
        status: &str,
        io: Option<&str>,
        fd_count: Option<u32>,
    ) -> (r: ProcessMetrics)
        requires
            memory_fits(status@),
        ensures
            is_snapshot(r, pid, timestamp, status@, io, fd_count),
    {
        proc_snapshot(pid, timestamp, status, io, fd_count)
    }

    /// The state of a service: active where its process was found and is alive.
    pub fn service_state(&self, found: bool, alive: bool) -> (r: ServiceActive)
        ensures
            r == if found && alive {
                ServiceActive::Active
            } else {
                ServiceActive::Inactive
            },
    {
        if found && alive {
            ServiceActive::Active
        } else {
            ServiceActive::Inactive
        }
    }

    /// No-op — containers don't have a "failed" state to reset.
    pub fn reset_failed_service(&self, service: &str) -> (r: Result<(), String>)
        ensures
            r is Ok,
    {
        Ok(())
    }

    /// No-op — there is no systemd socket.
    pub fn notify_ready(&self) -> (r: Result<(), String>)
        ensures
            r is Ok,
    {
        Ok(())
    }

    /// No-op — there is no systemd socket.
    pub fn notify_watchdog(&self) -> (r: Result<(), String>)
        ensures
            r is Ok,
    {
        Ok(())
    }

    /// No-op — there is no systemd socket.
    pub fn notify_stopping(&self) -> (r: Result<(), String>)
        ensures
            r is Ok,
    {
        Ok(())
    }

    /// Services cannot be installed in a container.
    pub fn install_service(&self, name: &str, content: &str) -> (r: Result<(), String>)
        ensures
            r matches Err(e) && e@ == refusal(
                "install_service"@,
                name@,
                "not supported in container mode — use container runtime (Docker, Podman) to manage services"@,
            ),
    {
        Err(
            refuse(
                "install_service",
                name,
                "not supported in container mode — use container runtime (Docker, Podman) to manage services",
            ),
        )
    }

    /// Services cannot be uninstalled in a container.
    pub fn uninstall_service(&self, name: &str) -> (r: Result<(), String>)
        ensures
            r matches Err(e) && e@ == refusal(
                "uninstall_service"@,
                name@,
                "not supported in container mode"@,
            ),
    {
        Err(refuse("uninstall_service", name, "not supported in container mode"))
    }

    /// Services cannot be enabled in a container.
    pub fn enable_service(&self, name: &str) -> (r: Result<(), String>)
        ensures
            r matches Err(e) && e@ == refusal(
                "enable_service"@,
                name@,
                "not supported in container mode"@,
            ),
    {
        Err(refuse("enable_service", name, "not supported in container mode"))
    }

    /// Users cannot be created in a container.
    pub fn create_system_user(&self, name: &str, home: &str) -> (r: Result<(), String>)
        ensures
            r matches Err(e) && e@ == refusal(
                "create_system_user"@,
                name@,
                "not supported in container mode — add users in the Dockerfile/Containerfile instead"@,
            ),
    {
        Err(
            refuse(
                "create_system_user",
                name,
                "not supported in container mode — add users in the Dockerfile/Containerfile instead",
            ),
        )
    }

    /// Users cannot be deleted in a container.
    pub fn delete_user(&self, name: &str) -> (r: Result<(), String>)
        ensures
            r matches Err(e) && e@ == refusal(
                "delete_user"@,
                name@,
                "not supported in container mode"@,
            ),
    {
        Err(refuse("delete_user", name, "not supported in container mode"))
    }
}

/// A process is that of the service where it is neither the first process nor
/// the asking one, and its command line holds the name; the first such process
/// is taken.
pub proof fn law_first_process_of_the_name(
    entries: Seq<ProcEntry>,
    own: u32,
    name: Seq<char>,
    from: int,
    k: int,
)
    requires
        0 <= from <= k <= entries.len(),
        forall|i: int| from <= i < k ==> !runs(#[trigger] entries[i], own, name),
    ensures
        k < entries.len() && runs(entries[k], own, name) ==> (running(entries, own, name, from)
            matches Some(p) && number(entries[k].0@, u32::MAX as nat) == Some(p as nat) && p > 1 && p
            != own),
        k == entries.len() ==> running(entries, own, name, from) is None,
    decreases k - from,
{
    if from < k {
        assert(!runs(entries[from], own, name));
        law_first_process_of_the_name(entries, own, name, from + 1, k);
    }
}

/// A process is found by its command line, the words of which are separated by
/// NULs there and by spaces in the name.
pub proof fn law_command_line_is_searched(pid: u32, own: u32, name: Seq<char>, entry: ProcEntry)
    requires
        entry.0@ == crate::util::text::decimal(pid as nat),
    ensures
        runs(entry, own, name) <==> pid > 1 && pid != own && entry.1 is Some && holds_text(
            replaced_char((entry.1->0)@, '\0', ' '),
            name,
        ),
{
    crate::util::text::lemma_decimal_reads_back(pid as nat);
}

/// The name of the process may hold anything: the fields begin behind its last
/// closing parenthesis.
pub proof fn law_fields_follow_the_last_parenthesis(head: Seq<char>, rest: Seq<char>)
    requires
        forall|i: int| 0 <= i < rest.len() ==> #[trigger] rest[i] != ')',
    ensures
        stat_fields(head.push(')').push(' ') + rest) == words(rest),
{
    let s = head.push(')').push(' ') + rest;
    lemma_last_paren(s, s.len() as int, head.len() as int);
    assert(s.skip(head.len() as int + 2) =~= rest);
}

/// The last parenthesis is the one behind which there is no other.
proof fn lemma_last_paren(s: Seq<char>, j: int, p: int)
    requires
        0 <= p < j <= s.len(),
        s[p] == ')',
        forall|i: int| p < i < j ==> #[trigger] s[i] != ')',
    ensures
        last_paren(s, j) == Some(p),
    decreases j,
{
    if p < j - 1 {
        assert(s[j - 1] != ')');
        lemma_last_paren(s, j - 1, p);
    }
}

} // verus!
