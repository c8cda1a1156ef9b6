//! macOS + launchd: what `launchctl`, `ps` and `dscl` say, and what to ask them.

use crate::platform::command::{command, line, strs, CommandLine, CommandLineView};
use crate::platform::{ProcessMetrics, ServiceActive};
use crate::util::text::{
    begins, ends, ends_in, contains, holds_text, lines, lines_of, lowercase, number, parse, parse_or,
    pieces, same, show, split, starts, strip_suffix, to_lower, trim, trim_end, trim_white, trimmed_end,
    views, without_suffix, words, words_of, Class,
};
use crate::util::time_fmt::Timestamp;
use vstd::prelude::*;

pub use crate::platform::etime::parse_etime;

verus! {

/// macOS platform implementation backed by launchd.
pub struct MacOSLaunchd;

/// The launchd label of a service: its name without the suffix of systemd or
/// launchd, below `com.outerclaw`.
pub open spec fn label_of(service: Seq<char>) -> Seq<char> {
    "com.outerclaw."@ + if ends(service, ".service"@) {
        without_suffix(service, ".service"@)
    } else {
        without_suffix(service, ".plist"@)
    }
}

/// A positive process number.
pub open spec fn pid_number(s: Seq<char>) -> Option<u32> {
    match number(s, u32::MAX as nat) {
        Some(n) => if n > 0 {
            Some(n as u32)
        } else {
            None
        },
        None => None,
    }
}

/// A positive process number.
pub fn read_pid(s: &str) -> (r: Option<u32>)
    ensures
        r == pid_number(s@),
{
    match parse(s, 4294967295) {
        Some(n) => if n > 0 {
            Some(n as u32)
        } else {
            None
        },
        None => None,
    }
}

/// The process in a line such as `"PID" = 12345;`.
pub open spec fn pid_value(l: Seq<char>) -> Option<u32> {
    let t = trim_white(l);
    let ps = pieces(t, '=');
    if (begins(t, "\"PID\""@) || begins(t, "PID"@)) && ps.len() > 1 {
        pid_number(trim_white(trimmed_end(trim_white(ps[1]), Class::Is(';'))))
    } else {
        None
    }
}

/// The process in a line such as `12345 0 <label>`.
pub open spec fn pid_column(l: Seq<char>, label: Seq<char>) -> Option<u32> {
    let ws = words(l);
    if ws.len() >= 3 && ws[2] == label {
        pid_number(ws[0])
    } else {
        None
    }
}

/// The first process in the lines from `i` on, written as a value.
pub open spec fn listed_value(ls: Seq<Seq<char>>, i: int) -> Option<u32>
    decreases ls.len() - i,
{
    if i < 0 || i >= ls.len() {
        None
    } else {
        match pid_value(ls[i]) {
            Some(p) => Some(p),
            None => listed_value(ls, i + 1),
        }
    }
}

/// The first process in the lines from `i` on, written as a column.
pub open spec fn listed_column(ls: Seq<Seq<char>>, label: Seq<char>, i: int) -> Option<u32>
    decreases ls.len() - i,
{
    if i < 0 || i >= ls.len() {
        None
    } else {
        match pid_column(ls[i], label) {
            Some(p) => Some(p),
            None => listed_column(ls, label, i + 1),
        }
    }
}

/// The process of a service in the output of `launchctl list`.
pub open spec fn listed_pid(output: Seq<char>, label: Seq<char>) -> Option<u32> {
    match listed_value(lines(output), 0) {
        Some(p) => Some(p),
        None => listed_column(lines(output), label, 0),
    }
}

/// The state that a word of `launchctl print` means.
pub open spec fn state_word(word: Seq<char>) -> ServiceActive {
    if word == "running"@ {
        ServiceActive::Active
    } else if word == "waiting"@ || word == "not running"@ {
        ServiceActive::Inactive
    } else {
        ServiceActive::Unknown
    }
}

/// The state that a word of `launchctl print` means.
pub fn state_of_word(word: &str) -> (r: ServiceActive)
    ensures
        r == state_word(word@),
{
    if same(word, "running") {
        ServiceActive::Active
    } else if same(word, "waiting") || same(word, "not running") {
        ServiceActive::Inactive
    } else {
        ServiceActive::Unknown
    }
}

/// The value of the first line at or after `i` that tells the state.
pub open spec fn printed_state(ls: Seq<Seq<char>>, i: int) -> Option<Seq<char>>
    decreases ls.len() - i,
{
    if i < 0 || i >= ls.len() {
        None
    } else {
        let t = trim_white(ls[i]);
        if begins(t, "state ="@) || begins(t, "state="@) {
            let ps = pieces(t, '=');
            Some(
                if ps.len() > 1 {
                    trim_white(ps[1])
                } else {
                    Seq::empty()
                },
            )
        } else {
            printed_state(ls, i + 1)
        }
    }
}

/// The value of the first line that tells the state.
fn find_state(output: &str) -> (r: Option<String>)
    ensures
        match r {
            Some(v) => printed_state(lines(output@), 0) == Some(v@),
            None => printed_state(lines(output@), 0) is None,
        },
{
    let ls = lines_of(output);
    let mut i: usize = 0;
    while i < ls.len()
        invariant
            views(ls@) == lines(output@),
            i <= ls@.len(),
            printed_state(lines(output@), 0) == printed_state(lines(output@), i as int),
        decreases ls@.len() - i,
    {
        assert(views(ls@)[i as int] == ls@[i as int]@);
        let t = trim(ls[i].as_str());
        if starts(t, "state =") || starts(t, "state=") {
            let ps = split(t, '=');
            if ps.len() > 1 {
                assert(views(ps@)[1] == ps@[1]@);
                return Some(trim(ps[1].as_str()).to_owned());
            } else {
                return Some(String::new());
            }
        }
        i += 1;
    }
    None
}

/// The low 32 bits of a count.
pub fn low_bits(n: usize) -> (r: u32)
    ensures
        r == n as int % 0x1_0000_0000,
{
    (n as u64 % 0x1_0000_0000) as u32
}

/// How many lines follow the first.
pub open spec fn rows(output: Seq<char>) -> int {
    if lines(output).len() == 0 {
        0
    } else {
        lines(output).len() - 1
    }
}

/// How many lines follow the first.
pub fn count_rows(output: &str) -> (r: usize)
    ensures
        r == rows(output@),
{
    let ls = lines_of(output);
    assert(views(ls@).len() == ls@.len());
    if ls.len() == 0 {
        0
    } else {
        ls.len() - 1
    }
}

/// The columns of the process in the output of `ps`: the second line.
pub open spec fn ps_columns(output: Seq<char>) -> Seq<Seq<char>> {
    words(lines(output)[1])
}

/// The resident memory in the output of `ps`, in kilobytes.
pub open spec fn ps_kilobytes(output: Seq<char>) -> nat {
    number(ps_columns(output)[2], u64::MAX as nat).unwrap_or(0)
}

/// The resident memory in the output of `ps`, in bytes, fits in 64 bits.
pub open spec fn ps_fits(output: Seq<char>) -> bool {
    lines(output).len() >= 2 && ps_columns(output).len() >= 4 ==> ps_kilobytes(output) * 1024
        <= u64::MAX
}

/// The columns of the process in the output of `ps`.
pub fn read_columns(output: &str) -> (r: Option<Vec<String>>)
    ensures
        match r {
            Some(v) => lines(output@).len() >= 2 && views(v@) == ps_columns(output@),
            None => lines(output@).len() < 2,
        },
{
    let ls = lines_of(output);
    assert(views(ls@).len() == ls@.len());
    if ls.len() < 2 {
        None
    } else {
        assert(views(ls@)[1] == ls@[1]@);
        Some(words_of(ls[1].as_str()))
    }
}

/// Whether the resident memory in the output of `ps`, in bytes, fits in 64 bits.
pub fn is_ps_fitting(output: &str) -> (r: bool)
    ensures
        r == ps_fits(output@),
{
    match read_columns(output) {
        Some(cols) => {
            assert(views(cols@).len() == cols@.len());
            if cols.len() >= 4 {
                assert(views(cols@)[2] == cols@[2]@);
                parse_or(cols[2].as_str(), u64::MAX, 0) <= 18014398509481983
            } else {
                true
            }
        },
        None => true,
    }
}

/// The user number at the end of a line.
pub open spec fn uid_in(l: Seq<char>) -> Option<nat> {
    let ws = words(l);
    if ws.len() > 0 {
        number(ws.last(), u32::MAX as nat)
    } else {
        None
    }
}

/// The user number `uid` stands at the end of some line.
pub open spec fn uid_used(ls: Seq<Seq<char>>, uid: nat) -> bool {
    exists|i: int| 0 <= i < ls.len() && #[trigger] uid_in(ls[i]) == Some(uid)
}

/// The user numbers at the ends of the lines.
fn used_uids(output: &str) -> (r: Vec<u32>)
    ensures
        forall|uid: u32| r@.contains(uid) <==> uid_used(lines(output@), uid as nat),
{
    let ls = lines_of(output);
    let mut r: Vec<u32> = Vec::new();
    let mut i: usize = 0;
    while i < ls.len()
        invariant
            views(ls@) == lines(output@),
            i <= ls@.len(),
            forall|uid: u32|
                r@.contains(uid) <==> exists|k: int|
                    0 <= k < i && #[trigger] uid_in(lines(output@)[k]) == Some(uid as nat),
        decreases ls@.len() - i,
    {
        assert(views(ls@)[i as int] == ls@[i as int]@);
        let ws = words_of(ls[i].as_str());
        let ghost before = r@;
        let ghost l = lines(output@)[i as int];
        if ws.len() > 0 {
            assert(views(ws@).last() == ws@[ws@.len() - 1]@);
            if let Some(n) = parse(ws[ws.len() - 1].as_str(), 4294967295) {
                let uid: u32 = n as u32;
                r.push(uid);
                assert(uid_in(l) == Some(uid as nat));
                assert forall|u: u32| r@.contains(u) implies exists|k: int|
                    0 <= k < i + 1 && #[trigger] uid_in(lines(output@)[k]) == Some(u as nat) by {
                    if u == uid {
                        assert(uid_in(lines(output@)[i as int]) == Some(u as nat));
                    } else {
                        let j = r@.index_of(u);
                        assert(before[j] == u);
                        assert(before.contains(u));
                        let k = choose|k: int|
                            0 <= k < i && #[trigger] uid_in(lines(output@)[k]) == Some(u as nat);
                        assert(uid_in(lines(output@)[k]) == Some(u as nat));
                    }
                }
                assert forall|u: u32|
                    (exists|k: int|
                        0 <= k < i + 1 && #[trigger] uid_in(lines(output@)[k]) == Some(
                            u as nat,
                        )) implies r@.contains(u) by {
                    let k = choose|k: int|
                        0 <= k < i + 1 && #[trigger] uid_in(lines(output@)[k]) == Some(u as nat);
                    if k < i {
                        assert(before.contains(u));
                        let j = before.index_of(u);
                        assert(r@[j] == u);
                    } else {
                        assert(r@[before.len() as int] == u);
                    }
                }
            }
        }
        assert(uid_in(l) is None ==> r@ == before);
        i += 1;
    }
    r
}

/// The next free user number at or after `from`, below 500.
pub open spec fn free_uid(ls: Seq<Seq<char>>, from: int) -> Option<int>
    decreases 500 - from,
{
    if from >= 500 {
        None
    } else if uid_used(ls, from as nat) {
        free_uid(ls, from + 1)
    } else {
        Some(from)
    }
}

/// Find the next available system UID (range 400-499 on macOS), given the
/// output of `dscl . -list /Users UniqueID`.
pub fn find_next_system_uid(output: &str) -> (r: Result<u32, String>)
    ensures
        match r {
            Ok(uid) => free_uid(lines(output@), 400) == Some(uid as int),
            Err(e) => free_uid(lines(output@), 400) is None && e@
                == "No available system UIDs in range 400-499"@,
        },
{
    let used = used_uids(output);
    let mut uid: u32 = 400;
    while uid < 500
        invariant
            400 <= uid <= 500,
            forall|u: u32| used@.contains(u) <==> uid_used(lines(output@), u as nat),
            free_uid(lines(output@), 400) == free_uid(lines(output@), uid as int),
        decreases 500 - uid,
    {
        let mut taken = false;
        let mut i: usize = 0;
        while i < used.len()
            invariant
                i <= used@.len(),
                taken <==> exists|k: int| 0 <= k < i && used@[k] == uid,
            decreases used@.len() - i,
        {
            if used[i] == uid {
                taken = true;
            }
            i += 1;
        }
        assert(taken == used@.contains(uid));
        if !taken {
            return Ok(uid);
        }
        uid += 1;
    }
    Err("No available system UIDs in range 400-499".to_owned())
}

/// The command that gives a user record a value.
pub open spec fn dscl_set(path: Seq<char>, key: Seq<char>, value: Seq<char>) -> CommandLineView {
    line("sudo"@, seq!["dscl"@, "."@, "-create"@, path, key, value])
}

/// The command that gives a user record a value.
fn set_value(path: &str, key: &str, value: &str) -> (r: CommandLine)
    ensures
        r@ == dscl_set(path@, key@, value@),
{
    let args = vec!["dscl", ".", "-create", path, key, value];
    assert(strs(args@) =~= seq!["dscl"@, "."@, "-create"@, path@, key@, value@]);
    command("sudo", args)
}

/// The views of commands.
pub open spec fn command_views(v: Seq<CommandLine>) -> Seq<CommandLineView> {
    Seq::new(v.len(), |i: int| v[i]@)
}

impl MacOSLaunchd {
    /// Create a new instance.
    pub fn new() -> (r: Self)
        ensures
            r == MacOSLaunchd,
    {
        MacOSLaunchd
    }

    /// The name of the platform.
    pub fn platform_name(&self) -> (r: &'static str)
        ensures
            r@ == "macos-launchd"@,
    {
        "macos-launchd"
    }

    /// Derive the launchd label from a service name.
    ///
    /// Converts systemd-style names like "oc-outerclaw.service" to launchd
    /// labels like "com.outerclaw.oc-outerclaw".
    pub fn service_to_label(service: &str) -> (r: String)
        ensures
            r@ == label_of(service@),
    {
        let base = if ends_in(service, ".service") {
            strip_suffix(service, ".service")
        } else {
            strip_suffix(service, ".plist")
        };
        let mut r = "com.outerclaw.".to_owned();
        r.append(base);
        r
    }

    /// Path to the plist for a given label.
    pub fn plist_path(label: &str) -> (r: String)
        ensures
            r@ == "/Library/LaunchDaemons/"@ + label@ + ".plist"@,
    {
        let mut r = "/Library/LaunchDaemons/".to_owned();
        r.append(label);
        r.append(".plist");
        r
    }

    /// The command `launchctl list <label>`.
    pub fn launchctl_list(&self, label: &str) -> (r: CommandLine)
        ensures
            r@ == line("launchctl"@, seq!["list"@, label@]),
    {
        let args = vec!["list", label];
        assert(strs(args@) =~= seq!["list"@, label@]);
        command("launchctl", args)
    }

    /// The command `launchctl print system/<label>`.
    pub fn launchctl_print(&self, label: &str) -> (r: CommandLine)
        ensures
            r@ == line("launchctl"@, seq!["print"@, "system/"@ + label@]),
    {
        let mut target = "system/".to_owned();
        target.append(label);
        let args = vec!["print", target.as_str()];
        assert(strs(args@) =~= seq!["print"@, "system/"@ + label@]);
        command("launchctl", args)
    }

    /// The process of a service, from the output of `launchctl list <label>`:
    /// a value `"PID" = 12345;`, or the first column of the label's row.
    pub fn find_service_pid(&self, output: &str, label: &str) -> (r: Option<u32>)
        ensures
            r == listed_pid(output@, label@),
    {
        let ls = lines_of(output);
        let mut i: usize = 0;
        while i < ls.len()
            invariant
                views(ls@) == lines(output@),
                i <= ls@.len(),
                listed_value(lines(output@), 0) == listed_value(lines(output@), i as int),
            decreases ls@.len() - i,
        {
            assert(views(ls@)[i as int] == ls@[i as int]@);
            let t = trim(ls[i].as_str());
            if starts(t, "\"PID\"") || starts(t, "PID") {
                let ps = split(t, '=');
                if ps.len() > 1 {
                    assert(views(ps@)[1] == ps@[1]@);
                    let cleaned = trim(trim_end(trim(ps[1].as_str()), Class::Is(';')));
                    if let Some(pid) = read_pid(cleaned) {
                        return Some(pid);
                    }
                }
            }
            i += 1;
        }
        let mut k: usize = 0;
        while k < ls.len()
            invariant
                views(ls@) == lines(output@),
                k <= ls@.len(),
                listed_value(lines(output@), 0) is None,
                listed_column(lines(output@), label@, 0) == listed_column(
                    lines(output@),
                    label@,
                    k as int,
                ),
            decreases ls@.len() - k,
        {
            assert(views(ls@)[k as int] == ls@[k as int]@);
            let ws = words_of(ls[k].as_str());
            if ws.len() >= 3 {
                assert(views(ws@)[0] == ws@[0]@);
                assert(views(ws@)[2] == ws@[2]@);
                if same(ws[2].as_str(), label) {
                    if let Some(pid) = read_pid(ws[0].as_str()) {
                        return Some(pid);
                    }
                }
            }
            k += 1;
        }
        None
    }

    /// The command that asks `ps` for a process.
    pub fn ps_command(&self, pid: u32) -> (r: CommandLine)
        ensures
            r@ == line(
                "/bin/ps"@,
                seq![
                    "-o"@,
                    "pid,state,rss,vsz,wq"@,
                    "-p"@,
                    crate::util::text::decimal(pid as nat),
                ],
            ),
    {
        let p = show(pid as u64);
        let args = vec!["-o", "pid,state,rss,vsz,wq", "-p", p.as_str()];
        assert(strs(args@) =~= seq![
            "-o"@,
            "pid,state,rss,vsz,wq"@,
            "-p"@,
            crate::util::text::decimal(pid as nat),
        ]);
        command("/bin/ps", args)
    }

    /// The metrics of a process, from the output of `ps` (`None` where the
    /// command failed) and that of `ps -M`, which lists its threads. None where
    /// there is no such process.
    pub fn collect_proc_metrics(
        &self,
        pid: u32,
        timestamp: Timestamp,
        ps: Option<&str>,
        threads: Option<&str>,
    ) -> (r: Option<ProcessMetrics>)
        requires
            ps matches Some(o) ==> ps_fits(o@),
        ensures
            match ps {
                Some(o) => if lines(o@).len() < 2 {
                    r is None
                } else {
                    r matches Some(m) && is_ps_snapshot(m, pid, timestamp, o@, threads)
                },
                None => r is None,
            },
    {
        let output = match ps {
            Some(o) => o,
            None => return None,
        };
        let cols = match read_columns(output) {
            Some(c) => c,
            None => return None,
        };
        assert(views(cols@).len() == cols@.len());
        let mut m = ProcessMetrics::at(pid, timestamp);
        if cols.len() >= 4 {
            assert(views(cols@)[1] == cols@[1]@);
            assert(views(cols@)[2] == cols@[2]@);
            m.state = cols[1].clone();
            // RSS is in KB on macOS ps
            let kb: u64 = parse_or(cols[2].as_str(), u64::MAX, 0);
            m.rss_bytes = kb * 1024;
        }
        if let Some(t) = threads {
            // Each line after the header is a thread
            m.threads = low_bits(count_rows(t));
        }
        Some(m)
    }

    /// The state of a service, from the output of `launchctl print` (`None`
    /// where it failed) and whether its plist exists.
    pub fn service_state(&self, printed: Option<&str>, plist: bool) -> (r: ServiceActive)
        ensures
            r == match printed {
                Some(o) => match printed_state(lines(o@), 0) {
                    Some(v) => state_word(lowercase(v)),
                    None => if holds_text(o@, "\"PID\""@) {
                        ServiceActive::Active
                    } else {
                        ServiceActive::Unknown
                    },
                },
                None => if plist {
                    ServiceActive::Inactive
                } else {
                    ServiceActive::Unknown
                },
            },
    {
        match printed {
            Some(o) => match find_state(o) {
                Some(v) => state_of_word(to_lower(v.as_str()).as_str()),
                // If we got output but no state line, check for PID presence
                None => if contains(o, "\"PID\"") {
                    ServiceActive::Active
                } else {
                    ServiceActive::Unknown
                },
            },
            // Service not loaded or doesn't exist
            None => if plist {
                ServiceActive::Inactive
            } else {
                ServiceActive::Unknown
            },
        }
    }

    /// The command that restarts a service.
    pub fn restart_service(&self, service: &str) -> (r: CommandLine)
        ensures
            r@ == line(
                "sudo"@,
                seq!["launchctl"@, "kickstart"@, "-k"@, "system/"@ + label_of(service@)],
            ),
    {
        let mut target = "system/".to_owned();
        target.append(MacOSLaunchd::service_to_label(service).as_str());
        let args = vec!["launchctl", "kickstart", "-k", target.as_str()];
        assert(strs(args@) =~= seq![
            "launchctl"@,
            "kickstart"@,
            "-k"@,
            "system/"@ + label_of(service@),
        ]);
        command("sudo", args)
    }

    /// The command that sends a signal to a service.
    pub fn signal_service(&self, signal: &str, service: &str) -> (r: CommandLine)
        ensures
            r@ == line(
                "sudo"@,
                seq!["launchctl"@, "kill"@, signal@, "system/"@ + label_of(service@)],
            ),
    {
        let mut target = "system/".to_owned();
        target.append(MacOSLaunchd::service_to_label(service).as_str());
        let args = vec!["launchctl", "kill", signal, target.as_str()];
        assert(strs(args@) =~= seq![
            "launchctl"@,
            "kill"@,
            signal@,
            "system/"@ + label_of(service@),
        ]);
        command("sudo", args)
    }

    /// The command that stops a service.
    pub fn stop_service(&self, service: &str) -> (r: CommandLine)
        ensures
            r@ == line(
                "sudo"@,
                seq!["launchctl"@, "kill"@, "SIGTERM"@, "system/"@ + label_of(service@)],
            ),
    {
        self.signal_service("SIGTERM", service)
    }

    /// The command that kills a service.
    pub fn kill_service(&self, service: &str) -> (r: CommandLine)
        ensures
            r@ == line(
                "sudo"@,
                seq!["launchctl"@, "kill"@, "SIGKILL"@, "system/"@ + label_of(service@)],
            ),
    {
        self.signal_service("SIGKILL", service)
    }

    /// Launchd has no "failed" state that needs resetting.
    pub fn reset_failed_service(&self, service: &str) -> (r: Result<(), String>)
        ensures
            r is Ok,
    {
        Ok(())
    }

    /// The command that sets or clears the immutable flag of a file.
    pub fn set_immutable(&self, path: &str, immutable: bool) -> (r: CommandLine)
        ensures
            r@ == line(
                "chflags"@,
                seq![
                    if immutable {
                        "uchg"@
                    } else {
                        "nouchg"@
                    },
                    path@,
                ],
            ),
    {
        let flag = if immutable {
            "uchg"
        } else {
            "nouchg"
        };
        let args = vec![flag, path];
        assert(strs(args@) =~= seq![flag@, path@]);
        command("chflags", args)
    }

    /// macOS has no PSI subsystem.
    pub fn io_pressure_avg10(&self) -> (r: Option<String>)
        ensures
            r is None,
    {
        None
    }

    /// No-op — there is no systemd socket.
    pub fn notify_ready(&self) -> (r: Result<(), String>)
        ensures
            r is Ok,
    {
        Ok(())
    }

    /// No-op — there is no systemd socket.
    pub fn notify_watchdog(&self) -> (r: Result<(), String>)
        ensures
            r is Ok,
    {
        Ok(())
    }

    /// No-op — there is no systemd socket.
    pub fn notify_stopping(&self) -> (r: Result<(), String>)
        ensures
            r is Ok,
    {
        Ok(())
    }

    /// The command that loads a plist, and so enables its service.
    pub fn load_plist(&self, plist: &str) -> (r: CommandLine)
        ensures
            r@ == line("sudo"@, seq!["launchctl"@, "load"@, "-w"@, plist@]),
    {
        let args = vec!["launchctl", "load", "-w", plist];
        assert(strs(args@) =~= seq!["launchctl"@, "load"@, "-w"@, plist@]);
        command("sudo", args)
    }

    /// The command that unloads a plist.
    pub fn unload_plist(&self, plist: &str) -> (r: CommandLine)
        ensures
            r@ == line("sudo"@, seq!["launchctl"@, "unload"@, "-w"@, plist@]),
    {
        let args = vec!["launchctl", "unload", "-w", plist];
        assert(strs(args@) =~= seq!["launchctl"@, "unload"@, "-w"@, plist@]);
        command("sudo", args)
    }

    /// The command that enables a service, where its plist is installed.
    pub fn enable_service(&self, name: &str, installed: bool) -> (r: Result<CommandLine, String>)
        ensures
            ({
                let plist = "/Library/LaunchDaemons/"@ + label_of(name@) + ".plist"@;
                match r {
                    Ok(c) => installed && c@ == line(
                        "sudo"@,
                        seq!["launchctl"@, "load"@, "-w"@, plist],
                    ),
                    Err(e) => !installed && e@ == "Plist not found: "@ + plist
                        + ". Install the service first."@,
                }
            }),
    {
        let label = MacOSLaunchd::service_to_label(name);
        let plist = MacOSLaunchd::plist_path(label.as_str());
        if installed {
            Ok(self.load_plist(plist.as_str()))
        } else {
            let mut e = "Plist not found: ".to_owned();
            e.append(plist.as_str());
            e.append(". Install the service first.");
            Err(e)
        }
    }

    /// The commands that create the record of a service user, in order.
    pub fn create_system_user(&self, name: &str, uid: u32, home: &str) -> (r: Vec<CommandLine>)
        ensures
            command_views(r@) == user_record(name@, uid, home@),
    {
        let mut path = "/Users/".to_owned();
        path.append(name);
        let uid_text = show(uid as u64);
        let mut real_name = "OuterClaw ".to_owned();
        real_name.append(name);
        real_name.append(" service");
        let create = vec!["dscl", ".", "-create", path.as_str()];
        assert(strs(create@) =~= seq!["dscl"@, "."@, "-create"@, path@]);
        let r = vec![
            command("sudo", create),
            set_value(path.as_str(), "UserShell", "/usr/bin/false"),
            set_value(path.as_str(), "UniqueID", uid_text.as_str()),
            set_value(path.as_str(), "PrimaryGroupID", "20"),
            set_value(path.as_str(), "NFSHomeDirectory", home),
            set_value(path.as_str(), "RealName", real_name.as_str()),
        ];
        assert(command_views(r@) =~= user_record(name@, uid, home@));
        r
    }
}

/// The commands that create the record of a service user.
pub open spec fn user_record(name: Seq<char>, uid: u32, home: Seq<char>) -> Seq<CommandLineView> {
    let path = "/Users/"@ + name;
    seq![
        line("sudo"@, seq!["dscl"@, "."@, "-create"@, path]),
        dscl_set(path, "UserShell"@, "/usr/bin/false"@),
        dscl_set(path, "UniqueID"@, crate::util::text::decimal(uid as nat)),
        dscl_set(path, "PrimaryGroupID"@, "20"@),
        dscl_set(path, "NFSHomeDirectory"@, home),
        dscl_set(path, "RealName"@, "OuterClaw "@ + name + " service"@),
    ]
}

/// The metrics hold what `ps` tells of the process.
pub open spec fn is_ps_snapshot(
    m: ProcessMetrics,
    pid: u32,
    timestamp: Timestamp,
    ps: Seq<char>,
    threads: Option<&str>,
) -> bool {
    &&& m.pid == pid
    &&& m.timestamp == timestamp
    &&& m.read_bytes == 0
    &&& m.write_bytes == 0
    &&& m.voluntary_ctxt_switches == 0
    &&& m.nonvoluntary_ctxt_switches == 0
    &&& m.fd_count == 0
    &&& if ps_columns(ps).len() >= 4 {
        m.state@ == ps_columns(ps)[1] && m.rss_bytes == ps_kilobytes(ps) * 1024
    } else {
        m.state@ == Seq::<char>::empty() && m.rss_bytes == 0
    }
    &&& m.threads == match threads {
        Some(t) => rows(t@) % 0x1_0000_0000,
        None => 0,
    }
}

/// A service's label holds its name without the ending.
pub proof fn law_label_holds_the_name(name: Seq<char>)
    ensures
        label_of(name + ".service"@) == "com.outerclaw."@ + name,
        label_of(name + ".plist"@) == "com.outerclaw."@ + name,
{
    reveal_strlit(".service");
    reveal_strlit(".plist");
    let (a, b) = (name + ".service"@, name + ".plist"@);
    assert(a.subrange(name.len() as int, a.len() as int) =~= ".service"@);
    assert(b.subrange(name.len() as int, b.len() as int) =~= ".plist"@);
    assert(a.take(name.len() as int) =~= name);
    assert(b.take(name.len() as int) =~= name);
    if ends(b, ".service"@) {
        assert(b.subrange(b.len() - 8, b.len() as int)[7] == b.last());
        assert(b.last() == ".plist"@[5]);
    }
}

/// A process number is read as it is written, and 0 is none.
pub proof fn law_pid_is_read(n: u32)
    ensures
        n > 0 ==> pid_number(crate::util::text::decimal(n as nat)) == Some(n),
        n == 0 ==> pid_number(crate::util::text::decimal(n as nat)) is None,
{
    crate::util::text::lemma_decimal_reads_back(n as nat);
}

/// In the list of all services, the process is that of the first line on the
/// label: its first word. Other services' lines are passed over.
pub proof fn law_pid_of_the_label(ls: Seq<Seq<char>>, label: Seq<char>, from: int, k: int)
    requires
        0 <= from <= k < ls.len(),
        forall|i: int|
            from <= i < k ==> words(#[trigger] ls[i]).len() < 3 || words(ls[i])[2] != label,
        words(ls[k]).len() >= 3,
        words(ls[k])[2] == label,
        pid_number(words(ls[k])[0]) is Some,
    ensures
        listed_column(ls, label, from) == pid_number(words(ls[k])[0]),
    decreases k - from,
{
    if from < k {
        assert(words(ls[from]).len() < 3 || words(ls[from])[2] != label);
        law_pid_of_the_label(ls, label, from + 1, k);
    }
}

/// A new user gets the first number that nobody has, and none only where all
/// numbers below 500 are taken.
pub proof fn law_first_free_number(ls: Seq<Seq<char>>, from: int, k: int)
    requires
        0 <= from,
    ensures
        free_uid(ls, from) matches Some(u) ==> from <= u < 500 && !uid_used(ls, u as nat),
        from <= k < 500 && !uid_used(ls, k as nat) ==> (free_uid(ls, from) matches Some(u) && u
            <= k),
    decreases 500 - from,
{
    if from < 500 {
        law_first_free_number(ls, from + 1, k);
    }
}

/// The description of a service tells its process in the line `"PID" = <n>;`.
pub proof fn law_pid_line_is_read(n: u32)
    requires
        n > 0,
    ensures
        pid_value("\"PID\" = "@ + crate::util::text::decimal(n as nat) + ";"@) == Some(n),
{
    let d = crate::util::text::decimal(n as nat);
    crate::util::text::lemma_decimal_reads_back(n as nat);
    reveal_strlit("\"PID\" = ");
    reveal_strlit("\"PID\"");
    reveal_strlit(";");
    let l = "\"PID\" = "@ + d + ";"@;
    assert(l[0] == '"' && l.last() == ';');
    crate::util::text::lemma_nothing_to_trim(l, Class::White);
    assert(l.subrange(0, 5) =~= "\"PID\""@);
    assert(begins(l, "\"PID\""@));
    let rest = " "@ + d + ";"@;
    reveal_strlit(" ");
    crate::util::text::lemma_upto_is(l, Class::Is('='), 0, 6);
    assert forall|j: int| 7 <= j < l.len() implies !Class::Is('=').holds(#[trigger] l[j]) by {
        if 8 <= j < l.len() - 1 {
            assert(l[j] == d[j - 8]);
            assert(crate::util::text::is_digit(d[j - 8]));
        }
    }
    crate::util::text::lemma_upto_is(l, Class::Is('='), 7, l.len() as int);
    reveal_with_fuel(crate::util::text::pieces_from, 3);
    assert(l.skip(7) =~= rest);
    assert(pieces(l, '=')[1] == rest);
    let t = d + ";"@;
    assert(crate::util::text::past(rest, Class::White, 1) == 1);
    assert(crate::util::text::past(rest, Class::White, 0) == 1) by {
        reveal_with_fuel(crate::util::text::past, 2);
    }
    assert(rest.skip(1) =~= t);
    crate::util::text::lemma_nothing_to_trim(t, Class::White);
    assert(trim_white(rest) == t);
    assert(crate::util::text::back(t, Class::Is(';'), d.len() as int) == d.len()) by {
        assert(crate::util::text::is_digit(d[d.len() - 1]));
        assert(t[d.len() - 1] == d[d.len() - 1]);
    }
    assert(crate::util::text::back(t, Class::Is(';'), t.len() as int) == d.len());
    assert(t.take(d.len() as int) =~= d);
    crate::util::text::lemma_nothing_to_trim(d, Class::White);
}

/// Only the word `running` is that of an active service; one that waits, or does
/// not run, is inactive; of any other nothing is known.
pub proof fn law_running_is_active(word: Seq<char>)
    ensures
        state_word(word) == ServiceActive::Active <==> word == "running"@,
        state_word(word) == ServiceActive::Inactive <==> word == "waiting"@ || word == "not running"@,
        state_word(word) == ServiceActive::Unknown <==> word != "running"@ && word != "waiting"@
            && word != "not running"@,
{
    reveal_strlit("running");
    reveal_strlit("waiting");
    reveal_strlit("not running");
    assert("running"@[0] == 'r' && "waiting"@[0] == 'w' && "not running"@[0] == 'n');
}

/// Lines on anything else tell no process.
pub proof fn law_other_lines_tell_no_pid(l: Seq<char>)
    requires
        !begins(trim_white(l), "\"PID\""@),
        !begins(trim_white(l), "PID"@),
    ensures
        pid_value(l) is None,
{
}

/// A snapshot is of the process that was asked for, at the time it was taken;
/// the memory is told in kilobytes, and what the system does not tell is 0.
pub proof fn law_snapshot_is_of_the_process(
    m: ProcessMetrics,
    pid: u32,
    timestamp: Timestamp,
    ps: Seq<char>,
    threads: Option<&str>,
)
    requires
        is_ps_snapshot(m, pid, timestamp, ps, threads),
    ensures
        m.pid == pid,
        m.timestamp == timestamp,
        m.read_bytes == 0 && m.write_bytes == 0 && m.fd_count == 0,
        m.voluntary_ctxt_switches == 0 && m.nonvoluntary_ctxt_switches == 0,
        words(lines(ps)[1]).len() >= 4 ==> m.state@ == words(lines(ps)[1])[1] && m.rss_bytes
            == ps_kilobytes(ps) * 1024,
        words(lines(ps)[1]).len() < 4 ==> m.rss_bytes == 0,
        threads is None ==> m.threads == 0,
{
}

} // verus!
