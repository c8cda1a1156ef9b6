//! FreeBSD + rc.d: what `service`, `procstat`, `ps` and `pw` say, and what to
//! ask them.

use crate::platform::command::{
    command, expect_success, failure, line, strs, CommandLine, CommandOutput,
};
use crate::platform::macos::{
    count_rows, low_bits, pid_number, ps_columns, ps_fits, ps_kilobytes, read_columns, read_pid, rows,
};
use crate::platform::{ProcessMetrics, ServiceActive};
use crate::util::text::{
    contains, holds_text, lines, lines_of, number, parse, parse_or, show, strip_suffix, trim, trim_end,
    trim_white, trimmed_end, views, without_suffix, words, words_of, Class,
};
use crate::util::time_fmt::Timestamp;
use vstd::prelude::*;

pub use crate::platform::etime::parse_etime;

verus! {

/// FreeBSD platform implementation backed by rc.d.
pub struct FreeBSDRc;

/// The first process number among the words from `i` on, final dots left out.
pub open spec fn pid_in_words(ws: Seq<Seq<char>>, i: int) -> Option<u32>
    decreases ws.len() - i,
{
    if i < 0 || i >= ws.len() {
        None
    } else {
        match pid_number(trimmed_end(ws[i], Class::Is('.'))) {
            Some(p) => Some(p),
            None => pid_in_words(ws, i + 1),
        }
    }
}

/// The first process number in the lines from `i` on that speak of a pid.
pub open spec fn pid_in_lines(ls: Seq<Seq<char>>, i: int) -> Option<u32>
    decreases ls.len() - i,
{
    if i < 0 || i >= ls.len() {
        None
    } else if holds_text(ls[i], "pid"@) {
        match pid_in_words(words(ls[i]), 0) {
            Some(p) => Some(p),
            None => pid_in_lines(ls, i + 1),
        }
    } else {
        pid_in_lines(ls, i + 1)
    }
}

/// The first process number among the words of a line, final dots left out.
fn find_pid(l: &str) -> (r: Option<u32>)
    ensures
        r == pid_in_words(words(l@), 0),
{
    let ws = words_of(l);
    let mut i: usize = 0;
    while i < ws.len()
        invariant
            views(ws@) == words(l@),
            i <= ws@.len(),
            pid_in_words(words(l@), 0) == pid_in_words(words(l@), i as int),
        decreases ws@.len() - i,
    {
        assert(views(ws@)[i as int] == ws@[i as int]@);
        if let Some(pid) = read_pid(trim_end(ws[i].as_str(), Class::Is('.'))) {
            return Some(pid);
        }
        i += 1;
    }
    None
}

/// The pages in column `col` of a line, where that holds a number.
pub open spec fn pages_in(ws: Seq<Seq<char>>, col: int) -> Option<nat> {
    if ws.len() > col {
        number(ws[col], u64::MAX as nat)
    } else {
        None
    }
}

/// The resident pages in the first `n` lines of `procstat -r`, the heading left
/// out: the last number in the fourth column.
pub open spec fn procstat_pages(ls: Seq<Seq<char>>, n: int) -> Option<nat>
    decreases n,
{
    if n <= 1 {
        None
    } else {
        match pages_in(words(ls[n - 1]), 3) {
            Some(p) => Some(p),
            None => procstat_pages(ls, n - 1),
        }
    }
}

/// The resident memory, from `procstat -r` or else from `/proc/<pid>/status`, in pages.
pub open spec fn resident_pages(procstat: Option<&str>, status: Option<&str>) -> nat {
    match procstat {
        Some(o) => procstat_pages(lines(o@), lines(o@).len() as int).unwrap_or(0),
        None => match status {
            Some(s) => pages_in(words(s@), 7).unwrap_or(0),
            None => 0,
        },
    }
}

/// Every number of pages in a column of `procstat -r`, in bytes, fits in 64 bits.
pub open spec fn procstat_fits(procstat: Seq<char>) -> bool {
    forall|i: int|
        1 <= i < lines(procstat).len() ==> (pages_in(words(#[trigger] lines(procstat)[i]), 3)
            matches Some(p) ==> p * 4096 <= u64::MAX)
}

/// The memory of a process, in bytes, fits in 64 bits.
pub open spec fn usage_fits(
    procstat: Option<&str>,
    status: Option<&str>,
    ps: Option<&str>,
) -> bool {
    &&& procstat matches Some(o) ==> procstat_fits(o@)
    &&& procstat is None && status is Some ==> pages_in(words(status->0@), 7).unwrap_or(0) * 4096
        <= u64::MAX
    &&& ps is Some && resident_pages(procstat, status) == 0 ==> ps_fits(ps->0@)
}

/// Whether every number of pages in `procstat -r`, in bytes, fits in 64 bits.
fn is_procstat_fitting(procstat: &str) -> (r: bool)
    ensures
        r == procstat_fits(procstat@),
{
    let ls = lines_of(procstat);
    let mut i: usize = 1;
    while i < ls.len()
        invariant
            views(ls@) == lines(procstat@),
            1 <= i,
            forall|k: int|
                1 <= k < i && k < lines(procstat@).len() ==> (pages_in(
                    words(#[trigger] lines(procstat@)[k]),
                    3,
                ) matches Some(p) ==> p * 4096 <= u64::MAX),
        decreases ls@.len() - i,
    {
        assert(views(ls@)[i as int] == ls@[i as int]@);
        if let Some(p) = read_pages(ls[i].as_str(), 3) {
            if p > 4503599627370495 {
                assert(pages_in(words(lines(procstat@)[i as int]), 3) == Some(p as nat));
                return false;
            }
        }
        i += 1;
    }
    assert(views(ls@).len() == ls@.len());
    true
}

/// The pages in column `col` of a text, where that holds a number.
fn read_pages(s: &str, col: usize) -> (r: Option<u64>)
    ensures
        match r {
            Some(p) => pages_in(words(s@), col as int) == Some(p as nat),
            None => pages_in(words(s@), col as int) is None,
        },
{
    let ws = words_of(s);
    assert(views(ws@).len() == ws@.len());
    if ws.len() > col {
        assert(views(ws@)[col as int] == ws@[col as int]@);
        parse(ws[col].as_str(), u64::MAX)
    } else {
        None
    }
}

/// The resident memory in pages.
fn read_resident(procstat: Option<&str>, status: Option<&str>) -> (r: u64)
    ensures
        r == resident_pages(procstat, status),
{
    match procstat {
        Some(o) => {
            let ls = lines_of(o);
            let mut n: usize = ls.len();
            assert(views(ls@).len() == ls@.len());
            while n > 1
                invariant
                    procstat == Some(o),
                    views(ls@) == lines(o@),
                    n <= ls@.len(),
                    procstat_pages(lines(o@), lines(o@).len() as int) == procstat_pages(
                        lines(o@),
                        n as int,
                    ),
                decreases n,
            {
                assert(views(ls@)[n - 1] == ls@[n - 1]@);
                if let Some(p) = read_pages(ls[n - 1].as_str(), 3) {
                    return p;
                }
                n -= 1;
            }
            0
        },
        None => match status {
            Some(s) => match read_pages(s, 7) {
                Some(p) => p,
                None => 0,
            },
            None => 0,
        },
    }
}

/// Whether the memory of a process, in bytes, fits in 64 bits.
pub fn is_usage_fitting(procstat: Option<&str>, status: Option<&str>, ps: Option<&str>) -> (r: bool)
    ensures
        r == usage_fits(procstat, status, ps),
{
    if let Some(o) = procstat {
        if !is_procstat_fitting(o) {
            return false;
        }
    } else if let Some(s) = status {
        match read_pages(s, 7) {
            Some(p) => {
                if p > 4503599627370495 {
                    return false;
                }
            },
            None => {},
        }
    }
    if let Some(o) = ps {
        if read_resident(procstat, status) == 0 {
            return crate::platform::macos::is_ps_fitting(o);
        }
    }
    true
}

/// The number of threads: the rows of `procstat -t`, or else those of `ps -H`,
/// of which there is at least one.
pub open spec fn thread_count(procstat: Option<&str>, ps: Option<&str>) -> int {
    match procstat {
        Some(o) => rows(o@) % 0x1_0000_0000,
        None => match ps {
            Some(o) => if rows(o@) % 0x1_0000_0000 > 1 {
                rows(o@) % 0x1_0000_0000
            } else {
                1
            },
            None => 0,
        },
    }
}

/// What the commands about a process print; `None` where one fails.
pub struct ProcOutputs<'a> {
    /// `procstat -r`.
    pub usage: Option<&'a str>,
    /// `/proc/<pid>/status`.
    pub status: Option<&'a str>,
    /// `ps -o pid,state,rss,vsz -p`.
    pub ps: Option<&'a str>,
    /// `procstat -t`.
    pub threads: Option<&'a str>,
    /// `ps -H -p`.
    pub ps_threads: Option<&'a str>,
    /// `procstat -f`.
    pub files: Option<&'a str>,
}

/// The state and the memory of a process.
pub open spec fn state_and_memory(o: ProcOutputs) -> (Seq<char>, nat) {
    let pages = resident_pages(o.usage, o.status);
    match o.ps {
        Some(ps) => if lines(ps@).len() >= 2 && ps_columns(ps@).len() >= 4 {
            (
                ps_columns(ps@)[1],
                if pages == 0 {
                    ps_kilobytes(ps@) * 1024
                } else {
                    pages * 4096
                },
            )
        } else {
            (Seq::empty(), pages * 4096)
        },
        None => (Seq::empty(), pages * 4096),
    }
}

/// The metrics hold what the commands tell of the process.
pub open spec fn is_rc_snapshot(m: ProcessMetrics, pid: u32, timestamp: Timestamp, o: ProcOutputs) -> bool {
    &&& m.pid == pid
    &&& m.timestamp == timestamp
    &&& m.read_bytes == 0
    &&& m.write_bytes == 0
    &&& m.voluntary_ctxt_switches == 0
    &&& m.nonvoluntary_ctxt_switches == 0
    &&& (m.state@, m.rss_bytes as nat) == state_and_memory(o)
    &&& m.threads == thread_count(o.threads, o.ps_threads)
    &&& m.fd_count == match o.files {
        Some(f) => rows(f@) % 0x1_0000_0000,
        None => 0,
    }
}

/// The state that the exit code and the output of `service <name> status` mean.
pub open spec fn status_state(code: Option<i32>, stdout: Seq<char>, stderr: Seq<char>) -> ServiceActive {
    if code == Some(0i32) {
        ServiceActive::Active
    } else if code == Some(1i32) {
        if holds_text(stdout, "not running"@) {
            ServiceActive::Inactive
        } else {
            ServiceActive::Failed
        }
    } else if holds_text(stderr, "does not exist"@) || holds_text(stderr, "unknown"@) {
        ServiceActive::Unknown
    } else {
        ServiceActive::Inactive
    }
}

impl FreeBSDRc {
    /// Create a new instance.
    pub fn new() -> (r: Self)
        ensures
            r == FreeBSDRc,
    {
        FreeBSDRc
    }

    /// The name of the platform.
    pub fn platform_name(&self) -> (r: &'static str)
        ensures
            r@ == "freebsd-rc"@,
    {
        "freebsd-rc"
    }

    /// Derive the rc.d service name from a systemd-style service name.
    ///
    /// Strips the `.service` suffix if present.
    pub fn service_name(service: &str) -> (r: &str)
        ensures
            r@ == without_suffix(service@, ".service"@),
    {
        strip_suffix(service, ".service")
    }

    /// The command `service <name> <action>`.
    pub fn run_service_cmd(&self, name: &str, action: &str) -> (r: CommandLine)
        ensures
            r@ == line("service"@, seq![name@, action@]),
    {
        let args = vec![name, action];
        assert(strs(args@) =~= seq![name@, action@]);
        command("service", args)
    }

    /// The command `service <name> <action>` via sudo.
    pub fn sudo_service(&self, name: &str, action: &str) -> (r: CommandLine)
        ensures
            r@ == line("sudo"@, seq!["service"@, name@, action@]),
    {
        let args = vec!["service", name, action];
        assert(strs(args@) =~= seq!["service"@, name@, action@]);
        command("sudo", args)
    }

    /// Whether `sudo service <name> <action>` succeeded.
    pub fn service_result(name: &str, action: &str, out: &CommandOutput) -> (r: Result<(), String>)
        ensures
            r is Ok <==> out.success,
            r matches Err(e) ==> e@ == failure(
                "sudo service "@ + name@ + " "@ + action@,
                out.code,
                out.stderr@,
            ),
    {
        let mut what = "sudo service ".to_owned();
        what.append(name);
        what.append(" ");
        what.append(action);
        expect_success(what.as_str(), out)
    }

    /// The process of a service, from the output of `service <name> status`:
    /// the first number in a line that speaks of a pid.
    pub fn find_service_pid(&self, output: &str) -> (r: Option<u32>)
        ensures
            r == pid_in_lines(lines(output@), 0),
    {
        let ls = lines_of(output);
        let mut i: usize = 0;
        while i < ls.len()
            invariant
                views(ls@) == lines(output@),
                i <= ls@.len(),
                pid_in_lines(lines(output@), 0) == pid_in_lines(lines(output@), i as int),
            decreases ls@.len() - i,
        {
            assert(views(ls@)[i as int] == ls@[i as int]@);
            if contains(ls[i].as_str(), "pid") {
                if let Some(pid) = find_pid(ls[i].as_str()) {
                    return Some(pid);
                }
            }
            i += 1;
        }
        None
    }

    /// The path of the PID file of a service.
    pub fn pid_file(name: &str) -> (r: String)
        ensures
            r@ == "/var/run/"@ + name@ + ".pid"@,
    {
        let mut p = "/var/run/".to_owned();
        p.append(name);
        p.append(".pid");
        p
    }

    /// The process in the text of a PID file.
    pub fn pid_in_file(content: &str) -> (r: Option<u32>)
        ensures
            match r {
                Some(p) => number(trim_white(content@), u32::MAX as nat) == Some(p as nat),
                None => number(trim_white(content@), u32::MAX as nat) is None,
            },
    {
        match parse(trim(content), 4294967295) {
            Some(p) => Some(p as u32),
            None => None,
        }
    }

    /// The metrics of a process, from what the commands about it print. None
    /// where `ps` does not know the process.
    pub fn collect_proc_metrics(&self, pid: u32, timestamp: Timestamp, o: ProcOutputs) -> (r: Option<
        ProcessMetrics,
    >)
        requires
            usage_fits(o.usage, o.status, o.ps),
        ensures
            r is Some <==> o.ps is Some,
            r matches Some(m) ==> is_rc_snapshot(m, pid, timestamp, o),
    {
        let ps = match o.ps {
            Some(p) => p,
            None => return None,
        };
        let mut m = ProcessMetrics::at(pid, timestamp);
        let pages: u64 = read_resident(o.usage, o.status);
        proof {
            if o.usage is Some {
                lemma_procstat_fits(o.usage->0@, lines(o.usage->0@).len() as int);
            }
        }
        // RSS is in pages on FreeBSD, page size typically 4096
        m.rss_bytes = pages * 4096;
        if let Some(cols) = read_columns(ps) {
            assert(views(cols@).len() == cols@.len());
            if cols.len() >= 4 {
                assert(views(cols@)[1] == cols@[1]@);
                assert(views(cols@)[2] == cols@[2]@);
                m.state = cols[1].clone();
                // ps RSS is in KB
                if m.rss_bytes == 0 {
                    let kb: u64 = parse_or(cols[2].as_str(), u64::MAX, 0);
                    m.rss_bytes = kb * 1024;
                }
            }
        }
        match o.threads {
            // Each line after the header is a thread
            Some(t) => {
                m.threads = low_bits(count_rows(t));
            },
            None => {
                if let Some(t) = o.ps_threads {
                    let n: u32 = low_bits(count_rows(t));
                    m.threads = if n > 1 {
                        n
                    } else {
                        1
                    };
                }
            },
        }
        if let Some(f) = o.files {
            m.fd_count = low_bits(count_rows(f));
        }
        Some(m)
    }

    /// The state of a service, from the result of `service <name> status`.
    ///
    /// Exit codes: 0 = running, 1 = not running (but enabled), other = error /
    /// not found.
    pub fn service_state(&self, out: &CommandOutput) -> (r: ServiceActive)
        ensures
            r == status_state(out.code, out.stdout@, out.stderr@),
    {
        match out.code {
            Some(0) => ServiceActive::Active,
            Some(1) => {
                // Check if the service is enabled but just not running
                if contains(out.stdout.as_str(), "not running") {
                    ServiceActive::Inactive
                } else {
                    ServiceActive::Failed
                }
            },
            _ => {
                if contains(out.stderr.as_str(), "does not exist") || contains(
                    out.stderr.as_str(),
                    "unknown",
                ) {
                    ServiceActive::Unknown
                } else {
                    ServiceActive::Inactive
                }
            },
        }
    }

    /// The command that kills the process of a service, where it was found.
    pub fn kill_service(&self, service: &str, pid: Option<u32>) -> (r: Result<CommandLine, String>)
        ensures
            match pid {
                Some(p) => r matches Ok(c) && c@ == line(
                    "sudo"@,
                    seq!["kill"@, "-9"@, crate::util::text::decimal(p as nat)],
                ),
                None => r matches Err(e) && e@ == "Cannot find PID for service "@
                    + without_suffix(service@, ".service"@) + " to kill"@,
            },
    {
        match pid {
            Some(p) => {
                let n = show(p as u64);
                let args = vec!["kill", "-9", n.as_str()];
                assert(strs(args@) =~= seq![
                    "kill"@,
                    "-9"@,
                    crate::util::text::decimal(p as nat),
                ]);
                Ok(command("sudo", args))
            },
            None => {
                let mut e = "Cannot find PID for service ".to_owned();
                e.append(FreeBSDRc::service_name(service));
                e.append(" to kill");
                Err(e)
            },
        }
    }

    /// Rc.d has no "failed" state to reset.
    pub fn reset_failed_service(&self, service: &str) -> (r: Result<(), String>)
        ensures
            r is Ok,
    {
        Ok(())
    }

    /// The command that sets or clears the immutable flag of a file.
    ///
    /// FreeBSD uses the system immutable flag (schg), which is stronger than
    /// the user immutable flag (uchg).
    pub fn set_immutable(&self, path: &str, immutable: bool) -> (r: CommandLine)
        ensures
            r@ == line(
                "chflags"@,
                seq![
                    if immutable {
                        "schg"@
                    } else {
                        "noschg"@
                    },
                    path@,
                ],
            ),
    {
        let flag = if immutable {
            "schg"
        } else {
            "noschg"
        };
        let args = vec![flag, path];
        assert(strs(args@) =~= seq![flag@, path@]);
        command("chflags", args)
    }

    /// FreeBSD has no PSI subsystem.
    pub fn io_pressure_avg10(&self) -> (r: Option<String>)
        ensures
            r is None,
    {
        None
    }

    /// No-op — there is no systemd socket.
    pub fn notify_ready(&self) -> (r: Result<(), String>)
        ensures
            r is Ok,
    {
        Ok(())
    }

    /// No-op — there is no systemd socket.
    pub fn notify_watchdog(&self) -> (r: Result<(), String>)
        ensures
            r is Ok,
    {
        Ok(())
    }

    /// No-op — there is no systemd socket.
    pub fn notify_stopping(&self) -> (r: Result<(), String>)
        ensures
            r is Ok,
    {
        Ok(())
    }

    /// The path of the rc.d script of a service.
    pub fn rc_path(name: &str) -> (r: String)
        ensures
            r@ == "/usr/local/etc/rc.d/"@ + without_suffix(name@, ".service"@),
    {
        let mut p = "/usr/local/etc/rc.d/".to_owned();
        p.append(FreeBSDRc::service_name(name));
        p
    }

    /// The command that enables or disables a service at boot.
    pub fn sysrc(&self, name: &str, enable: bool) -> (r: CommandLine)
        ensures
            r@ == line(
                "sudo"@,
                seq![
                    "sysrc"@,
                    without_suffix(name@, ".service"@) + if enable {
                        "_enable=YES"@
                    } else {
                        "_enable=NO"@
                    },
                ],
            ),
    {
        let mut setting = FreeBSDRc::service_name(name).to_owned();
        if enable {
            setting.append("_enable=YES");
        } else {
            setting.append("_enable=NO");
        }
        let args = vec!["sysrc", setting.as_str()];
        assert(strs(args@) =~= seq!["sysrc"@, setting@]);
        command("sudo", args)
    }

    /// The command that creates a service user.
    pub fn create_system_user(&self, name: &str, home: &str) -> (r: CommandLine)
        ensures
            r@ == line("sudo"@, useradd_args(name@, home@)),
    {
        let mut comment = "OuterClaw ".to_owned();
        comment.append(name);
        comment.append(" service");
        let args = vec![
            "pw",
            "useradd",
            name,
            "-d",
            home,
            "-s",
            "/usr/sbin/nologin",
            "-m",
            "-c",
            comment.as_str(),
        ];
        assert(strs(args@) =~= useradd_args(name@, home@));
        command("sudo", args)
    }

    /// Whether there is a user now: the command succeeded, or says that the
    /// user was there before.
    pub fn user_created(name: &str, out: &CommandOutput) -> (r: Result<(), String>)
        ensures
            r is Ok <==> out.success || holds_text(out.stderr@, "already exists"@),
            r matches Err(e) ==> e@ == failure("pw useradd "@ + name@, out.code, out.stderr@),
    {
        if !out.success && contains(out.stderr.as_str(), "already exists") {
            return Ok(());
        }
        let mut what = "pw useradd ".to_owned();
        what.append(name);
        expect_success(what.as_str(), out)
    }

    /// The command that deletes a user.
    pub fn delete_user(&self, name: &str) -> (r: CommandLine)
        ensures
            r@ == line("sudo"@, seq!["pw"@, "userdel"@, name@]),
    {
        let args = vec!["pw", "userdel", name];
        assert(strs(args@) =~= seq!["pw"@, "userdel"@, name@]);
        command("sudo", args)
    }

    /// Whether there is no such user any more: the command succeeded, or says
    /// that there was none before.
    pub fn user_deleted(name: &str, out: &CommandOutput) -> (r: Result<(), String>)
        ensures
            r is Ok <==> out.success || holds_text(out.stderr@, "no such user"@) || holds_text(
                out.stderr@,
                "does not exist"@,
            ),
            r matches Err(e) ==> e@ == failure("pw userdel "@ + name@, out.code, out.stderr@),
    {
        if !out.success && (contains(out.stderr.as_str(), "no such user") || contains(
            out.stderr.as_str(),
            "does not exist",
        )) {
            return Ok(());
        }
        let mut what = "pw userdel ".to_owned();
        what.append(name);
        expect_success(what.as_str(), out)
    }
}

/// The arguments of the command that creates a service user.
pub open spec fn useradd_args(name: Seq<char>, home: Seq<char>) -> Seq<Seq<char>> {
    seq![
        "pw"@,
        "useradd"@,
        name,
        "-d"@,
        home,
        "-s"@,
        "/usr/sbin/nologin"@,
        "-m"@,
        "-c"@,
        "OuterClaw "@ + name + " service"@,
    ]
}

/// The pages found in `procstat -r` are among those that fit.
proof fn lemma_procstat_fits(procstat: Seq<char>, n: int)
    requires
        procstat_fits(procstat),
        n <= lines(procstat).len(),
    ensures
        procstat_pages(lines(procstat), n).unwrap_or(0) * 4096 <= u64::MAX,
    decreases n,
{
    if n > 1 {
        assert(pages_in(words(lines(procstat)[n - 1]), 3) matches Some(p) ==> p * 4096
            <= u64::MAX);
        lemma_procstat_fits(procstat, n - 1);
    }
}

/// A service runs exactly where its status says so by the code 0. It failed
/// where the code is 1 and it is not said to be not running.
pub proof fn law_code_tells_the_state(code: Option<i32>, stdout: Seq<char>, stderr: Seq<char>)
    ensures
        ({
            let s = status_state(code, stdout, stderr);
            let stopped = holds_text(stdout, "not running"@);
            &&& s == ServiceActive::Active <==> code == Some(0i32)
            &&& s == ServiceActive::Failed <==> code == Some(1i32) && !stopped
            &&& code == Some(1i32) && stopped ==> s == ServiceActive::Inactive
            &&& s == ServiceActive::Unknown <==> code != Some(0i32) && code != Some(1i32) && (
            holds_text(stderr, "does not exist"@) || holds_text(stderr, "unknown"@))
        }),
{
}

/// The process is that of the first line that speaks of one and has a number:
/// lines before it that do not are passed over.
pub proof fn law_pid_of_the_first_line(ls: Seq<Seq<char>>, from: int, k: int)
    requires
        0 <= from <= k < ls.len(),
        forall|i: int|
            from <= i < k ==> !holds_text(#[trigger] ls[i], "pid"@) || pid_in_words(
                words(ls[i]),
                0,
            ) is None,
        holds_text(ls[k], "pid"@),
        pid_in_words(words(ls[k]), 0) is Some,
    ensures
        pid_in_lines(ls, from) == pid_in_words(words(ls[k]), 0),
    decreases k - from,
{
    if from < k {
        assert(!holds_text(ls[from], "pid"@) || pid_in_words(words(ls[from]), 0) is None);
        law_pid_of_the_first_line(ls, from + 1, k);
    }
}

/// In a line, the process is the first word that is a number above 0, a full
/// stop behind it left out.
pub proof fn law_pid_is_the_first_number(ws: Seq<Seq<char>>, from: int, k: int)
    requires
        0 <= from <= k < ws.len(),
        forall|i: int|
            from <= i < k ==> pid_number(trimmed_end(#[trigger] ws[i], Class::Is('.'))) is None,
        pid_number(trimmed_end(ws[k], Class::Is('.'))) is Some,
    ensures
        pid_in_words(ws, from) == pid_number(trimmed_end(ws[k], Class::Is('.'))),
    decreases k - from,
{
    if from < k {
        assert(pid_number(trimmed_end(ws[from], Class::Is('.'))) is None);
        law_pid_is_the_first_number(ws, from + 1, k);
    }
}

/// Resident pages are counted with 4096 bytes each, and come before what `ps`
/// says, which is in kilobytes.
pub proof fn law_pages_come_first(o: ProcOutputs)
    ensures
        ({
            let pages = resident_pages(o.usage, o.status);
            let memory = state_and_memory(o).1;
            &&& pages > 0 ==> memory == pages * 4096
            &&& pages == 0 && o.ps is None ==> memory == 0
            &&& pages == 0 ==> (o.ps matches Some(ps) ==> lines(ps@).len() >= 2 && ps_columns(
                ps@,
            ).len() >= 4 ==> memory == ps_kilobytes(ps@) * 1024)
        }),
        o.ps matches Some(ps) ==> lines(ps@).len() >= 2 && ps_columns(ps@).len() >= 4
            ==> state_and_memory(o).0 == words(lines(ps@)[1])[1],
{
}

/// A snapshot is of the process that was asked for, at the time it was taken;
/// the counters that the system does not tell are 0.
pub proof fn law_snapshot_is_of_the_process(
    m: ProcessMetrics,
    pid: u32,
    timestamp: Timestamp,
    o: ProcOutputs,
)
    requires
        is_rc_snapshot(m, pid, timestamp, o),
    ensures
        m.pid == pid,
        m.timestamp == timestamp,
        m.read_bytes == 0 && m.write_bytes == 0,
        m.voluntary_ctxt_switches == 0 && m.nonvoluntary_ctxt_switches == 0,
        m.state@ == state_and_memory(o).0,
        m.rss_bytes == state_and_memory(o).1,
        o.files is None ==> m.fd_count == 0,
{
}

} // verus!
