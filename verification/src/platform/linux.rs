//! Linux + systemd: what `systemctl` and `/proc` say, and what to ask them.

use crate::platform::command::{command, expect_success, failure, line, strs, CommandLine, CommandOutput};
use crate::platform::{ProcessMetrics, ServiceActive};
use crate::util::text::{
    after_prefix, begins, chars_of, lines, lines_of, number, parse, parse_or, replace,
    replaced_from, same, starts, strip_prefix, trim, trim_white, views, words, words_of,
};
use crate::util::time_fmt::Timestamp;
use vstd::prelude::*;
use vstd::utf8::encode_utf8;

verus! {

/// Linux platform implementation backed by systemd.
pub struct LinuxSystemd {
    /// The `NOTIFY_SOCKET` address captured (and removed from the
    /// environment) at construction time, so child processes don't inherit
    /// it and trigger "reception only permitted for main PID" warnings.
    pub notify_socket: Option<String>,
}

/// Where a notification goes.
pub enum NotifyTarget {
    /// Nowhere: there is no socket.
    Nowhere,
    /// To a socket in the abstract namespace, by its bytes.
    Abstract(Vec<u8>),
    /// To a socket in the file system.
    File(String),
}

/// The arguments of `sudo systemctl <action> [service]`.
pub open spec fn systemctl_args(action: Seq<char>, service: Seq<char>) -> Seq<Seq<char>> {
    if service.len() == 0 {
        seq!["systemctl"@, action]
    } else {
        seq!["systemctl"@, action, service]
    }
}

/// The bytes of an abstract socket address: a leading `@` stands for a NUL.
pub open spec fn abstract_bytes(addr: Seq<char>) -> Seq<u8> {
    if addr.len() > 0 && addr[0] == '@' {
        seq![0u8] + encode_utf8(addr.skip(1))
    } else {
        encode_utf8(addr)
    }
}

/// The address lies in the abstract namespace.
pub open spec fn is_abstract(addr: Seq<char>) -> bool {
    addr.len() > 0 && (addr[0] == '@' || addr[0] == '\0')
}

impl LinuxSystemd {
    /// Create a new instance, with the `NOTIFY_SOCKET` of the environment.
    pub fn new(notify_socket: Option<String>) -> (r: Self)
        ensures
            r.notify_socket == notify_socket,
    {
        LinuxSystemd { notify_socket }
    }

    /// The name of the platform.
    pub fn platform_name(&self) -> (r: &'static str)
        ensures
            r@ == "linux-systemd"@,
    {
        "linux-systemd"
    }

    /// Where to send a message for systemd. `max_path` is the room for an
    /// abstract address.
    pub fn sd_notify(&self, max_path: usize) -> (r: Result<NotifyTarget, String>)
        ensures
            match self.notify_socket {
                None => r matches Ok(t) && t is Nowhere,
                Some(addr) => if is_abstract(addr@) {
                    if abstract_bytes(addr@).len() > max_path {
                        r matches Err(e) && e@ == "sd_notify: abstract socket path too long"@
                    } else {
                        r matches Ok(t) && t matches NotifyTarget::Abstract(b) && b@
                            == abstract_bytes(addr@)
                    }
                } else {
                    r matches Ok(t) && t matches NotifyTarget::File(p) && p@ == addr@
                },
            },
    {
        let addr = match &self.notify_socket {
            Some(a) => a,
            None => return Ok(NotifyTarget::Nowhere),
        };
        let v = chars_of(addr.as_str());
        if v.len() > 0 && (v[0] == '@' || v[0] == '\0') {
            let mut bytes: Vec<u8> = Vec::new();
            if v[0] == '@' {
                bytes.push(0);
                let rest = addr.as_str().substring_char(1, v.len());
                let mut tail = rest.as_bytes_vec();
                bytes.append(&mut tail);
                assert(bytes@ =~= abstract_bytes(addr@));
            } else {
                bytes = addr.as_str().as_bytes_vec();
            }
            if bytes.len() > max_path {
                return Err("sd_notify: abstract socket path too long".to_owned());
            }
            Ok(NotifyTarget::Abstract(bytes))
        } else {
            Ok(NotifyTarget::File(addr.clone()))
        }
    }

    /// The message that says that the service is ready.
    pub fn notify_ready(&self) -> (r: &'static str)
        ensures
            r@ == "READY=1"@,
    {
        "READY=1"
    }

    /// The message that says that the service is alive.
    pub fn notify_watchdog(&self) -> (r: &'static str)
        ensures
            r@ == "WATCHDOG=1"@,
    {
        "WATCHDOG=1"
    }

    /// The message that says that the service is stopping.
    pub fn notify_stopping(&self) -> (r: &'static str)
        ensures
            r@ == "STOPPING=1"@,
    {
        "STOPPING=1"
    }

    /// The command that asks for one property of a service.
    pub fn systemctl_show(&self, service: &str, property: &str) -> (r: CommandLine)
        ensures
            r@ == line(
                "systemctl"@,
                seq!["show"@, service@, "--property="@ + property@, "--value"@],
            ),
    {
        let mut p = "--property=".to_owned();
        p.append(property);
        let args = vec!["show", service, p.as_str(), "--value"];
        assert(strs(args@) =~= seq!["show"@, service@, "--property="@ + property@, "--value"@]);
        command("systemctl", args)
    }

    /// The value of a property in the answer of `systemctl show`.
    pub fn shown_property(property: &str, out: &CommandOutput) -> (r: Result<String, String>)
        ensures
            match r {
                Ok(v) => out.success && v@ == trim_white(out.stdout@),
                Err(e) => !out.success && e@ == failure(
                    "systemctl show "@ + property@,
                    out.code,
                    out.stderr@,
                ),
            },
    {
        let mut what = "systemctl show ".to_owned();
        what.append(property);
        match expect_success(what.as_str(), out) {
            Ok(()) => Ok(trim(out.stdout.as_str()).to_owned()),
            Err(e) => Err(e),
        }
    }

    /// The command `sudo systemctl <action> [service]`.
    ///
    /// If `service` is empty (e.g. for `daemon-reload`), it is omitted from
    /// the command line.
    pub fn sudo_systemctl(&self, action: &str, service: &str) -> (r: CommandLine)
        ensures
            r@ == line("sudo"@, systemctl_args(action@, service@)),
    {
        let args = if service.is_empty() {
            vec!["systemctl", action]
        } else {
            vec!["systemctl", action, service]
        };
        assert(strs(args@) =~= systemctl_args(action@, service@));
        command("sudo", args)
    }

    /// Whether `sudo systemctl <action> <service>` succeeded.
    pub fn systemctl_result(action: &str, service: &str, out: &CommandOutput) -> (r: Result<
        (),
        String,
    >)
        ensures
            r is Ok <==> out.success,
            r matches Err(e) ==> e@ == failure(
                "sudo systemctl "@ + action@ + " "@ + service@,
                out.code,
                out.stderr@,
            ),
    {
        let mut what = "sudo systemctl ".to_owned();
        what.append(action);
        what.append(" ");
        what.append(service);
        expect_success(what.as_str(), out)
    }

    /// The main process in the value of `MainPID`; none where it is 0 or no number.
    pub fn find_service_pid(&self, main_pid: &str) -> (r: Option<u32>)
        ensures
            match number(main_pid@, u32::MAX as nat) {
                Some(n) => if n == 0 {
                    r is None
                } else {
                    r == Some(n as u32)
                },
                None => r is None,
            },
    {
        match parse(main_pid, 4294967295) {
            Some(p) => if p == 0 {
                None
            } else {
                Some(p as u32)
            },
            None => None,
        }
    }

    /// The metrics of the process `pid` at the time `timestamp`, from the texts
    /// of its `status` and `io` files and the number of its descriptors. `io`
    /// and `fd_count` are `None` where they may not be read.
    pub fn collect_proc_metrics(
        &self,
        pid: u32,
        timestamp: Timestamp,
        status: &str,
        io: Option<&str>,
        fd_count: Option<u32>,
    ) -> (r: ProcessMetrics)
        requires
            memory_fits(status@),
        ensures
            is_snapshot(r, pid, timestamp, status@, io, fd_count),
    {
        proc_snapshot(pid, timestamp, status, io, fd_count)
    }

    /// The state of a service, from the value of `ActiveState`.
    pub fn service_state(&self, active_state: &str) -> (r: ServiceActive)
        ensures
            r == state_of(active_state@),
    {
        if same(active_state, "active") {
            ServiceActive::Active
        } else if same(active_state, "inactive") || same(active_state, "deactivating") {
            ServiceActive::Inactive
        } else if same(active_state, "failed") {
            ServiceActive::Failed
        } else if same(active_state, "activating") || same(active_state, "reloading") {
            ServiceActive::Activating
        } else {
            ServiceActive::Unknown
        }
    }

    /// The command that restarts a service.
    pub fn restart_service(&self, service: &str) -> (r: CommandLine)
        ensures
            r@ == line("sudo"@, systemctl_args("restart"@, service@)),
    {
        self.sudo_systemctl("restart", service)
    }

    /// The command that stops a service.
    pub fn stop_service(&self, service: &str) -> (r: CommandLine)
        ensures
            r@ == line("sudo"@, systemctl_args("stop"@, service@)),
    {
        self.sudo_systemctl("stop", service)
    }

    /// The command that kills a service.
    pub fn kill_service(&self, service: &str) -> (r: CommandLine)
        ensures
            r@ == line("sudo"@, seq!["systemctl"@, "kill"@, "--signal=SIGKILL"@, service@]),
    {
        let args = vec!["systemctl", "kill", "--signal=SIGKILL", service];
        assert(strs(args@) =~= seq!["systemctl"@, "kill"@, "--signal=SIGKILL"@, service@]);
        command("sudo", args)
    }

    /// The command that clears the failed state of a service.
    pub fn reset_failed_service(&self, service: &str) -> (r: CommandLine)
        ensures
            r@ == line("sudo"@, systemctl_args("reset-failed"@, service@)),
    {
        self.sudo_systemctl("reset-failed", service)
    }

    /// The command that enables a service.
    pub fn enable_service(&self, service: &str) -> (r: CommandLine)
        ensures
            r@ == line("sudo"@, systemctl_args("enable"@, service@)),
    {
        self.sudo_systemctl("enable", service)
    }

    /// The path of a unit file.
    pub fn unit_path(name: &str) -> (r: String)
        ensures
            r@ == "/etc/systemd/system/"@ + name@,
    {
        let mut p = "/etc/systemd/system/".to_owned();
        p.append(name);
        p
    }

    /// The timer that belongs to a service, where it has another name than the
    /// service itself.
    pub fn timer_name(name: &str) -> (r: Option<String>)
        ensures
            match r {
                Some(t) => t@ == replaced_from(name@, ".service"@, ".timer"@, 0) && t@ != name@,
                None => replaced_from(name@, ".service"@, ".timer"@, 0) == name@,
            },
    {
        proof {
            reveal_strlit(".service");
        }
        let timer = replace(name, ".service", ".timer");
        if same(timer.as_str(), name) {
            None
        } else {
            Some(timer)
        }
    }

    /// When the service became active, in microseconds of the monotonic clock,
    /// from the value of `ActiveEnterTimestampMonotonic`.
    pub fn active_since(value: &str) -> (r: Option<u64>)
        ensures
            match number(value@, u64::MAX as nat) {
                Some(n) => if n == 0 {
                    r is None
                } else {
                    r == Some(n as u64)
                },
                None => r is None,
            },
    {
        match parse(value, u64::MAX) {
            Some(p) => if p == 0 {
                None
            } else {
                Some(p)
            },
            None => None,
        }
    }

    /// The command that creates a system user.
    pub fn create_system_user(&self, name: &str, home: &str) -> (r: CommandLine)
        ensures
            r@ == line(
                "sudo"@,
                seq![
                    "useradd"@,
                    "--system"@,
                    "--shell"@,
                    "/usr/sbin/nologin"@,
                    "--home-dir"@,
                    home@,
                    "--create-home"@,
                    name@,
                ],
            ),
    {
        let args = vec![
            "useradd",
            "--system",
            "--shell",
            "/usr/sbin/nologin",
            "--home-dir",
            home,
            "--create-home",
            name,
        ];
        assert(strs(args@) =~= seq![
            "useradd"@,
            "--system"@,
            "--shell"@,
            "/usr/sbin/nologin"@,
            "--home-dir"@,
            home@,
            "--create-home"@,
            name@,
        ]);
        command("sudo", args)
    }

    /// Whether there is a user now: the command succeeded, or the user was
    /// there before (exit code 9).
    pub fn user_created(name: &str, out: &CommandOutput) -> (r: Result<(), String>)
        ensures
            r is Ok <==> out.success || out.code == Some(9i32),
            r matches Err(e) ==> e@ == failure("useradd "@ + name@, out.code, out.stderr@),
    {
        let mut what = "useradd ".to_owned();
        what.append(name);
        match out.code {
            Some(9) => Ok(()),
            _ => expect_success(what.as_str(), out),
        }
    }

    /// The command that deletes a user.
    pub fn delete_user(&self, name: &str) -> (r: CommandLine)
        ensures
            r@ == line("sudo"@, seq!["userdel"@, name@]),
    {
        let args = vec!["userdel", name];
        assert(strs(args@) =~= seq!["userdel"@, name@]);
        command("sudo", args)
    }

    /// Whether there is no such user any more: the command succeeded, or there
    /// was none before (exit code 6).
    pub fn user_deleted(name: &str, out: &CommandOutput) -> (r: Result<(), String>)
        ensures
            r is Ok <==> out.success || out.code == Some(6i32),
            r matches Err(e) ==> e@ == failure("userdel "@ + name@, out.code, out.stderr@),
    {
        let mut what = "userdel ".to_owned();
        what.append(name);
        match out.code {
            Some(6) => Ok(()),
            _ => expect_success(what.as_str(), out),
        }
    }
}

/// The immutable bit among the flags of a file.
pub const FS_IMMUTABLE_FL: u64 = 0x10;

/// The flags of a file with the immutable bit set or cleared.
pub fn immutable_flags(flags: u64, immutable: bool) -> (r: u64)
    ensures
        r == if immutable {
            flags | FS_IMMUTABLE_FL
        } else {
            flags & !FS_IMMUTABLE_FL
        },
{
    if immutable {
        flags | FS_IMMUTABLE_FL
    } else {
        flags & !FS_IMMUTABLE_FL
    }
}

/// Setting the immutable bit and clearing it again leaves every other flag of a
/// file as it was.
pub proof fn law_immutability_is_reversible(flags: u64)
    ensures
        (flags | FS_IMMUTABLE_FL) & !FS_IMMUTABLE_FL == flags & !FS_IMMUTABLE_FL,
        (flags | FS_IMMUTABLE_FL) & FS_IMMUTABLE_FL == FS_IMMUTABLE_FL,
        (flags & !FS_IMMUTABLE_FL) & FS_IMMUTABLE_FL == 0,
{
    let bit = FS_IMMUTABLE_FL;
    assert((flags | bit) & !bit == flags & !bit && (flags | bit) & bit == bit && (flags & !bit)
        & bit == 0) by (bit_vector);
}

/// Whole mebibytes.
pub fn disk_usage_mb(bytes: u64) -> (r: u64)
    ensures
        r == bytes / 1048576,
{
    bytes / 1048576
}

/// The state that a value of `ActiveState` means.
pub open spec fn state_of(active_state: Seq<char>) -> ServiceActive {
    if active_state == "active"@ {
        ServiceActive::Active
    } else if active_state == "inactive"@ || active_state == "deactivating"@ {
        ServiceActive::Inactive
    } else if active_state == "failed"@ {
        ServiceActive::Failed
    } else if active_state == "activating"@ || active_state == "reloading"@ {
        ServiceActive::Activating
    } else {
        ServiceActive::Unknown
    }
}

// ── /proc ─────────────────────────────────────────────────────────────

/// The first word of a text, or nothing.
pub open spec fn first_word(s: Seq<char>) -> Seq<char> {
    if words(s).len() > 0 {
        words(s)[0]
    } else {
        Seq::empty()
    }
}

/// The first word of a text, or nothing.
pub fn first_word_of(s: &str) -> (r: String)
    ensures
        r@ == first_word(s@),
{
    let ws = words_of(s);
    if ws.len() > 0 {
        assert(views(ws@)[0] == ws@[0]@);
        ws[0].clone()
    } else {
        String::new()
    }
}

/// What a process's `status` file tells.
pub struct StatusView {
    pub state: Seq<char>,
    pub threads: nat,
    pub rss_bytes: nat,
    pub voluntary: nat,
    pub nonvoluntary: nat,
}

/// The number behind a label, 0 where there is none.
pub open spec fn value_behind(rest: Seq<char>, max: nat) -> nat {
    number(trim_white(rest), max).unwrap_or(0)
}

/// The kilobytes behind `VmRSS:`, 0 where they are no number.
pub open spec fn kilobytes(rest: Seq<char>) -> nat {
    number(first_word(rest), u64::MAX as nat).unwrap_or(0)
}

/// What is told after one more line of a `status` file.
pub open spec fn told(s: StatusView, l: Seq<char>) -> StatusView {
    if let Some(rest) = after_prefix(l, "State:"@) {
        StatusView { state: first_word(rest), ..s }
    } else if let Some(rest) = after_prefix(l, "Threads:"@) {
        StatusView { threads: value_behind(rest, u32::MAX as nat), ..s }
    } else if let Some(rest) = after_prefix(l, "VmRSS:"@) {
        if words(rest).len() > 0 {
            StatusView { rss_bytes: kilobytes(rest) * 1024, ..s }
        } else {
            s
        }
    } else if let Some(rest) = after_prefix(l, "voluntary_ctxt_switches:"@) {
        StatusView { voluntary: value_behind(rest, u64::MAX as nat), ..s }
    } else if let Some(rest) = after_prefix(l, "nonvoluntary_ctxt_switches:"@) {
        StatusView { nonvoluntary: value_behind(rest, u64::MAX as nat), ..s }
    } else {
        s
    }
}

/// What the first `n` lines of a `status` file tell.
pub open spec fn told_by(ls: Seq<Seq<char>>, n: int) -> StatusView
    decreases n,
{
    if n <= 0 {
        StatusView { state: Seq::empty(), threads: 0, rss_bytes: 0, voluntary: 0, nonvoluntary: 0 }
    } else {
        told(told_by(ls, n - 1), ls[n - 1])
    }
}

/// The memory in one line of a `status` file, in bytes, fits in 64 bits.
pub open spec fn line_fits(l: Seq<char>) -> bool {
    begins(l, "VmRSS:"@) ==> kilobytes(l.skip("VmRSS:"@.len() as int)) * 1024 <= u64::MAX
}

/// The memory in a `status` file, in bytes, fits in 64 bits.
pub open spec fn memory_fits(status: Seq<char>) -> bool {
    forall|i: int| 0 <= i < lines(status).len() ==> line_fits(#[trigger] lines(status)[i])
}

/// Whether the memory in a `status` file, in bytes, fits in 64 bits.
pub fn is_memory_fitting(status: &str) -> (r: bool)
    ensures
        r == memory_fits(status@),
{
    let ls = lines_of(status);
    let mut i: usize = 0;
    while i < ls.len()
        invariant
            views(ls@) == lines(status@),
            i <= ls@.len(),
            forall|k: int| 0 <= k < i ==> line_fits(#[trigger] lines(status@)[k]),
        decreases ls@.len() - i,
    {
        assert(views(ls@)[i as int] == ls@[i as int]@);
        if let Some(rest) = strip_prefix(ls[i].as_str(), "VmRSS:") {
            let kb: u64 = parse_or(first_word_of(rest).as_str(), u64::MAX, 0);
            if kb > 18014398509481983 {
                assert(!line_fits(lines(status@)[i as int]));
                return false;
            }
        }
        i += 1;
    }
    true
}

/// The bytes read and written that an `io` file tells.
pub struct IoView {
    pub read_bytes: nat,
    pub write_bytes: nat,
}

/// What is told after one more line of an `io` file.
pub open spec fn io_told(s: IoView, l: Seq<char>) -> IoView {
    if let Some(rest) = after_prefix(l, "read_bytes:"@) {
        IoView { read_bytes: value_behind(rest, u64::MAX as nat), ..s }
    } else if let Some(rest) = after_prefix(l, "write_bytes:"@) {
        IoView { write_bytes: value_behind(rest, u64::MAX as nat), ..s }
    } else {
        s
    }
}

/// What the first `n` lines of an `io` file tell.
pub open spec fn io_told_by(ls: Seq<Seq<char>>, n: int) -> IoView
    decreases n,
{
    if n <= 0 {
        IoView { read_bytes: 0, write_bytes: 0 }
    } else {
        io_told(io_told_by(ls, n - 1), ls[n - 1])
    }
}

/// What the `status` file told `m`.
pub open spec fn status_view(m: ProcessMetrics) -> StatusView {
    StatusView {
        state: m.state@,
        threads: m.threads as nat,
        rss_bytes: m.rss_bytes as nat,
        voluntary: m.voluntary_ctxt_switches as nat,
        nonvoluntary: m.nonvoluntary_ctxt_switches as nat,
    }
}

/// What the `io` file told `m`.
pub open spec fn io_view(m: ProcessMetrics) -> IoView {
    IoView { read_bytes: m.read_bytes as nat, write_bytes: m.write_bytes as nat }
}

/// The metrics hold what the files tell.
pub open spec fn is_snapshot(
    m: ProcessMetrics,
    pid: u32,
    timestamp: Timestamp,
    status: Seq<char>,
    io: Option<&str>,
    fd_count: Option<u32>,
) -> bool {
    &&& m.pid == pid
    &&& m.timestamp == timestamp
    &&& status_view(m) == told_by(lines(status), lines(status).len() as int)
    &&& io_view(m) == match io {
        Some(t) => io_told_by(lines(t@), lines(t@).len() as int),
        None => IoView { read_bytes: 0, write_bytes: 0 },
    }
    &&& m.fd_count == match fd_count {
        Some(n) => n,
        None => 0,
    }
}

/// Take in one line of a `status` file.
fn tell(m: &mut ProcessMetrics, l: &str)
    requires
        line_fits(l@),
    ensures
        status_view(*final(m)) == told(status_view(*old(m)), l@),
        final(m).pid == old(m).pid,
        final(m).timestamp == old(m).timestamp,
        final(m).fd_count == old(m).fd_count,
        io_view(*final(m)) == io_view(*old(m)),
{
    if let Some(rest) = strip_prefix(l, "State:") {
        m.state = first_word_of(rest);
    } else if let Some(rest) = strip_prefix(l, "Threads:") {
        m.threads = parse_or(trim(rest), 4294967295, 0) as u32;
    } else if let Some(rest) = strip_prefix(l, "VmRSS:") {
        // Value is in kB.
        let ws = words_of(rest);
        if ws.len() > 0 {
            let kb: u64 = parse_or(first_word_of(rest).as_str(), u64::MAX, 0);
            m.rss_bytes = kb * 1024;
        }
    } else if let Some(rest) = strip_prefix(l, "voluntary_ctxt_switches:") {
        m.voluntary_ctxt_switches = parse_or(trim(rest), u64::MAX, 0);
    } else if let Some(rest) = strip_prefix(l, "nonvoluntary_ctxt_switches:") {
        m.nonvoluntary_ctxt_switches = parse_or(trim(rest), u64::MAX, 0);
    }
}

/// Take in one line of an `io` file.
fn tell_io(m: &mut ProcessMetrics, l: &str)
    ensures
        io_view(*final(m)) == io_told(io_view(*old(m)), l@),
        final(m).pid == old(m).pid,
        final(m).timestamp == old(m).timestamp,
        final(m).fd_count == old(m).fd_count,
        status_view(*final(m)) == status_view(*old(m)),
{
    if let Some(rest) = strip_prefix(l, "read_bytes:") {
        m.read_bytes = parse_or(trim(rest), u64::MAX, 0);
    } else if let Some(rest) = strip_prefix(l, "write_bytes:") {
        m.write_bytes = parse_or(trim(rest), u64::MAX, 0);
    }
}

/// The metrics of a process, from the texts of its files.
pub fn proc_snapshot(
    pid: u32,
    timestamp: Timestamp,
    status: &str,
    io: Option<&str>,
    fd_count: Option<u32>,
) -> (m: ProcessMetrics)
    requires
        memory_fits(status@),
    ensures
        is_snapshot(m, pid, timestamp, status@, io, fd_count),
{
    let mut m = ProcessMetrics::at(pid, timestamp);
    let ls = lines_of(status);
    let mut i: usize = 0;
    while i < ls.len()
        invariant
            views(ls@) == lines(status@),
            memory_fits(status@),
            i <= ls@.len(),
            m.pid == pid,
            m.timestamp == timestamp,
            m.fd_count == 0,
            io_view(m) == (IoView { read_bytes: 0, write_bytes: 0 }),
            status_view(m) == told_by(lines(status@), i as int),
        decreases ls@.len() - i,
    {
        assert(views(ls@)[i as int] == ls@[i as int]@);
        assert(line_fits(lines(status@)[i as int]));
        tell(&mut m, ls[i].as_str());
        i += 1;
    }
    if let Some(text) = io {
        let ls = lines_of(text);
        let ghost known = status_view(m);
        let mut i: usize = 0;
        while i < ls.len()
            invariant
                views(ls@) == lines(text@),
                i <= ls@.len(),
                m.pid == pid,
                m.timestamp == timestamp,
                m.fd_count == 0,
                io_view(m) == io_told_by(lines(text@), i as int),
                status_view(m) == known,
            decreases ls@.len() - i,
        {
            assert(views(ls@)[i as int] == ls@[i as int]@);
            tell_io(&mut m, ls[i].as_str());
            i += 1;
        }
    }
    if let Some(n) = fd_count {
        m.fd_count = n;
    }
    m
}

/// The values of `avg10` in the words of a line, from word `i` on.
pub open spec fn avg10_in(ws: Seq<Seq<char>>, n: int) -> Seq<Seq<char>>
    decreases n,
{
    if n <= 0 {
        Seq::empty()
    } else {
        match after_prefix(ws[n - 1], "avg10="@) {
            Some(v) => avg10_in(ws, n - 1).push(v),
            None => avg10_in(ws, n - 1),
        }
    }
}

/// The values of `avg10` in the first `n` lines, of those that begin with `head`.
pub open spec fn avg10_values(ls: Seq<Seq<char>>, head: Seq<char>, n: int) -> Seq<Seq<char>>
    decreases n,
{
    if n <= 0 {
        Seq::empty()
    } else if begins(ls[n - 1], head) {
        avg10_values(ls, head, n - 1) + avg10_in(words(ls[n - 1]), words(ls[n - 1]).len() as int)
    } else {
        avg10_values(ls, head, n - 1)
    }
}

/// The values of `avg10` in the text of `/proc/pressure/io`, as they are
/// written, in the lines that begin with `head`.
pub fn read_avg10(content: &str, head: &str) -> (r: Vec<String>)
    ensures
        views(r@) == avg10_values(lines(content@), head@, lines(content@).len() as int),
{
    let ls = lines_of(content);
    let mut r: Vec<String> = Vec::new();
    assert(views(r@) =~= Seq::<Seq<char>>::empty());
    let mut i: usize = 0;
    while i < ls.len()
        invariant
            views(ls@) == lines(content@),
            i <= ls@.len(),
            views(r@) == avg10_values(lines(content@), head@, i as int),
        decreases ls@.len() - i,
    {
        assert(views(ls@)[i as int] == ls@[i as int]@);
        let l = ls[i].as_str();
        if starts(l, head) {
            let ws = words_of(l);
            let ghost before = views(r@);
            let mut k: usize = 0;
            assert(before + Seq::<Seq<char>>::empty() =~= before);
            while k < ws.len()
                invariant
                    views(ws@) == words(l@),
                    k <= ws@.len(),
                    views(r@) == before + avg10_in(words(l@), k as int),
                decreases ws@.len() - k,
            {
                assert(views(ws@)[k as int] == ws@[k as int]@);
                if let Some(v) = strip_prefix(ws[k].as_str(), "avg10=") {
                    let ghost seen = views(r@);
                    let ghost found = avg10_in(words(l@), k as int);
                    r.push(v.to_owned());
                    assert(views(r@) =~= seen.push(v@));
                    assert((before + found).push(v@) =~= before + found.push(v@));
                }
                k += 1;
            }
        }
        i += 1;
    }
    r
}

/// The I/O pressure (`avg10`) in the text of `/proc/pressure/io`, as it is
/// written: the first value in the lines that begin with `some`.
pub fn io_pressure_avg10(content: &str) -> (r: Option<String>)
    ensures
        ({
            let values = avg10_values(lines(content@), "some"@, lines(content@).len() as int);
            match r {
                Some(v) => values.len() > 0 && v@ == values[0],
                None => values.len() == 0,
            }
        }),
{
    let values = read_avg10(content, "some");
    if values.len() > 0 {
        assert(views(values@)[0] == values@[0]@);
        Some(values[0].clone())
    } else {
        None
    }
}

// ── Every line has its counter ────────────────────────────────────────

/// Each line of the process's status sets the counter that it is named after,
/// and no other: voluntary and involuntary switches are not confused, and the
/// memory is told in kilobytes. Other lines set nothing.
pub proof fn law_status_lines_set_their_counter(
    s: StatusView,
    rest: Seq<char>,
    other: Seq<char>,
    n: nat,
)
    requires
        other.len() == 0 || (other[0] != 'S' && other[0] != 'T' && other[0] != 'V' && other[0]
            != 'v' && other[0] != 'n'),
    ensures
        words(rest).len() > 0 ==> told(s, "State:"@ + rest) == (StatusView {
            state: words(rest)[0],
            ..s
        }),
        number(trim_white(rest), u32::MAX as nat) == Some(n) ==> told(s, "Threads:"@ + rest) == (
        StatusView { threads: n, ..s }),
        words(rest).len() > 0 && number(words(rest)[0], u64::MAX as nat) == Some(n) ==> told(
            s,
            "VmRSS:"@ + rest,
        ) == (StatusView { rss_bytes: n * 1024, ..s }),
        number(trim_white(rest), u64::MAX as nat) == Some(n) ==> told(
            s,
            "voluntary_ctxt_switches:"@ + rest,
        ) == (StatusView { voluntary: n, ..s }),
        number(trim_white(rest), u64::MAX as nat) == Some(n) ==> told(
            s,
            "nonvoluntary_ctxt_switches:"@ + rest,
        ) == (StatusView { nonvoluntary: n, ..s }),
        told(s, other) == s,
{
    reveal_strlit("State:");
    reveal_strlit("Threads:");
    reveal_strlit("VmRSS:");
    reveal_strlit("voluntary_ctxt_switches:");
    reveal_strlit("nonvoluntary_ctxt_switches:");
    lemma_headed("State:"@, rest, "State:"@);
    lemma_headed("Threads:"@, rest, "Threads:"@);
    lemma_headed("VmRSS:"@, rest, "VmRSS:"@);
    lemma_headed("voluntary_ctxt_switches:"@, rest, "voluntary_ctxt_switches:"@);
    lemma_headed("nonvoluntary_ctxt_switches:"@, rest, "nonvoluntary_ctxt_switches:"@);
    lemma_headed("Threads:"@, rest, "State:"@);
    lemma_headed("VmRSS:"@, rest, "State:"@);
    lemma_headed("VmRSS:"@, rest, "Threads:"@);
    lemma_headed("voluntary_ctxt_switches:"@, rest, "State:"@);
    lemma_headed("voluntary_ctxt_switches:"@, rest, "Threads:"@);
    lemma_headed("voluntary_ctxt_switches:"@, rest, "VmRSS:"@);
    lemma_headed("nonvoluntary_ctxt_switches:"@, rest, "State:"@);
    lemma_headed("nonvoluntary_ctxt_switches:"@, rest, "Threads:"@);
    lemma_headed("nonvoluntary_ctxt_switches:"@, rest, "VmRSS:"@);
    lemma_headed("nonvoluntary_ctxt_switches:"@, rest, "voluntary_ctxt_switches:"@);
    lemma_headed(other, Seq::empty(), "State:"@);
    lemma_headed(other, Seq::empty(), "Threads:"@);
    lemma_headed(other, Seq::empty(), "VmRSS:"@);
    lemma_headed(other, Seq::empty(), "voluntary_ctxt_switches:"@);
    lemma_headed(other, Seq::empty(), "nonvoluntary_ctxt_switches:"@);
    assert(other + Seq::<char>::empty() =~= other);
}

/// A line has the heading that it begins with, and none with another first
/// character.
proof fn lemma_headed(head: Seq<char>, rest: Seq<char>, prefix: Seq<char>)
    ensures
        head == prefix ==> after_prefix(head + rest, prefix) == Some(rest),
        prefix.len() > 0 && (head.len() == 0 && rest.len() == 0 || head.len() > 0 && head[0]
            != prefix[0]) ==> after_prefix(head + rest, prefix) is None,
{
    let l = head + rest;
    if head == prefix {
        assert(l.subrange(0, prefix.len() as int) =~= prefix);
        assert(l.skip(prefix.len() as int) =~= rest);
    } else if prefix.len() > 0 && head.len() > 0 && head[0] != prefix[0] {
        if begins(l, prefix) {
            assert(l.subrange(0, prefix.len() as int)[0] == head[0]);
        }
    }
}

/// Reads and writes are told apart: each line sets the counter that it is named
/// after, and other lines, such as those on cancelled writes, set nothing.
pub proof fn law_io_lines_set_their_counter(s: IoView, rest: Seq<char>, other: Seq<char>, n: nat)
    requires
        other.len() == 0 || (other[0] != 'r' && other[0] != 'w'),
    ensures
        number(trim_white(rest), u64::MAX as nat) == Some(n) ==> io_told(s, "read_bytes:"@ + rest)
            == (IoView { read_bytes: n, ..s }),
        number(trim_white(rest), u64::MAX as nat) == Some(n) ==> io_told(s, "write_bytes:"@ + rest)
            == (IoView { write_bytes: n, ..s }),
        io_told(s, other) == s,
{
    reveal_strlit("read_bytes:");
    reveal_strlit("write_bytes:");
    lemma_headed("read_bytes:"@, rest, "read_bytes:"@);
    lemma_headed("write_bytes:"@, rest, "write_bytes:"@);
    lemma_headed("write_bytes:"@, rest, "read_bytes:"@);
    lemma_headed(other, Seq::empty(), "read_bytes:"@);
    lemma_headed(other, Seq::empty(), "write_bytes:"@);
    assert(other + Seq::<char>::empty() =~= other);
}

/// All lines are read, in their order: one more line is read after the others.
pub proof fn law_lines_are_read_in_turn(ls: Seq<Seq<char>>, l: Seq<char>, head: Seq<char>)
    ensures
        told_by(ls.push(l), ls.len() as int + 1) == told(told_by(ls, ls.len() as int), l),
        io_told_by(ls.push(l), ls.len() as int + 1) == io_told(io_told_by(ls, ls.len() as int), l),
        begins(l, head) ==> avg10_values(ls.push(l), head, ls.len() as int + 1) == avg10_values(
            ls,
            head,
            ls.len() as int,
        ) + avg10_in(words(l), words(l).len() as int),
        !begins(l, head) ==> avg10_values(ls.push(l), head, ls.len() as int + 1) == avg10_values(
            ls,
            head,
            ls.len() as int,
        ),
{
    lemma_told_in_longer(ls, l, head, ls.len() as int);
}

/// What follows does not change what the first `n` lines tell.
proof fn lemma_told_in_longer(ls: Seq<Seq<char>>, l: Seq<char>, head: Seq<char>, n: int)
    requires
        0 <= n <= ls.len(),
    ensures
        told_by(ls.push(l), n) == told_by(ls, n),
        io_told_by(ls.push(l), n) == io_told_by(ls, n),
        avg10_values(ls.push(l), head, n) == avg10_values(ls, head, n),
    decreases n,
{
    if n > 0 {
        lemma_told_in_longer(ls, l, head, n - 1);
        assert(ls.push(l)[n - 1] == ls[n - 1]);
    }
}

/// A word gives an average exactly where it begins with `avg10=`, and gives what
/// follows.
pub proof fn law_average_is_read(ws: Seq<Seq<char>>, value: Seq<char>, other: Seq<char>)
    requires
        !begins(other, "avg10="@),
    ensures
        avg10_in(ws.push("avg10="@ + value), ws.len() as int + 1) == avg10_in(
            ws,
            ws.len() as int,
        ).push(value),
        avg10_in(ws.push(other), ws.len() as int + 1) == avg10_in(ws, ws.len() as int),
{
    lemma_headed("avg10="@, value, "avg10="@);
    lemma_avg10_in_longer(ws, "avg10="@ + value, ws.len() as int);
    lemma_avg10_in_longer(ws, other, ws.len() as int);
}

/// What follows does not change which averages there are before.
proof fn lemma_avg10_in_longer(ws: Seq<Seq<char>>, w: Seq<char>, n: int)
    requires
        0 <= n <= ws.len(),
    ensures
        avg10_in(ws.push(w), n) == avg10_in(ws, n),
    decreases n,
{
    if n > 0 {
        lemma_avg10_in_longer(ws, w, n - 1);
        assert(ws.push(w)[n - 1] == ws[n - 1]);
    }
}

/// The service manager's words for the states are read as the states that they
/// name; a service that is on its way down counts as inactive, and one that
/// reloads as activating.
pub proof fn law_states_are_read(s: ServiceActive)
    ensures
        state_of(s.word()) == s,
        state_of("deactivating"@) == ServiceActive::Inactive,
        state_of("reloading"@) == ServiceActive::Activating,
{
    reveal_strlit("active");
    reveal_strlit("inactive");
    reveal_strlit("failed");
    reveal_strlit("activating");
    reveal_strlit("unknown");
    reveal_strlit("deactivating");
    reveal_strlit("reloading");
    assert("active"@.len() == 6 && "inactive"@.len() == 8 && "failed"@.len() == 6 && "failed"@[0]
        == 'f' && "active"@[0] == 'a' && "activating"@.len() == 10 && "unknown"@.len() == 7
        && "deactivating"@.len() == 12 && "reloading"@.len() == 9);
}

/// The service manager is given the action, and the service behind it where
/// there is one.
pub proof fn law_service_is_passed_on(action: Seq<char>, service: Seq<char>)
    ensures
        service.len() > 0 ==> systemctl_args(action, service) == systemctl_args(
            action,
            Seq::empty(),
        ).push(service),
        systemctl_args(action, Seq::empty()) == seq!["systemctl"@, action],
{
    assert(seq!["systemctl"@, action].push(service) =~= seq!["systemctl"@, action, service]);
}

/// A snapshot is of the process that was asked for, at the time it was taken,
/// with the counters that the kernel told; unknown ones are 0.
pub proof fn law_snapshot_is_of_the_process(
    m: ProcessMetrics,
    pid: u32,
    timestamp: Timestamp,
    status: Seq<char>,
    io: Option<&str>,
    fd_count: Option<u32>,
)
    requires
        is_snapshot(m, pid, timestamp, status, io, fd_count),
    ensures
        m.pid == pid,
        m.timestamp == timestamp,
        io is None ==> m.read_bytes == 0 && m.write_bytes == 0,
        io matches Some(t) ==> m.read_bytes == io_told_by(lines(t@), lines(t@).len() as int).read_bytes
            && m.write_bytes == io_told_by(lines(t@), lines(t@).len() as int).write_bytes,
        fd_count is None ==> m.fd_count == 0,
        fd_count matches Some(n) ==> m.fd_count == n,
        ({
            let s = told_by(lines(status), lines(status).len() as int);
            m.state@ == s.state && m.threads == s.threads && m.rss_bytes == s.rss_bytes
                && m.voluntary_ctxt_switches == s.voluntary && m.nonvoluntary_ctxt_switches
                == s.nonvoluntary
        }),
{
}

/// An address is abstract where it begins with `@` or with a NUL, and only
/// there.
pub proof fn law_abstract_by_the_first_character(addr: Seq<char>)
    ensures
        is_abstract("@"@ + addr),
        is_abstract(seq!['\0'] + addr),
        addr.len() == 0 ==> !is_abstract(addr),
        addr.len() > 0 && addr[0] == '/' ==> !is_abstract(addr),
        abstract_bytes("@"@ + addr) == seq![0u8] + encode_utf8(addr),
{
    reveal_strlit("@");
    assert(("@"@ + addr).skip(1) =~= addr);
}

} // verus!
