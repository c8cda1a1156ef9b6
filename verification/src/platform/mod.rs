//! What the operating systems have in common: process metrics, service states,
//! and the choice of a platform.

pub mod command;
pub mod container;
pub mod etime;
pub mod freebsd;
pub mod linux;
pub mod macos;

use crate::util::text::{contains, holds_text};
use crate::util::time_fmt::Timestamp;
use vstd::prelude::*;

verus! {

/// Process metrics snapshot collected from /proc (Linux), `ps` (macOS/FreeBSD),
/// or equivalent.
///
/// All fields default to zero so that partial reads (e.g. /proc/<pid>/io
/// requires elevated perms) degrade gracefully.
#[derive(Debug, Clone)]
pub struct ProcessMetrics {
    pub pid: u32,
    pub state: String,
    pub read_bytes: u64,
    pub write_bytes: u64,
    pub voluntary_ctxt_switches: u64,
    pub nonvoluntary_ctxt_switches: u64,
    pub threads: u32,
    pub rss_bytes: u64,
    pub fd_count: u32,
    pub timestamp: Timestamp,
}

impl ProcessMetrics {
    /// Nothing is known beyond the process's number and the time.
    pub open spec fn blank(self, pid: u32, timestamp: Timestamp) -> bool {
        &&& self.pid == pid
        &&& self.state@ == Seq::<char>::empty()
        &&& self.read_bytes == 0
        &&& self.write_bytes == 0
        &&& self.voluntary_ctxt_switches == 0
        &&& self.nonvoluntary_ctxt_switches == 0
        &&& self.threads == 0
        &&& self.rss_bytes == 0
        &&& self.fd_count == 0
        &&& self.timestamp == timestamp
    }

    /// Metrics of which nothing is known yet.
    pub fn at(pid: u32, timestamp: Timestamp) -> (r: Self)
        ensures
            r.blank(pid, timestamp),
    {
        ProcessMetrics {
            pid,
            state: String::new(),
            read_bytes: 0,
            write_bytes: 0,
            voluntary_ctxt_switches: 0,
            nonvoluntary_ctxt_switches: 0,
            threads: 0,
            rss_bytes: 0,
            fd_count: 0,
            timestamp,
        }
    }
}

impl Default for ProcessMetrics {
    fn default() -> (r: Self)
        ensures
            r.blank(0, Timestamp { secs: 0, nanos: 0 }),
    {
        ProcessMetrics::at(0, Timestamp { secs: 0, nanos: 0 })
    }
}

/// Service active state — maps systemd `ActiveState`, launchd state, and
/// rc.d status to a common enum.
#[derive(Debug, Clone, Copy, PartialEq, Eq, Structural)]
pub enum ServiceActive {
    Active,
    Inactive,
    Failed,
    Activating,
    Unknown,
}

impl ServiceActive {
    /// The state in one word.
    pub open spec fn word(self) -> Seq<char> {
        match self {
            ServiceActive::Active => "active"@,
            ServiceActive::Inactive => "inactive"@,
            ServiceActive::Failed => "failed"@,
            ServiceActive::Activating => "activating"@,
            ServiceActive::Unknown => "unknown"@,
        }
    }

    /// The state in one word.
    pub fn as_str(&self) -> (r: &'static str)
        ensures
            r@ == self.word(),
    {
        match self {
            ServiceActive::Active => "active",
            ServiceActive::Inactive => "inactive",
            ServiceActive::Failed => "failed",
            ServiceActive::Activating => "activating",
            ServiceActive::Unknown => "unknown",
        }
    }
}

/// The platforms that a Linux system can be run as.
#[derive(Debug, Clone, Copy, PartialEq, Eq, Structural)]
pub enum LinuxKind {
    Systemd,
    OpenRc,
    Container,
    Generic,
}

/// Which platform a Linux system is. The init systems come first: systemd,
/// then OpenRC, then a container without one.
pub fn detect(systemd: bool, openrc: bool, container: bool) -> (r: LinuxKind)
    ensures
        systemd ==> r == LinuxKind::Systemd,
        !systemd && openrc ==> r == LinuxKind::OpenRc,
        !systemd && !openrc && container ==> r == LinuxKind::Container,
        !systemd && !openrc && !container ==> r == LinuxKind::Generic,
{
    if systemd {
        LinuxKind::Systemd
    } else if openrc {
        LinuxKind::OpenRc
    } else if container {
        LinuxKind::Container
    } else {
        LinuxKind::Generic
    }
}

/// The control groups of process 1 name a container runtime.
pub open spec fn in_container(cgroup: Seq<char>) -> bool {
    holds_text(cgroup, "docker"@) || holds_text(cgroup, "lxc"@) || holds_text(cgroup, "kubepods"@)
}

/// Detect whether we are running inside a container.
///
/// `docker_marker` and `podman_marker` say whether `/.dockerenv` and
/// `/run/.containerenv` exist; `cgroup` is the text of `/proc/1/cgroup`.
pub fn is_container(docker_marker: bool, podman_marker: bool, cgroup: Option<&str>) -> (r: bool)
    ensures
        r == (docker_marker || podman_marker || match cgroup {
            Some(c) => in_container(c@),
            None => false,
        }),
{
    docker_marker || podman_marker || match cgroup {
        Some(c) => contains(c, "docker") || contains(c, "lxc") || contains(c, "kubepods"),
        None => false,
    }
}

/// Any of the container engines gives itself away by its name alone, and without
/// any of the names there is no container.
pub proof fn law_engines_give_themselves_away(cgroup: Seq<char>)
    ensures
        holds_text(cgroup, "docker"@) ==> in_container(cgroup),
        holds_text(cgroup, "lxc"@) ==> in_container(cgroup),
        holds_text(cgroup, "kubepods"@) ==> in_container(cgroup),
        in_container(cgroup) ==> holds_text(cgroup, "docker"@) || holds_text(cgroup, "lxc"@)
            || holds_text(cgroup, "kubepods"@),
{
}

} // verus!
