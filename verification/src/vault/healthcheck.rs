//! Four-factor health check for the OpenClaw gateway: service state, HTTP
//! responsiveness, memory pressure, and restart count.

use crate::platform::ServiceActive;
use crate::util::text::{decimal, contains, holds_text, number, parse, parse_or, show, trim, trim_white, views};
use vstd::prelude::*;

verus! {

/// Health state persisted between runs.
pub struct HealthState {
    pub timestamp: String,
    pub http_code: String,
    pub mem_current: String,
    pub restarts: u64,
}

impl HealthState {
    /// What the state holds.
    pub open spec fn holds(
        self,
        timestamp: Seq<char>,
        http_code: Seq<char>,
        mem_current: Seq<char>,
        restarts: u64,
    ) -> bool {
        &&& self.timestamp@ == timestamp
        &&& self.http_code@ == http_code
        &&& self.mem_current@ == mem_current
        &&& self.restarts == restarts
    }
}

impl Default for HealthState {
    fn default() -> (r: Self)
        ensures
            r.holds(Seq::empty(), Seq::empty(), Seq::empty(), 0),
    {
        HealthState {
            timestamp: String::new(),
            http_code: String::new(),
            mem_current: String::new(),
            restarts: 0,
        }
    }
}

/// The exit code of the health check: 1 where the service is not active, which is
/// critical, and 0 otherwise, whatever the other checks found.
pub fn exit_code(service: ServiceActive) -> (r: i32)
    ensures
        r == if service == ServiceActive::Active {
            0i32
        } else {
            1i32
        },
{
    match service {
        ServiceActive::Active => 0,
        _ => 1,
    }
}

/// Check 1: the service is active. Where it is not, the CRITICAL alert and the
/// state to save; the check then fails.
pub fn check_service(service: ServiceActive, timestamp: &str) -> (r: Option<(String, HealthState)>)
    ensures
        r is None <==> service == ServiceActive::Active,
        r matches Some((alert, state)) ==> alert@ == "Gateway service not active ("@
            + service.word() + ")"@ && state.holds(
            timestamp@,
            Seq::empty(),
            Seq::empty(),
            0,
        ),
{
    if service == ServiceActive::Active {
        return None;
    }
    let mut alert = "Gateway service not active (".to_owned();
    alert.append(service.as_str());
    alert.append(")");
    let state = HealthState {
        timestamp: timestamp.to_owned(),
        http_code: String::new(),
        mem_current: String::new(),
        restarts: 0,
    };
    Some((alert, state))
}

/// The alerts of the checks of an active service.
pub open spec fn warnings(
    http_ok: bool,
    mem_current: Option<u64>,
    restarts: u64,
    prev_restarts: u64,
) -> Seq<Seq<char>> {
    let a = if http_ok {
        Seq::empty()
    } else {
        seq!["Gateway not responding to HTTP health check"@]
    };
    let b = match mem_current {
        Some(bytes) => if bytes / 1048576 > 7168 {
            a.push(
                "Gateway memory at "@ + decimal((bytes / 1048576) as nat)
                    + "MB (limit: 8192MB)"@,
            )
        } else {
            a
        },
        None => a,
    };
    if restarts > 0 && restarts > prev_restarts {
        b.push(
            "Gateway restarted (count: "@ + decimal(restarts as nat) + ", was: "@ + decimal(
                prev_restarts as nat,
            ) + ")"@,
        )
    } else {
        b
    }
}

/// Checks 2 to 4 of an active service: HTTP, memory, restarts. Returns the
/// state to save and the WARNING alerts. The check then succeeds.
pub fn run(
    timestamp: &str,
    http_ok: bool,
    mem_current: Option<u64>,
    restarts: u64,
    prev_restarts: u64,
) -> (r: (HealthState, Vec<String>))
    ensures
        r.0.holds(
            timestamp@,
            if http_ok {
                "200"@
            } else {
                "000"@
            },
            match mem_current {
                Some(b) => decimal(b as nat),
                None => "0"@,
            },
            restarts,
        ),
        views(r.1@) == warnings(http_ok, mem_current, restarts, prev_restarts),
{
    let mut alerts: Vec<String> = Vec::new();
    // Check 2: HTTP responsive
    let http_code = if http_ok {
        "200".to_owned()
    } else {
        alerts.push("Gateway not responding to HTTP health check".to_owned());
        "000".to_owned()
    };
    // Check 3: Memory pressure
    let mem = match mem_current {
        Some(bytes) => {
            let mb: u64 = bytes / 1048576;
            if mb > 7168 {
                // >7GB
                let mut m = "Gateway memory at ".to_owned();
                m.append(show(mb).as_str());
                m.append("MB (limit: 8192MB)");
                alerts.push(m);
            }
            show(bytes)
        },
        None => "0".to_owned(),
    };
    // Check 4: Restart count (detect crash loops)
    if restarts > 0 && restarts > prev_restarts {
        let mut m = "Gateway restarted (count: ".to_owned();
        m.append(show(restarts).as_str());
        m.append(", was: ");
        m.append(show(prev_restarts).as_str());
        m.append(")");
        alerts.push(m);
    }
    assert(views(alerts@) =~= warnings(http_ok, mem_current, restarts, prev_restarts));
    (
        HealthState { timestamp: timestamp.to_owned(), http_code, mem_current: mem, restarts },
        alerts,
    )
}

/// The memory that systemd reports: a number, unless accounting is disabled.
pub open spec fn memory_of(output: Seq<char>) -> Option<nat> {
    let t = trim_white(output);
    if t.len() == 0 || holds_text(t, "not set"@) {
        None
    } else {
        number(t, u64::MAX as nat)
    }
}

/// MemoryCurrent, from the output of `systemctl show`; `None` where it failed.
pub fn read_memory_current(output: Option<&str>) -> (r: Option<u64>)
    ensures
        match output {
            Some(o) => match r {
                Some(n) => memory_of(o@) == Some(n as nat),
                None => memory_of(o@) is None,
            },
            None => r is None,
        },
{
    let o = match output {
        Some(o) => o,
        None => return None,
    };
    let t = trim(o);
    // systemd returns "[not set]" when cgroup accounting is disabled
    if t.is_empty() || contains(t, "not set") {
        return None;
    }
    parse(t, u64::MAX)
}

/// NRestarts, from the output of `systemctl show`; `None` where it failed.
pub fn read_restart_count(output: Option<&str>) -> (r: u64)
    ensures
        r == match output {
            Some(o) => number(trim_white(o@), u64::MAX as nat).unwrap_or(0),
            None => 0,
        },
{
    match output {
        Some(o) => parse_or(trim(o), u64::MAX, 0),
        None => 0,
    }
}

/// The factors are independent: each alert is raised exactly where its own
/// factor calls for it, whatever the other factors say, and nothing else is. A
/// failed HTTP check, more than 7168 MiB of memory, and a restart count that has
/// grown call for one alert each.
pub proof fn law_factors_are_independent(
    http_ok: bool,
    mem_current: Option<u64>,
    restarts: u64,
    prev_restarts: u64,
)
    ensures
        ({
            let w = warnings(http_ok, mem_current, restarts, prev_restarts);
            let http = "Gateway not responding to HTTP health check"@;
            let memory = "Gateway memory at "@ + decimal((mem_current->0 / 1048576) as nat)
                + "MB (limit: 8192MB)"@;
            let restarted = "Gateway restarted (count: "@ + decimal(restarts as nat) + ", was: "@
                + decimal(prev_restarts as nat) + ")"@;
            let high = mem_current is Some && mem_current->0 >= 7169 * 1048576;
            let grown = restarts > prev_restarts;
            &&& w.contains(http) <==> !http_ok
            &&& mem_current is Some ==> (w.contains(memory) <==> high)
            &&& w.contains(restarted) <==> grown
            &&& w.len() == (if http_ok {
                0int
            } else {
                1
            }) + (if high {
                1int
            } else {
                0
            }) + (if grown {
                1int
            } else {
                0
            })
            &&& forall|i: int|
                0 <= i < w.len() ==> (#[trigger] w[i]) == http || w[i] == memory || w[i]
                    == restarted
        }),
{
    reveal_strlit("Gateway not responding to HTTP health check");
    reveal_strlit("Gateway memory at ");
    reveal_strlit("Gateway restarted (count: ");
    let w = warnings(http_ok, mem_current, restarts, prev_restarts);
    let http = "Gateway not responding to HTTP health check"@;
    let memory = "Gateway memory at "@ + decimal((mem_current->0 / 1048576) as nat)
        + "MB (limit: 8192MB)"@;
    let restarted = "Gateway restarted (count: "@ + decimal(restarts as nat) + ", was: "@ + decimal(
        prev_restarts as nat,
    ) + ")"@;
    let high = mem_current is Some && mem_current->0 >= 7169 * 1048576;
    let grown = restarts > prev_restarts;
    assert(http[8] == 'n' && memory[8] == 'm' && restarted[8] == 'r');
    let first = if http_ok {
        0int
    } else {
        1int
    };
    if !http_ok {
        assert(w[0] == http);
    }
    if high {
        assert(w[first] == memory);
    }
    if grown {
        assert(w[w.len() - 1] == restarted);
    }
}

/// The memory is read as the service manager writes it; where it writes nothing,
/// it is not known.
pub proof fn law_memory_is_read(n: u64)
    ensures
        memory_of(decimal(n as nat)) == Some(n as nat),
        memory_of(Seq::empty()) is None,
{
    let d = decimal(n as nat);
    crate::util::text::lemma_decimal_reads_back(n as nat);
    crate::util::text::lemma_nothing_to_trim(d, crate::util::text::Class::White);
    assert(trim_white(d) == d);
    reveal_strlit("not set");
    if holds_text(d, "not set"@) {
        let i = choose|i: int| crate::util::text::occurs_at(d, "not set"@, i);
        assert(d.subrange(i, i + 7)[0] == d[i]);
        assert(crate::util::text::is_digit(d[i]));
    }
    let e = Seq::<char>::empty();
    assert(trim_white(e).len() == 0);
}

/// The state that is kept holds one value of each kind.
pub proof fn law_state_holds_one_value_each(
    s: HealthState,
    timestamp: Seq<char>,
    http_code: Seq<char>,
    mem_current: Seq<char>,
    restarts: u64,
)
    requires
        s.holds(timestamp, http_code, mem_current, restarts),
    ensures
        s.timestamp@ == timestamp,
        s.http_code@ == http_code,
        s.mem_current@ == mem_current,
        s.restarts == restarts,
{
}

} // verus!
