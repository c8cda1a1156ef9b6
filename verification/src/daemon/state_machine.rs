//! State machine for gateway process classification.
//!
//! The classifier tracks I/O stall duration across ticks to distinguish brief
//! inference pauses from genuine hangs.

use crate::platform::ProcessMetrics;
use crate::util::text::{decimal, same, show};
use crate::util::time_fmt::Timestamp;
use vstd::prelude::*;

verus! {

/// Gateway process state as determined by the watchdog.
#[derive(Debug, Clone, Copy, PartialEq, Eq, Structural)]
pub enum State {
    Unknown,
    Healthy,
    HeavyInference,
    PossibleHang,
    ConfirmedHang,
    Zombie,
    Down,
}

impl State {
    /// The state's label.
    pub open spec fn label(self) -> Seq<char> {
        match self {
            State::Unknown => "UNKNOWN"@,
            State::Healthy => "HEALTHY"@,
            State::HeavyInference => "HEAVY_INFERENCE"@,
            State::PossibleHang => "POSSIBLE_HANG"@,
            State::ConfirmedHang => "CONFIRMED_HANG"@,
            State::Zombie => "ZOMBIE"@,
            State::Down => "DOWN"@,
        }
    }

    /// Human-readable label.
    pub fn as_str(&self) -> (r: &'static str)
        ensures
            r@ == self.label(),
    {
        match self {
            State::Unknown => "UNKNOWN",
            State::Healthy => "HEALTHY",
            State::HeavyInference => "HEAVY_INFERENCE",
            State::PossibleHang => "POSSIBLE_HANG",
            State::ConfirmedHang => "CONFIRMED_HANG",
            State::Zombie => "ZOMBIE",
            State::Down => "DOWN",
        }
    }

    /// Whether this state warrants immediate attention.
    pub fn is_critical(&self) -> (r: bool)
        ensures
            r == (*self == State::ConfirmedHang || *self == State::Zombie || *self
                == State::Down),
    {
        match self {
            State::ConfirmedHang | State::Zombie | State::Down => true,
            _ => false,
        }
    }
}

/// Stateful classifier that tracks I/O stall duration across ticks.
pub struct Classifier {
    /// When the I/O stall was first observed.
    /// `None` means no active stall.
    pub stall_since: Option<Timestamp>,
}

/// A 64-bit pattern read as a number with a sign.
pub open spec fn signed(x: u64) -> int {
    if x < 0x8000_0000_0000_0000 {
        x as int
    } else {
        x - 0x1_0000_0000_0000_0000
    }
}

/// A 64-bit pattern read as a number with a sign.
fn as_signed(x: u64) -> (r: i128)
    ensures
        r == signed(x),
{
    if x < 0x8000_0000_0000_0000 {
        x as i128
    } else {
        x as i128 - 0x1_0000_0000_0000_0000
    }
}

/// Fits in 64 bits with a sign.
pub open spec fn fits(x: int) -> bool {
    i64::MIN <= x <= i64::MAX
}

/// The bytes read and written between two snapshots of one process.
pub open spec fn io_delta(m: ProcessMetrics, prev: ProcessMetrics) -> int {
    (signed(m.read_bytes) - signed(prev.read_bytes)) + (signed(m.write_bytes) - signed(
        prev.write_bytes,
    ))
}

/// The context switches between two snapshots of one process.
pub open spec fn ctx_delta(m: ProcessMetrics, prev: ProcessMetrics) -> int {
    (signed(m.voluntary_ctxt_switches) - signed(prev.voluntary_ctxt_switches)) + (signed(
        m.nonvoluntary_ctxt_switches,
    ) - signed(prev.nonvoluntary_ctxt_switches))
}

/// The counters of two snapshots can be compared in 64-bit arithmetic.
pub open spec fn comparable(m: ProcessMetrics, prev: ProcessMetrics) -> bool {
    &&& fits(signed(m.read_bytes) - signed(prev.read_bytes))
    &&& fits(signed(m.write_bytes) - signed(prev.write_bytes))
    &&& fits(io_delta(m, prev))
    &&& fits(signed(m.voluntary_ctxt_switches) - signed(prev.voluntary_ctxt_switches))
    &&& fits(signed(m.nonvoluntary_ctxt_switches) - signed(prev.nonvoluntary_ctxt_switches))
    &&& fits(ctx_delta(m, prev))
}

/// Whether a number fits in 64 bits with a sign.
fn is_fitting(x: i128) -> (r: bool)
    ensures
        r == fits(x as int),
{
    i64::MIN as i128 <= x && x <= i64::MAX as i128
}

/// Whether the counters of two snapshots can be compared in 64-bit arithmetic.
pub fn is_comparable(m: &ProcessMetrics, prev: &ProcessMetrics) -> (r: bool)
    ensures
        r == comparable(*m, *prev),
{
    let read: i128 = as_signed(m.read_bytes) - as_signed(prev.read_bytes);
    let written: i128 = as_signed(m.write_bytes) - as_signed(prev.write_bytes);
    let voluntary: i128 = as_signed(m.voluntary_ctxt_switches) - as_signed(
        prev.voluntary_ctxt_switches,
    );
    let forced: i128 = as_signed(m.nonvoluntary_ctxt_switches) - as_signed(
        prev.nonvoluntary_ctxt_switches,
    );
    is_fitting(read) && is_fitting(written) && is_fitting(read + written) && is_fitting(voluntary)
        && is_fitting(forced) && is_fitting(voluntary + forced)
}

/// The process worked since the previous snapshot: it moved more bytes than
/// `io_threshold` or switched more often than `ctx_threshold`. A snapshot of
/// another process, or none, counts as no work.
pub open spec fn active(
    m: ProcessMetrics,
    prev: Option<ProcessMetrics>,
    io_threshold: u64,
    ctx_threshold: u64,
) -> bool {
    match prev {
        Some(p) if p.pid == m.pid => io_delta(m, p) > signed(io_threshold) || ctx_delta(m, p)
            > signed(ctx_threshold),
        _ => 0 > signed(io_threshold) || 0 > signed(ctx_threshold),
    }
}

/// What a stall of `nanos` nanoseconds means.
pub open spec fn stall_state(nanos: int, hang_warn_secs: u64, hang_crit_secs: u64) -> State {
    if nanos > hang_crit_secs * 1_000_000_000 {
        State::ConfirmedHang
    } else if nanos > hang_warn_secs * 1_000_000_000 {
        State::PossibleHang
    } else {
        State::HeavyInference
    }
}

/// The state of the gateway, and since when it has stalled.
pub open spec fn verdict(
    stall_since: Option<Timestamp>,
    metrics: Option<ProcessMetrics>,
    prev: Option<ProcessMetrics>,
    http_ok: bool,
    now: Timestamp,
    hang_warn_secs: u64,
    hang_crit_secs: u64,
    io_threshold: u64,
    ctx_threshold: u64,
) -> (State, Option<Timestamp>) {
    match metrics {
        None => (State::Down, None),
        Some(m) => if m.state@ == "Z"@ {
            (State::Zombie, None)
        } else if http_ok {
            (State::Healthy, None)
        } else if active(m, prev, io_threshold, ctx_threshold) {
            (State::HeavyInference, None)
        } else {
            let since = match stall_since {
                Some(t) => t,
                None => now,
            };
            (stall_state(now.since(since), hang_warn_secs, hang_crit_secs), Some(since))
        },
    }
}

/// The snapshot behind a reference.
pub open spec fn snapshot(m: Option<&ProcessMetrics>) -> Option<ProcessMetrics> {
    match m {
        Some(m) => Some(*m),
        None => None,
    }
}

impl Classifier {
    /// A classifier that has seen no stall.
    pub fn new() -> (r: Self)
        ensures
            r.stall_since is None,
    {
        Classifier { stall_since: None }
    }

    /// Classify the current gateway process state.
    ///
    /// - `metrics`: current /proc snapshot, or `None` if PID not found
    /// - `prev_metrics`: previous collection cycle snapshot
    /// - `http_ok`: whether `/health` returned HTTP 200
    /// - `now`: current time
    pub fn classify(
        &mut self,
        metrics: Option<&ProcessMetrics>,
        prev_metrics: Option<&ProcessMetrics>,
        http_ok: bool,
        now: Timestamp,
        hang_warn_secs: u64,
        hang_crit_secs: u64,
        io_delta_threshold: u64,
        ctx_switch_threshold: u64,
    ) -> (r: State)
        requires
            match (metrics, prev_metrics) {
                (Some(m), Some(p)) => m.state@ == "Z"@ || http_ok || m.pid != p.pid || comparable(
                    *m,
                    *p,
                ),
                _ => true,
            },
        ensures
            (r, final(self).stall_since) == verdict(
                old(self).stall_since,
                snapshot(metrics),
                snapshot(prev_metrics),
                http_ok,
                now,
                hang_warn_secs,
                hang_crit_secs,
                io_delta_threshold,
                ctx_switch_threshold,
            ),
    {
        // No process found -> DOWN
        let metrics = match metrics {
            Some(m) => m,
            None => {
                self.stall_since = None;
                return State::Down;
            },
        };
        // Zombie check
        if same(metrics.state.as_str(), "Z") {
            self.stall_since = None;
            return State::Zombie;
        }
        // HTTP responds -> HEALTHY
        if http_ok {
            self.stall_since = None;
            return State::Healthy;
        }
        // HTTP down -- analyse I/O activity
        let mut io: i128 = 0;
        let mut ctx: i128 = 0;
        if let Some(prev) = prev_metrics {
            if prev.pid == metrics.pid {
                io = (as_signed(metrics.read_bytes) - as_signed(prev.read_bytes)) + (as_signed(
                    metrics.write_bytes,
                ) - as_signed(prev.write_bytes));
                ctx = (as_signed(metrics.voluntary_ctxt_switches) - as_signed(
                    prev.voluntary_ctxt_switches,
                )) + (as_signed(metrics.nonvoluntary_ctxt_switches) - as_signed(
                    prev.nonvoluntary_ctxt_switches,
                ));
            }
        }
        // Active I/O -> normal inference, reset stall timer
        if io > as_signed(io_delta_threshold) || ctx > as_signed(ctx_switch_threshold) {
            self.stall_since = None;
            return State::HeavyInference;
        }
        // I/O stalled -- start or continue tracking
        let since = match self.stall_since {
            Some(t) => t,
            None => now,
        };
        self.stall_since = Some(since);
        if now.more_than(&since, hang_crit_secs) {
            return State::ConfirmedHang;
        }
        if now.more_than(&since, hang_warn_secs) {
            return State::PossibleHang;
        }
        // Brief stall, not yet concerning
        State::HeavyInference
    }
}

/// The alert (level and message) that a change of state deserves.
pub open spec fn transition_alert(
    old_state: State,
    new_state: State,
    hang_warn_secs: u64,
    hang_crit_secs: u64,
) -> Option<(Seq<char>, Seq<char>)> {
    if old_state == new_state {
        None
    } else {
        match new_state {
            State::Healthy => if old_state == State::HeavyInference {
                None
            } else {
                Some(("INFO"@, "Gateway recovered: "@ + old_state.label() + " -> HEALTHY"@))
            },
            State::PossibleHang => Some(
                (
                    "WARNING"@,
                    "Gateway may be hung (I/O stalled >"@ + decimal(hang_warn_secs as nat)
                        + "s)"@,
                ),
            ),
            State::ConfirmedHang => Some(
                (
                    "CRITICAL"@,
                    "Gateway CONFIRMED hung (I/O stalled >"@ + decimal(hang_crit_secs as nat)
                        + "s)"@,
                ),
            ),
            State::Zombie => Some(("CRITICAL"@, "Gateway process is ZOMBIE (state=Z)"@)),
            State::Down => Some(("WARNING"@, "Gateway process DOWN (PID not found)"@)),
            State::Unknown | State::HeavyInference => None,
        }
    }
}

/// The view of an alert.
pub open spec fn alert_view(a: Option<(&'static str, String)>) -> Option<(Seq<char>, Seq<char>)> {
    match a {
        Some((level, message)) => Some((level@, message@)),
        None => None,
    }
}

/// Determine what alert (if any) should fire on a state transition.
///
/// Returns `Some((level, message))` when an alert should be sent, or `None`
/// if no alert is warranted (same state, or a non-alertable transition).
pub fn alert_on_transition(
    old_state: State,
    new_state: State,
    hang_warn_secs: u64,
    hang_crit_secs: u64,
) -> (r: Option<(&'static str, String)>)
    ensures
        alert_view(r) == transition_alert(old_state, new_state, hang_warn_secs, hang_crit_secs),
{
    if old_state == new_state {
        return None;
    }
    match new_state {
        State::Healthy => {
            if old_state == State::HeavyInference {
                return None;
            }
            let mut m = "Gateway recovered: ".to_owned();
            m.append(old_state.as_str());
            m.append(" -> HEALTHY");
            Some(("INFO", m))
        },
        State::PossibleHang => {
            let mut m = "Gateway may be hung (I/O stalled >".to_owned();
            m.append(show(hang_warn_secs).as_str());
            m.append("s)");
            Some(("WARNING", m))
        },
        State::ConfirmedHang => {
            let mut m = "Gateway CONFIRMED hung (I/O stalled >".to_owned();
            m.append(show(hang_crit_secs).as_str());
            m.append("s)");
            Some(("CRITICAL", m))
        },
        State::Zombie => Some(("CRITICAL", "Gateway process is ZOMBIE (state=Z)".to_owned())),
        State::Down => Some(("WARNING", "Gateway process DOWN (PID not found)".to_owned())),
        State::Unknown | State::HeavyInference => None,
    }
}

/// A stall is remembered exactly as long as the gateway is silent and idle:
/// whenever the process is gone, a zombie, answering or working, the classifier
/// forgets it.
pub proof fn law_stall_forgotten(
    stall_since: Option<Timestamp>,
    metrics: Option<ProcessMetrics>,
    prev: Option<ProcessMetrics>,
    http_ok: bool,
    now: Timestamp,
    hang_warn_secs: u64,
    hang_crit_secs: u64,
    io_threshold: u64,
    ctx_threshold: u64,
)
    ensures
        verdict(
            stall_since,
            metrics,
            prev,
            http_ok,
            now,
            hang_warn_secs,
            hang_crit_secs,
            io_threshold,
            ctx_threshold,
        ).1 is None <==> match metrics {
            None => true,
            Some(m) => m.state@ == "Z"@ || http_ok || active(
                m,
                prev,
                io_threshold,
                ctx_threshold,
            ),
        },
{
}

/// While a stall lasts the verdict only gets worse: later never means less
/// severe than earlier.
pub proof fn law_stall_escalates(
    since: Timestamp,
    earlier: Timestamp,
    later: Timestamp,
    hang_warn_secs: u64,
    hang_crit_secs: u64,
)
    requires
        earlier.since(since) <= later.since(since),
    ensures
        stall_state(earlier.since(since), hang_warn_secs, hang_crit_secs) == State::ConfirmedHang
            ==> stall_state(later.since(since), hang_warn_secs, hang_crit_secs)
            == State::ConfirmedHang,
        stall_state(later.since(since), hang_warn_secs, hang_crit_secs) == State::HeavyInference
            ==> stall_state(earlier.since(since), hang_warn_secs, hang_crit_secs)
            == State::HeavyInference,
{
}

/// A first silent and idle tick never alarms by itself: it starts the clock.
pub proof fn law_stall_starts_quietly(
    m: ProcessMetrics,
    prev: Option<ProcessMetrics>,
    now: Timestamp,
    hang_warn_secs: u64,
    hang_crit_secs: u64,
    io_threshold: u64,
    ctx_threshold: u64,
)
    requires
        m.state@ != "Z"@,
    ensures
        verdict(
            None,
            Some(m),
            prev,
            false,
            now,
            hang_warn_secs,
            hang_crit_secs,
            io_threshold,
            ctx_threshold,
        ).0 == State::HeavyInference,
{
}

/// A counter that has the sign bit set counts as negative, any other as itself.
pub proof fn law_signed_is_twos_complement(x: u64)
    ensures
        x <= i64::MAX ==> signed(x) == x,
        x > i64::MAX ==> signed(x) == x - u64::MAX - 1,
{
}

/// A process that works is not hung: of two snapshots of one live process whose
/// gateway is silent, the bytes read and written since, taken together, or the
/// context switches of both kinds, taken together, beyond their threshold mean
/// inference, and end any stall. Each of the four counters is enough by itself.
pub proof fn law_work_is_no_hang(
    stall_since: Option<Timestamp>,
    m: ProcessMetrics,
    p: ProcessMetrics,
    now: Timestamp,
    hang_warn_secs: u64,
    hang_crit_secs: u64,
    io_threshold: u64,
    ctx_threshold: u64,
)
    requires
        m.state@ != "Z"@,
        m.pid == p.pid,
    ensures
        ({
            let v = verdict(
                stall_since,
                Some(m),
                Some(p),
                false,
                now,
                hang_warn_secs,
                hang_crit_secs,
                io_threshold,
                ctx_threshold,
            );
            let read = signed(m.read_bytes) - signed(p.read_bytes);
            let written = signed(m.write_bytes) - signed(p.write_bytes);
            let voluntary = signed(m.voluntary_ctxt_switches) - signed(p.voluntary_ctxt_switches);
            let forced = signed(m.nonvoluntary_ctxt_switches) - signed(
                p.nonvoluntary_ctxt_switches,
            );
            let (io, ctx) = (signed(io_threshold), signed(ctx_threshold));
            &&& read + written > io || voluntary + forced > ctx ==> v == (
                State::HeavyInference,
                None::<Timestamp>,
            )
            &&& !(read + written > io || voluntary + forced > ctx) ==> v.1 is Some
            &&& read > io && written == 0 ==> v == (State::HeavyInference, None::<Timestamp>)
            &&& read == 0 && written > io ==> v == (State::HeavyInference, None::<Timestamp>)
            &&& voluntary > ctx && forced == 0 ==> v == (State::HeavyInference, None::<Timestamp>)
            &&& voluntary == 0 && forced > ctx ==> v == (State::HeavyInference, None::<Timestamp>)
        }),
{
}

/// A silent and idle process stalls from the first such tick on, and the time
/// since then decides: beyond the critical limit it is hung, beyond the warning
/// limit it may be, and before that nothing is wrong yet.
pub proof fn law_idle_process_stalls(
    stall_since: Option<Timestamp>,
    m: ProcessMetrics,
    prev: Option<ProcessMetrics>,
    now: Timestamp,
    hang_warn_secs: u64,
    hang_crit_secs: u64,
    io_threshold: u64,
    ctx_threshold: u64,
)
    requires
        m.state@ != "Z"@,
        io_threshold <= i64::MAX,
        ctx_threshold <= i64::MAX,
        prev matches Some(p) ==> p.pid != m.pid || (p.read_bytes == m.read_bytes && p.write_bytes
            == m.write_bytes && p.voluntary_ctxt_switches == m.voluntary_ctxt_switches
            && p.nonvoluntary_ctxt_switches == m.nonvoluntary_ctxt_switches),
    ensures
        ({
            let v = verdict(
                stall_since,
                Some(m),
                prev,
                false,
                now,
                hang_warn_secs,
                hang_crit_secs,
                io_threshold,
                ctx_threshold,
            );
            let since = if stall_since is Some {
                stall_since->0
            } else {
                now
            };
            let nanos = (now.secs - since.secs) * 1_000_000_000 + (now.nanos - since.nanos);
            &&& v.1 == Some(since)
            &&& nanos > hang_crit_secs * 1_000_000_000 ==> v.0 == State::ConfirmedHang
            &&& hang_warn_secs * 1_000_000_000 < nanos <= hang_crit_secs * 1_000_000_000 ==> v.0
                == State::PossibleHang
            &&& nanos <= hang_warn_secs * 1_000_000_000 && nanos <= hang_crit_secs * 1_000_000_000
                ==> v.0 == State::HeavyInference
        }),
{
}

/// What decides first, whatever else was seen: no process means down, a zombie
/// is one even where it answers, and any other process that answers is healthy.
/// None of these leaves a stall, and none comes about otherwise.
pub proof fn law_plain_cases_come_first(
    stall_since: Option<Timestamp>,
    metrics: Option<ProcessMetrics>,
    prev: Option<ProcessMetrics>,
    http_ok: bool,
    now: Timestamp,
    hang_warn_secs: u64,
    hang_crit_secs: u64,
    io_threshold: u64,
    ctx_threshold: u64,
)
    ensures
        ({
            let v = verdict(
                stall_since,
                metrics,
                prev,
                http_ok,
                now,
                hang_warn_secs,
                hang_crit_secs,
                io_threshold,
                ctx_threshold,
            );
            &&& v.0 == State::Down <==> metrics is None
            &&& v.0 == State::Zombie <==> (metrics matches Some(m) && m.state@ == "Z"@)
            &&& v.0 == State::Healthy <==> (metrics matches Some(m) && m.state@ != "Z"@
                && http_ok)
            &&& v.0 == State::Down || v.0 == State::Zombie || v.0 == State::Healthy ==> v.1 is None
            &&& v.0 != State::Unknown
        }),
{
}

/// Which changes of state raise an alert, and how loud: every change but one to
/// inference, to the unknown, or from inference to health. A confirmed hang and
/// a zombie are critical, a recovery is for information, the rest warn.
pub proof fn law_transitions_are_graded(
    old_state: State,
    new_state: State,
    hang_warn_secs: u64,
    hang_crit_secs: u64,
)
    ensures
        ({
            let a = transition_alert(old_state, new_state, hang_warn_secs, hang_crit_secs);
            &&& a is None <==> old_state == new_state || new_state == State::Unknown || new_state
                == State::HeavyInference || (old_state == State::HeavyInference && new_state
                == State::Healthy)
            &&& a is Some && (new_state == State::ConfirmedHang || new_state == State::Zombie)
                ==> (a->0).0 == "CRITICAL"@
            &&& a is Some && new_state == State::Healthy ==> (a->0).0 == "INFO"@
            &&& a is Some && (new_state == State::PossibleHang || new_state == State::Down)
                ==> (a->0).0 == "WARNING"@
        }),
{
}

/// The alert of a hang names the limit that was passed, and that of a recovery
/// the state it recovered from.
pub proof fn law_alerts_name_their_cause(
    old_state: State,
    new_state: State,
    hang_warn_secs: u64,
    hang_crit_secs: u64,
    other_warn: u64,
    other_crit: u64,
)
    requires
        old_state != new_state,
    ensures
        ({
            let a = transition_alert(old_state, new_state, hang_warn_secs, hang_crit_secs);
            let b = transition_alert(old_state, new_state, other_warn, other_crit);
            &&& new_state == State::PossibleHang ==> (a == b <==> hang_warn_secs == other_warn)
            &&& new_state == State::ConfirmedHang ==> (a == b <==> hang_crit_secs == other_crit)
            &&& new_state != State::PossibleHang && new_state != State::ConfirmedHang ==> a == b
        }),
        new_state == State::Healthy && old_state != State::HeavyInference ==> exists|i: int|
            #![trigger old_state.label().len() + i]
            0 <= i && (transition_alert(
                old_state,
                new_state,
                hang_warn_secs,
                hang_crit_secs,
            )->0).1.subrange(i, i + old_state.label().len()) == old_state.label(),
{
    let a = transition_alert(old_state, new_state, hang_warn_secs, hang_crit_secs);
    let b = transition_alert(old_state, new_state, other_warn, other_crit);
    if new_state == State::PossibleHang {
        lemma_number_inside(
            "Gateway may be hung (I/O stalled >"@,
            hang_warn_secs as nat,
            other_warn as nat,
            "s)"@,
        );
    } else if new_state == State::ConfirmedHang {
        lemma_number_inside(
            "Gateway CONFIRMED hung (I/O stalled >"@,
            hang_crit_secs as nat,
            other_crit as nat,
            "s)"@,
        );
    } else if new_state == State::Healthy && old_state != State::HeavyInference {
        let head = "Gateway recovered: "@;
        let label = old_state.label();
        let i = head.len() as int;
        assert((a->0).1.subrange(i, i + label.len()) =~= label);
        assert(label.len() + i == i + label.len());
    }
}

/// Two texts that differ in one number are equal exactly where the number is.
proof fn lemma_number_inside(head: Seq<char>, a: nat, b: nat, end: Seq<char>)
    ensures
        head + decimal(a) + end == head + decimal(b) + end <==> a == b,
{
    if head + decimal(a) + end == head + decimal(b) + end {
        crate::util::text::lemma_decimal_reads_back(a);
        crate::util::text::lemma_decimal_reads_back(b);
        let (s, t) = (head + decimal(a) + end, head + decimal(b) + end);
        assert(s.len() == head.len() + decimal(a).len() + end.len());
        assert(t.len() == head.len() + decimal(b).len() + end.len());
        let (i, n) = (head.len() as int, decimal(a).len() as int);
        assert(s.subrange(i, i + n) =~= decimal(a));
        assert(t.subrange(i, i + n) =~= decimal(b));
    }
}

/// What fits is what a signed 64-bit number holds.
pub proof fn law_what_fits(x: int)
    ensures
        fits(x) <==> -0x8000_0000_0000_0000 <= x < 0x8000_0000_0000_0000,
{
}

} // verus!
