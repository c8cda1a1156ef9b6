//! Auto-healing logic — three-step escalation for gateway recovery.
//!
//! Escalation steps:
//!   1a. CONFIRMED_HANG -> restart gateway service
//!   1b. DOWN + systemd failed -> reset-failed + restart
//!       (DOWN + inactive = user stopped it, skip;
//!        DOWN + activating = systemd retrying, wait)
//!   2.  If still down after settle period -> auto-recover from LKG
//!
//! One restart attempt per incident. 30-minute cooldown after recovery.

use crate::config::Config;
use crate::daemon::state_machine::State;
use crate::platform::ServiceActive;
use crate::util::text::{chars_of, sub_text};
use crate::util::time_fmt::Timestamp;
use vstd::prelude::*;

verus! {

/// Tracks auto-heal state across ticks.
pub struct AutoHealer {
    /// When a service restart was last attempted, or `None`.
    pub restart_attempted_at: Option<Timestamp>,
    /// When an LKG recovery was last attempted, or `None`.
    pub recovery_attempted_at: Option<Timestamp>,
}

/// What the daemon has to do for the gateway.
#[derive(Debug, Clone, Copy, PartialEq, Eq, Structural)]
pub enum HealAction {
    /// Nothing.
    Idle,
    /// Restart the service.
    Restart,
    /// Ask for the state of the service, and hand the answer to `on_service_state`.
    AskService,
    /// Clear the failed state of the service, then restart it.
    ResetAndRestart,
    /// Restore the last known good state.
    Recover,
}

/// The healer after a tick, and what to do.
pub open spec fn healed(
    h: AutoHealer,
    state: State,
    now: Timestamp,
    recovery_cooldown: u64,
    restart_settle_wait: u64,
) -> (AutoHealer, HealAction) {
    if state == State::Healthy {
        (AutoHealer { restart_attempted_at: None, recovery_attempted_at: None }, HealAction::Idle)
    } else if h.recovery_attempted_at matches Some(at) && now.since(at) < recovery_cooldown
        * 1_000_000_000 {
        (h, HealAction::Idle)
    } else if h.restart_attempted_at is None {
        if state == State::ConfirmedHang {
            (AutoHealer { restart_attempted_at: Some(now), ..h }, HealAction::Restart)
        } else if state == State::Down {
            (h, HealAction::AskService)
        } else {
            (h, HealAction::Idle)
        }
    } else if (state == State::Down || state == State::ConfirmedHang)
        && h.recovery_attempted_at is None && now.since(h.restart_attempted_at->0)
        > restart_settle_wait * 1_000_000_000 {
        (AutoHealer { recovery_attempted_at: Some(now), ..h }, HealAction::Recover)
    } else {
        (h, HealAction::Idle)
    }
}

/// The healer after it learned the state of the service (`None` where the
/// question failed), and what to do.
pub open spec fn answered(h: AutoHealer, answer: Option<ServiceActive>, now: Timestamp) -> (
    AutoHealer,
    HealAction,
) {
    if answer == Some(ServiceActive::Failed) {
        (AutoHealer { restart_attempted_at: Some(now), ..h }, HealAction::ResetAndRestart)
    } else {
        (h, HealAction::Idle)
    }
}

impl AutoHealer {
    /// A healer that has attempted nothing.
    pub fn new() -> (r: Self)
        ensures
            r.restart_attempted_at is None,
            r.recovery_attempted_at is None,
    {
        AutoHealer { restart_attempted_at: None, recovery_attempted_at: None }
    }

    /// Run one auto-heal tick.  Called from the main daemon loop after
    /// every classification cycle.
    pub fn tick(&mut self, state: State, cfg: &Config, now: Timestamp) -> (r: HealAction)
        ensures
            (*final(self), r) == healed(
                *old(self),
                state,
                now,
                cfg.recovery_cooldown,
                cfg.restart_settle_wait,
            ),
    {
        // On recovery to HEALTHY, reset everything
        if state == State::Healthy {
            self.restart_attempted_at = None;
            self.recovery_attempted_at = None;
            return HealAction::Idle;
        }
        // Don't retry during cooldown after recovery attempt
        if let Some(at) = self.recovery_attempted_at {
            if now.less_than(&at, cfg.recovery_cooldown) {
                return HealAction::Idle;
            }
        }
        match self.restart_attempted_at {
            None => {
                // Step 1a: On CONFIRMED_HANG, attempt restart (once per incident)
                if state == State::ConfirmedHang {
                    self.restart_attempted_at = Some(now);
                    return HealAction::Restart;
                }
                // Step 1b: On DOWN, query systemd state before deciding
                if state == State::Down {
                    return HealAction::AskService;
                }
                HealAction::Idle
            },
            Some(restart_at) => {
                // Step 2: If restart didn't help after settle period, try LKG recovery
                if (state == State::Down || state == State::ConfirmedHang)
                    && self.recovery_attempted_at.is_none() && now.more_than(
                    &restart_at,
                    cfg.restart_settle_wait,
                ) {
                    self.recovery_attempted_at = Some(now);
                    return HealAction::Recover;
                }
                HealAction::Idle
            },
        }
    }

    /// Continue a tick that asked for the state of the service. `answer` is
    /// `None` where it could not be queried; `now` is the time of the tick.
    pub fn on_service_state(&mut self, answer: Option<ServiceActive>, now: Timestamp) -> (r:
        HealAction)
        ensures
            (*final(self), r) == answered(*old(self), answer, now),
    {
        match answer {
            Some(ServiceActive::Failed) => {
                self.restart_attempted_at = Some(now);
                HealAction::ResetAndRestart
            },
            _ => HealAction::Idle,
        }
    }
}

impl HealAction {
    /// The alert that announces the action.
    pub open spec fn announcement(self) -> Option<(Seq<char>, Seq<char>)> {
        match self {
            HealAction::Restart => Some(
                ("WARNING"@, "Auto-restarting gateway (CONFIRMED_HANG)"@),
            ),
            HealAction::ResetAndRestart => Some(
                (
                    "WARNING"@,
                    "Gateway service failed -- auto-restarting (reset-failed + restart)"@,
                ),
            ),
            HealAction::Recover => Some(
                ("WARNING"@, "Auto-recovering from LKG (restart failed)"@),
            ),
            HealAction::Idle | HealAction::AskService => None,
        }
    }

    /// The alert that announces the action.
    pub fn alert(&self) -> (r: Option<(&'static str, &'static str)>)
        ensures
            match r {
                Some((level, message)) => self.announcement() == Some((level@, message@)),
                None => self.announcement() is None,
            },
    {
        match self {
            HealAction::Restart => Some(("WARNING", "Auto-restarting gateway (CONFIRMED_HANG)")),
            HealAction::ResetAndRestart => Some(
                ("WARNING", "Gateway service failed -- auto-restarting (reset-failed + restart)"),
            ),
            HealAction::Recover => Some(("WARNING", "Auto-recovering from LKG (restart failed)")),
            HealAction::Idle | HealAction::AskService => None,
        }
    }
}

/// How an LKG recovery ended.
pub enum Recovery {
    /// The program does not know where it lies itself.
    NoExecutable(String),
    /// The recovery could not be started.
    NotStarted(String),
    /// It failed; this is what it wrote to its error output.
    Failed(String),
    Succeeded,
}

/// The last `n` characters of `s`.
pub open spec fn tail(s: Seq<char>, n: int) -> Seq<char> {
    if s.len() <= n {
        s
    } else {
        s.skip(s.len() - n)
    }
}

impl Recovery {
    /// The alert that reports the outcome.
    pub open spec fn report(self) -> (Seq<char>, Seq<char>) {
        match self {
            Recovery::NoExecutable(e) => (
                "CRITICAL"@,
                "Auto-recovery FAILED: cannot find executable: "@ + e@,
            ),
            Recovery::NotStarted(e) => (
                "CRITICAL"@,
                "Auto-recovery script failed: "@ + e@ + ". Manual intervention required."@,
            ),
            Recovery::Failed(stderr) => (
                "CRITICAL"@,
                "Auto-recovery FAILED: "@ + tail(stderr@, 200)
                    + ". Manual intervention required."@,
            ),
            Recovery::Succeeded => (
                "WARNING"@,
                "Auto-recovered from LKG. Data rolled back to last known good state."@,
            ),
        }
    }

    /// The alert that reports the outcome.
    pub fn alert(&self) -> (r: (&'static str, String))
        ensures
            (r.0@, r.1@) == self.report(),
    {
        match self {
            Recovery::NoExecutable(e) => {
                let mut m = "Auto-recovery FAILED: cannot find executable: ".to_owned();
                m.append(e.as_str());
                ("CRITICAL", m)
            },
            Recovery::NotStarted(e) => {
                let mut m = "Auto-recovery script failed: ".to_owned();
                m.append(e.as_str());
                m.append(". Manual intervention required.");
                ("CRITICAL", m)
            },
            Recovery::Failed(stderr) => {
                let v = chars_of(stderr.as_str());
                let start: usize = if v.len() <= 200 {
                    0
                } else {
                    v.len() - 200
                };
                let t = sub_text(&v, start, v.len());
                assert(t@ =~= tail(stderr@, 200));
                let mut m = "Auto-recovery FAILED: ".to_owned();
                m.append(t.as_str());
                m.append(". Manual intervention required.");
                ("CRITICAL", m)
            },
            Recovery::Succeeded => (
                "WARNING",
                "Auto-recovered from LKG. Data rolled back to last known good state.".to_owned(),
            ),
        }
    }
}

// ── One incident ──────────────────────────────────────────────────────

/// One tick: the state, the time, and the answer that the service would give
/// if it were asked.
pub struct Tick {
    pub state: State,
    pub now: Timestamp,
    pub service: Option<ServiceActive>,
}

/// The healer after a tick with its answer, and what was done in the end.
pub open spec fn ticked(h: AutoHealer, t: Tick, cooldown: u64, settle: u64) -> (
    AutoHealer,
    HealAction,
) {
    let (g, a) = healed(h, t.state, t.now, cooldown, settle);
    if a == HealAction::AskService {
        answered(g, t.service, t.now)
    } else {
        (g, a)
    }
}

/// The healer after the first `n` ticks.
pub open spec fn healer_after(h: AutoHealer, ts: Seq<Tick>, cooldown: u64, settle: u64, n: int) -> AutoHealer
    decreases n,
{
    if n <= 0 {
        h
    } else {
        ticked(healer_after(h, ts, cooldown, settle, n - 1), ts[n - 1], cooldown, settle).0
    }
}

/// What was done at tick number `n`.
pub open spec fn done_at(h: AutoHealer, ts: Seq<Tick>, cooldown: u64, settle: u64, n: int) -> HealAction {
    ticked(healer_after(h, ts, cooldown, settle, n), ts[n], cooldown, settle).1
}

/// The action restarts the service.
pub open spec fn restarts(a: HealAction) -> bool {
    a == HealAction::Restart || a == HealAction::ResetAndRestart
}

/// No tick of an incident finds the gateway healthy.
pub open spec fn incident(ts: Seq<Tick>) -> bool {
    forall|i: int| 0 <= i < ts.len() ==> (#[trigger] ts[i]).state != State::Healthy
}

/// What was attempted stays attempted for as long as the incident lasts.
proof fn lemma_attempts_stay(h: AutoHealer, ts: Seq<Tick>, cooldown: u64, settle: u64, i: int, n: int)
    requires
        incident(ts),
        0 <= i <= n <= ts.len(),
    ensures
        healer_after(h, ts, cooldown, settle, i).restart_attempted_at is Some ==> healer_after(
            h,
            ts,
            cooldown,
            settle,
            n,
        ).restart_attempted_at is Some,
        healer_after(h, ts, cooldown, settle, i).recovery_attempted_at is Some ==> healer_after(
            h,
            ts,
            cooldown,
            settle,
            n,
        ).recovery_attempted_at is Some,
    decreases n - i,
{
    if i < n {
        lemma_attempts_stay(h, ts, cooldown, settle, i, n - 1);
        assert(ts[n - 1].state != State::Healthy);
    }
}

/// One restart attempt per incident: as long as the gateway does not become
/// healthy, no two ticks restart it.
pub proof fn law_one_restart_per_incident(
    h: AutoHealer,
    ts: Seq<Tick>,
    cooldown: u64,
    settle: u64,
    i: int,
    k: int,
)
    requires
        incident(ts),
        0 <= i < k < ts.len(),
        restarts(done_at(h, ts, cooldown, settle, i)),
    ensures
        !restarts(done_at(h, ts, cooldown, settle, k)),
{
    assert(ts[i].state != State::Healthy);
    assert(healer_after(h, ts, cooldown, settle, i + 1).restart_attempted_at is Some);
    lemma_attempts_stay(h, ts, cooldown, settle, i + 1, k);
    assert(ts[k].state != State::Healthy);
}

/// One recovery attempt per incident: as long as the gateway does not become
/// healthy, no two ticks restore the last known good state.
pub proof fn law_one_recovery_per_incident(
    h: AutoHealer,
    ts: Seq<Tick>,
    cooldown: u64,
    settle: u64,
    i: int,
    k: int,
)
    requires
        incident(ts),
        0 <= i < k < ts.len(),
        done_at(h, ts, cooldown, settle, i) == HealAction::Recover,
    ensures
        done_at(h, ts, cooldown, settle, k) != HealAction::Recover,
{
    assert(ts[i].state != State::Healthy);
    assert(healer_after(h, ts, cooldown, settle, i + 1).recovery_attempted_at is Some);
    lemma_attempts_stay(h, ts, cooldown, settle, i + 1, k);
    assert(ts[k].state != State::Healthy);
}

/// The last known good state is restored only after a restart was attempted
/// and the settle period has passed since.
pub proof fn law_recovery_follows_restart(h: AutoHealer, t: Tick, cooldown: u64, settle: u64)
    requires
        ticked(h, t, cooldown, settle).1 == HealAction::Recover,
    ensures
        h.restart_attempted_at matches Some(at) && t.now.since(at) > settle * 1_000_000_000,
        t.state == State::Down || t.state == State::ConfirmedHang,
{
}

/// During the cooldown after a recovery attempt nothing is done.
pub proof fn law_cooldown_is_quiet(h: AutoHealer, t: Tick, cooldown: u64, settle: u64)
    requires
        h.recovery_attempted_at matches Some(at) && t.now.since(at) < cooldown * 1_000_000_000,
    ensures
        ticked(h, t, cooldown, settle).1 == HealAction::Idle,
{
}

/// A gateway that is down is restarted only where its service has failed: one
/// that was stopped on purpose, or that is being started, is left alone.
pub proof fn law_intentional_stop_is_respected(h: AutoHealer, t: Tick, cooldown: u64, settle: u64)
    requires
        t.state == State::Down,
        t.service != Some(ServiceActive::Failed),
    ensures
        !restarts(ticked(h, t, cooldown, settle).1),
{
}

/// A healthy gateway ends the incident: the healer is as new.
pub proof fn law_healthy_resets(h: AutoHealer, t: Tick, cooldown: u64, settle: u64)
    requires
        t.state == State::Healthy,
    ensures
        ticked(h, t, cooldown, settle) == (
            AutoHealer { restart_attempted_at: None, recovery_attempted_at: None },
            HealAction::Idle,
        ),
{
}

/// A tick restarts the gateway only where it is confirmed hung, or down with a
/// service that has failed, and then only where no restart was attempted yet.
pub proof fn law_only_the_hung_and_the_failed_are_restarted(
    h: AutoHealer,
    t: Tick,
    cooldown: u64,
    settle: u64,
)
    ensures
        ({
            let (g, a) = ticked(h, t, cooldown, settle);
            &&& a == HealAction::Restart ==> t.state == State::ConfirmedHang
            &&& a == HealAction::ResetAndRestart ==> t.state == State::Down && t.service == Some(
                ServiceActive::Failed,
            )
            &&& a == HealAction::Restart || a == HealAction::ResetAndRestart
                ==> h.restart_attempted_at is None && g == (AutoHealer {
                restart_attempted_at: Some(t.now),
                recovery_attempted_at: h.recovery_attempted_at,
            })
            &&& a != HealAction::AskService
        }),
{
}

/// A gateway that is neither down nor confirmed hung is left alone: nothing is
/// done, and nothing that was attempted is added or, short of health, forgotten.
pub proof fn law_working_gateway_is_left_alone(h: AutoHealer, t: Tick, cooldown: u64, settle: u64)
    requires
        t.state != State::Down,
        t.state != State::ConfirmedHang,
    ensures
        ticked(h, t, cooldown, settle).1 == HealAction::Idle,
        t.state != State::Healthy ==> ticked(h, t, cooldown, settle).0 == h,
{
}

/// The cooldown after a recovery attempt, if there was one, is over.
pub open spec fn rested(h: AutoHealer, now: Timestamp, cooldown: u64) -> bool {
    h.recovery_attempted_at matches Some(at) ==> (now.secs - at.secs) * 1_000_000_000 + (now.nanos
        - at.nanos) >= cooldown * 1_000_000_000
}

/// The first trouble is answered by a restart: a confirmed hang at once, a
/// gateway that is down where its service has failed. Where the service is in
/// any other state, or cannot be asked, nothing happens.
pub proof fn law_trouble_is_answered(h: AutoHealer, t: Tick, cooldown: u64, settle: u64)
    requires
        h.restart_attempted_at is None,
        rested(h, t.now, cooldown),
    ensures
        t.state == State::ConfirmedHang ==> ticked(h, t, cooldown, settle) == (
            AutoHealer { restart_attempted_at: Some(t.now), ..h },
            HealAction::Restart,
        ),
        t.state == State::Down && t.service == Some(ServiceActive::Failed) ==> ticked(
            h,
            t,
            cooldown,
            settle,
        ) == (
            AutoHealer { restart_attempted_at: Some(t.now), ..h },
            HealAction::ResetAndRestart,
        ),
        t.state == State::Down && t.service != Some(ServiceActive::Failed) ==> ticked(
            h,
            t,
            cooldown,
            settle,
        ) == (h, HealAction::Idle),
{
}

/// A restart that did not help is followed by a recovery once the settle period
/// has passed, and by nothing before: each time only while the gateway is down
/// or hung, and no recovery was attempted.
pub proof fn law_failed_restart_is_followed_by_recovery(
    h: AutoHealer,
    t: Tick,
    cooldown: u64,
    settle: u64,
)
    requires
        h.restart_attempted_at is Some,
        t.state == State::Down || t.state == State::ConfirmedHang,
    ensures
        ({
            let at = h.restart_attempted_at->0;
            let waited = (t.now.secs - at.secs) * 1_000_000_000 + (t.now.nanos - at.nanos);
            let settled = waited > settle * 1_000_000_000;
            &&& h.recovery_attempted_at is None && settled ==> ticked(h, t, cooldown, settle) == (
                AutoHealer { recovery_attempted_at: Some(t.now), ..h },
                HealAction::Recover,
            )
            &&& h.recovery_attempted_at is Some || !settled ==> ticked(h, t, cooldown, settle) == (
                h,
                HealAction::Idle,
            )
        }),
{
}

/// What the healer does to the gateway is announced as a warning, each action in
/// its own words; what changes nothing is not announced.
pub proof fn law_interventions_are_announced(a: HealAction, b: HealAction)
    ensures
        a.announcement() is Some <==> a == HealAction::Restart || a == HealAction::ResetAndRestart
            || a == HealAction::Recover,
        a.announcement() matches Some(w) ==> w.0 == "WARNING"@,
        a.announcement() is Some && a.announcement() == b.announcement() ==> a == b,
{
    reveal_strlit("Auto-restarting gateway (CONFIRMED_HANG)");
    reveal_strlit("Gateway service failed -- auto-restarting (reset-failed + restart)");
    reveal_strlit("Auto-recovering from LKG (restart failed)");
    let r = "Auto-restarting gateway (CONFIRMED_HANG)"@;
    let f = "Gateway service failed -- auto-restarting (reset-failed + restart)"@;
    let l = "Auto-recovering from LKG (restart failed)"@;
    assert(r[0] != f[0] && l[0] != f[0] && r[7] != l[7]);
}

/// A recovery that did not succeed is reported as critical, and one that did is
/// not.
pub proof fn law_failed_recovery_is_critical(r: Recovery)
    ensures
        r.report().0 == if r is Succeeded {
            "WARNING"@
        } else {
            "CRITICAL"@
        },
        r matches Recovery::Failed(e) ==> r.report().1.len() <= 300,
{
    reveal_strlit("Auto-recovery FAILED: ");
    reveal_strlit(". Manual intervention required.");
}

/// What is told of an error is its end: all of it where it is short, and else as
/// many characters as asked for.
pub proof fn law_end_of_the_error_is_told(s: Seq<char>, n: int)
    requires
        0 <= n,
    ensures
        s.len() <= n ==> tail(s, n) == s,
        s.len() > n ==> tail(s, n).len() == n && s == s.take(s.len() - n) + tail(s, n),
{
    if s.len() > n {
        assert(s =~= s.take(s.len() - n) + tail(s, n));
    }
}

/// Of a long error, the alert on a failed recovery tells the last 200
/// characters; a short one it tells whole.
pub proof fn law_failed_recovery_tells_the_error(stderr: String)
    ensures
        stderr@.len() <= 200 ==> Recovery::Failed(stderr).report().1 == "Auto-recovery FAILED: "@
            + stderr@ + ". Manual intervention required."@,
        stderr@.len() > 200 ==> Recovery::Failed(stderr).report().1 == "Auto-recovery FAILED: "@
            + stderr@.skip(stderr@.len() - 200) + ". Manual intervention required."@,
{
}

} // verus!
