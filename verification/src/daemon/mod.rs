//! The watchdog daemon: what it does on each tick, and what the commands that
//! reach it lead to.

pub mod auto_healer;
pub mod config_watcher;
pub mod health_checker;
pub mod identity;
pub mod scheduler;
pub mod state_machine;
pub mod status;
pub mod telegram;

use crate::config::{value_of, Config};
use crate::daemon::auto_healer::{healed, AutoHealer, HealAction};
use crate::daemon::identity::IdentityManager;
use crate::daemon::state_machine::{
    alert_on_transition, alert_view, comparable, snapshot, transition_alert, verdict, Classifier, State,
};
use crate::daemon::telegram::{StatusSnapshot, TelegramCommand};
use crate::platform::ProcessMetrics;
use crate::daemon::status::{proc_state_in, ProcStateView};
use crate::util::json::{
    distinct_names, fields_view, json_tree, pretty_text, reads_back, write_pretty, Field, FieldView,
    Tree,
};
use crate::util::text::{decimal, joined, padded, same, show, show_padded, trimmed, Class};
use crate::util::time_fmt::{fmt_uptime, uptime_parts, Timestamp};
use crate::util::{is_name, is_valid_session_id};
use vstd::prelude::*;

verus! {

/// Path to the proc JSON file written each tick.
pub const PROC_JSON_PATH: &'static str = "/var/lib/outerclaw/audit/gateway-proc-latest.json";

/// Interval for re-checking deleted-then-recreated watched files (seconds).
pub const CONFIG_REWATCH_INTERVAL_SECS: u64 = 300;

/// What the daemon remembers between ticks.
pub struct Daemon {
    pub classifier: Classifier,
    pub healer: AutoHealer,
    pub identity_mgr: IdentityManager,
    pub current_state: State,
    pub prev_metrics: Option<ProcessMetrics>,
    /// When metrics were last collected; `None` before the first time.
    pub last_collect: Option<Timestamp>,
    pub last_rewatch: Timestamp,
    pub status: StatusSnapshot,
}

/// What one collection cycle leads to.
pub struct TickOutcome {
    pub state: State,
    /// The alert on a change of state.
    pub alert: Option<(&'static str, String)>,
    pub heal: HealAction,
}

/// The time of day, as `HH:MM:SS UTC`.
pub open spec fn clock_text(secs: nat) -> Seq<char> {
    padded(secs % 86400 / 3600, 2) + ":"@ + padded(secs % 86400 % 3600 / 60, 2) + ":"@ + padded(
        secs % 86400 % 60,
        2,
    ) + " UTC"@
}

/// The quick status after a cycle.
pub open spec fn status_after(
    s: StatusSnapshot,
    state: State,
    metrics: Option<ProcessMetrics>,
    uptime: Option<u64>,
    secs: nat,
) -> bool {
    &&& s.state@ == state.label()
    &&& s.pid@ == match metrics {
        Some(m) => decimal(m.pid as nat),
        None => "N/A"@,
    }
    &&& s.rss_mb@ == match metrics {
        Some(m) => decimal((m.rss_bytes / 1048576) as nat),
        None => "N/A"@,
    }
    &&& s.last_check@ == clock_text(secs)
    &&& s.uptime@ == match uptime {
        Some(u) => joined(uptime_parts(u as int), " "@),
        None => "unknown"@,
    }
}

impl Daemon {
    /// The daemon at its start, at the monotonic time `now`.
    pub fn new(cfg: &Config, now: Timestamp) -> (r: Self)
        ensures
            r.classifier.stall_since is None,
            r.healer.restart_attempted_at is None,
            r.healer.recovery_attempted_at is None,
            r.identity_mgr.unlocked_at is None,
            r.identity_mgr.unlock_timeout == cfg.identity_unlock_timeout,
            r.current_state == State::Unknown,
            r.prev_metrics is None,
            r.last_collect is None,
            r.last_rewatch == now,
            r.status.state@ == "UNKNOWN"@,
            r.status.pid@ == "N/A"@,
            r.status.uptime@ == "unknown"@,
            r.status.rss_mb@ == "N/A"@,
            r.status.last_check@ == "never"@,
    {
        Daemon {
            classifier: Classifier::new(),
            healer: AutoHealer::new(),
            identity_mgr: IdentityManager::new(cfg.identity_unlock_timeout),
            current_state: State::Unknown,
            prev_metrics: None,
            last_collect: None,
            last_rewatch: now,
            status: StatusSnapshot {
                state: "UNKNOWN".to_owned(),
                pid: "N/A".to_owned(),
                uptime: "unknown".to_owned(),
                rss_mb: "N/A".to_owned(),
                last_check: "never".to_owned(),
            },
        }
    }

    /// A collection cycle is due; the first one always is.
    pub open spec fn is_collect_due(self, cfg: Config, now: Timestamp) -> bool {
        match self.last_collect {
            Some(t) => now.waited(t) >= cfg.collect_interval,
            None => true,
        }
    }

    /// Whether a collection cycle is due; the first one always is.
    pub fn collect_due(&self, cfg: &Config, now: Timestamp) -> (r: bool)
        ensures
            r == self.is_collect_due(*cfg, now),
    {
        match self.last_collect {
            Some(t) => now.secs_waited(&t) >= cfg.collect_interval as u128,
            None => true,
        }
    }

    /// The daemon after a collection cycle at the time `now`.
    pub open spec fn after_collect(self, now: Timestamp) -> Daemon {
        Daemon { last_collect: Some(now), ..self }
    }

    /// Note that a collection cycle was made, whatever came of it.
    pub fn collected(&mut self, now: Timestamp)
        ensures
            *final(self) == old(self).after_collect(now),
    {
        self.last_collect = Some(now);
    }

    /// The watched files have to be looked for again.
    pub open spec fn is_rewatch_due(self, now: Timestamp) -> bool {
        now.waited(self.last_rewatch) >= CONFIG_REWATCH_INTERVAL_SECS
    }

    /// Whether the watched files have to be looked for again.
    pub fn rewatch_due(&self, now: Timestamp) -> (r: bool)
        ensures
            r == self.is_rewatch_due(now),
    {
        now.secs_waited(&self.last_rewatch) >= CONFIG_REWATCH_INTERVAL_SECS as u128
    }

    /// The daemon after the watched files were looked for at the time `now`.
    pub open spec fn after_rewatch(self, now: Timestamp) -> Daemon {
        Daemon { last_rewatch: now, ..self }
    }

    /// Note that the watched files were looked for again.
    pub fn rewatched(&mut self, now: Timestamp)
        ensures
            *final(self) == old(self).after_rewatch(now),
    {
        self.last_rewatch = now;
    }

    /// The counters of `metrics` can be compared with those of the previous
    /// cycle, where they are to be compared.
    pub open spec fn accepts(self, metrics: Option<ProcessMetrics>, http_ok: bool) -> bool {
        match (metrics, self.prev_metrics) {
            (Some(m), Some(p)) => m.state@ == "Z"@ || http_ok || m.pid != p.pid || comparable(m, p),
            _ => true,
        }
    }

    /// One classification + auto-heal cycle, with the metrics just collected
    /// (`None` where there is no process) and the result of the health check.
    pub fn do_tick(
        &mut self,
        cfg: &Config,
        metrics: Option<ProcessMetrics>,
        http_ok: bool,
        now: Timestamp,
    ) -> (r: TickOutcome)
        requires
            old(self).accepts(metrics, http_ok),
        ensures
            (r.state, final(self).classifier.stall_since) == verdict(
                old(self).classifier.stall_since,
                metrics,
                old(self).prev_metrics,
                http_ok,
                now,
                cfg.hang_warn_secs,
                cfg.hang_crit_secs,
                cfg.io_delta_threshold,
                cfg.ctx_switch_threshold,
            ),
            alert_view(r.alert) == transition_alert(
                old(self).current_state,
                r.state,
                cfg.hang_warn_secs,
                cfg.hang_crit_secs,
            ),
            (final(self).healer, r.heal) == healed(
                old(self).healer,
                r.state,
                now,
                cfg.recovery_cooldown,
                cfg.restart_settle_wait,
            ),
            final(self).current_state == r.state,
            final(self).prev_metrics == metrics,
            final(self).identity_mgr == old(self).identity_mgr,
            final(self).last_collect == old(self).last_collect,
            final(self).last_rewatch == old(self).last_rewatch,
            final(self).status == old(self).status,
    {
        let state = self.classifier.classify(
            metrics.as_ref(),
            self.prev_metrics.as_ref(),
            http_ok,
            now,
            cfg.hang_warn_secs,
            cfg.hang_crit_secs,
            cfg.io_delta_threshold,
            cfg.ctx_switch_threshold,
        );
        let alert = alert_on_transition(
            self.current_state,
            state,
            cfg.hang_warn_secs,
            cfg.hang_crit_secs,
        );
        let heal = self.healer.tick(state, cfg, now);
        self.current_state = state;
        self.prev_metrics = metrics;
        TickOutcome { state, alert, heal }
    }

    /// Update the quick status after a cycle. `uptime` is that of the gateway
    /// service, and `secs` the wall clock (seconds since the epoch).
    pub fn update_status(&mut self, uptime: Option<u64>, secs: u64)
        ensures
            status_after(
                final(self).status,
                old(self).current_state,
                old(self).prev_metrics,
                uptime,
                secs as nat,
            ),
            final(self).classifier == old(self).classifier,
            final(self).healer == old(self).healer,
            final(self).identity_mgr == old(self).identity_mgr,
            final(self).current_state == old(self).current_state,
            final(self).prev_metrics == old(self).prev_metrics,
            final(self).last_collect == old(self).last_collect,
            final(self).last_rewatch == old(self).last_rewatch,
    {
        let pid = match &self.prev_metrics {
            Some(m) => show(m.pid as u64),
            None => "N/A".to_owned(),
        };
        let rss_mb = match &self.prev_metrics {
            Some(m) => show(m.rss_bytes / 1048576),
            None => "N/A".to_owned(),
        };
        let day: u64 = secs % 86400;
        let mut last_check = show_padded(day / 3600, 2);
        last_check.append(":");
        last_check.append(show_padded(day % 3600 / 60, 2).as_str());
        last_check.append(":");
        last_check.append(show_padded(day % 60, 2).as_str());
        last_check.append(" UTC");
        let uptime = match uptime {
            Some(u) => fmt_uptime(u),
            None => "unknown".to_owned(),
        };
        self.status = StatusSnapshot {
            state: self.current_state.as_str().to_owned(),
            pid,
            uptime,
            rss_mb,
            last_check,
        };
    }
}

// ── The snapshot file ─────────────────────────────────────────────────

/// The members of the proc JSON. The metrics bring a `timestamp` of their own,
/// which takes the place of the time of writing.
pub open spec fn proc_fields(
    metrics: Option<ProcessMetrics>,
    state: State,
    time: Seq<char>,
) -> Seq<(Seq<char>, FieldView)> {
    match metrics {
        None => seq![
            ("timestamp"@, FieldView::Text(time)),
            ("outerclaw_state"@, FieldView::Text(state.label())),
        ],
        Some(m) => seq![
            ("outerclaw_state"@, FieldView::Text(state.label())),
            ("pid"@, FieldView::Uint(m.pid as u64)),
            ("state"@, FieldView::Text(m.state@)),
            ("read_bytes"@, FieldView::Uint(m.read_bytes)),
            ("write_bytes"@, FieldView::Uint(m.write_bytes)),
            ("voluntary_ctxt_switches"@, FieldView::Uint(m.voluntary_ctxt_switches)),
            ("nonvoluntary_ctxt_switches"@, FieldView::Uint(m.nonvoluntary_ctxt_switches)),
            ("threads"@, FieldView::Uint(m.threads as u64)),
            ("rss_bytes"@, FieldView::Uint(m.rss_bytes)),
            ("fd_count"@, FieldView::Uint(m.fd_count as u64)),
            ("timestamp"@, FieldView::Time(m.timestamp)),
        ],
    }
}

/// What the status report says of the gateway after a write of the proc JSON.
pub open spec fn written_state(
    metrics: Option<ProcessMetrics>,
    state: State,
    time: Seq<char>,
) -> ProcStateView {
    match metrics {
        None => ProcStateView { state: state.label(), pid: "N/A"@, timestamp: Some(time) },
        Some(m) => ProcStateView {
            state: state.label(),
            pid: decimal(m.pid as nat),
            timestamp: None,
        },
    }
}

/// The members of the proc JSON have names of their own.
proof fn lemma_proc_fields(metrics: Option<ProcessMetrics>, state: State, time: Seq<char>)
    ensures
        distinct_names(proc_fields(metrics, state, time)),
{
    reveal_strlit("timestamp");
    reveal_strlit("outerclaw_state");
    reveal_strlit("pid");
    reveal_strlit("state");
    reveal_strlit("read_bytes");
    reveal_strlit("write_bytes");
    reveal_strlit("voluntary_ctxt_switches");
    reveal_strlit("nonvoluntary_ctxt_switches");
    reveal_strlit("threads");
    reveal_strlit("rss_bytes");
    reveal_strlit("fd_count");
    let fields = proc_fields(metrics, state, time);
    match metrics {
        None => {
            assert(fields[0].0.len() == 9 && fields[1].0.len() == 15);
        },
        Some(m) => {
            // Only two names have the same length.
            assert(fields[0].0.len() == 15 && fields[1].0.len() == 3 && fields[2].0.len() == 5);
            assert(fields[3].0.len() == 10 && fields[4].0.len() == 11 && fields[5].0.len() == 23);
            assert(fields[6].0.len() == 26 && fields[7].0.len() == 7 && fields[8].0.len() == 9);
            assert(fields[9].0.len() == 8 && fields[10].0.len() == 9);
            assert(fields[8].0[0] == 'r' && fields[10].0[0] == 't');
        },
    }
}

/// What reads back as the members of the proc JSON says of the gateway what was
/// written.
proof fn lemma_proc_reads_back(
    metrics: Option<ProcessMetrics>,
    state: State,
    time: Seq<char>,
    t: Tree,
)
    requires
        reads_back(Some(t), proc_fields(metrics, state, time)),
    ensures
        proc_state_in(t) == written_state(metrics, state, time),
{
    let fields = proc_fields(metrics, state, time);
    match metrics {
        None => {
            reveal_strlit("timestamp");
            reveal_strlit("outerclaw_state");
            reveal_strlit("pid");
            assert(fields[0].0 == "timestamp"@);
            assert(fields[1].0 == "outerclaw_state"@);
            assert forall|i: int| 0 <= i < fields.len() implies (#[trigger] fields[i]).0
                != "pid"@ by {
                assert(fields[i].0.len() != "pid"@.len());
            }
        },
        Some(m) => {
            assert(fields[0].0 == "outerclaw_state"@);
            assert(fields[1].0 == "pid"@);
            assert(fields[10].0 == "timestamp"@);
            lemma_decimal_is_bare(m.pid as nat);
        },
    }
}

/// A number in decimal has no quotes to trim.
proof fn lemma_decimal_is_bare(n: nat)
    ensures
        trimmed(decimal(n), Class::Is('"')) == decimal(n),
{
    crate::util::text::lemma_decimal_reads_back(n);
    crate::util::text::lemma_nothing_to_trim(decimal(n), Class::Is('"'));
}

/// The text of the latest proc snapshot for postmortem-collect, written at
/// `time`.
pub fn write_proc_json(metrics: Option<&ProcessMetrics>, state: State, time: &str) -> (r: Option<
    String,
>)
    ensures
        r matches Some(s) && s@ == pretty_text(proc_fields(snapshot(metrics), state, time@)),
        // The status report reads back what was written.
        r matches Some(s) && json_tree(s@) matches Some(t) && proc_state_in(t) == written_state(
            snapshot(metrics),
            state,
            time@,
        ),
{
    let fields = match metrics {
        None => vec![
            ("timestamp".to_owned(), Field::Text(time.to_owned())),
            ("outerclaw_state".to_owned(), Field::Text(state.as_str().to_owned())),
        ],
        Some(m) => vec![
            ("outerclaw_state".to_owned(), Field::Text(state.as_str().to_owned())),
            ("pid".to_owned(), Field::Uint(m.pid as u64)),
            ("state".to_owned(), Field::Text(m.state.clone())),
            ("read_bytes".to_owned(), Field::Uint(m.read_bytes)),
            ("write_bytes".to_owned(), Field::Uint(m.write_bytes)),
            ("voluntary_ctxt_switches".to_owned(), Field::Uint(m.voluntary_ctxt_switches)),
            ("nonvoluntary_ctxt_switches".to_owned(), Field::Uint(m.nonvoluntary_ctxt_switches)),
            ("threads".to_owned(), Field::Uint(m.threads as u64)),
            ("rss_bytes".to_owned(), Field::Uint(m.rss_bytes)),
            ("fd_count".to_owned(), Field::Uint(m.fd_count as u64)),
            ("timestamp".to_owned(), Field::Time(m.timestamp)),
        ],
    };
    assert(fields_view(fields@) =~= proc_fields(snapshot(metrics), state, time@));
    let r = write_pretty(&fields);
    proof {
        lemma_proc_fields(snapshot(metrics), state, time@);
        lemma_proc_reads_back(snapshot(metrics), state, time@, json_tree(r->0@)->0);
    }
    r
}

// ── Telegram commands on the main thread ──────────────────────────────

/// What a command has to have done.
pub enum Work {
    /// Restart the gateway service.
    Restart,
    /// Stop the gateway service.
    Stop,
    /// Unlock the identity files, for this source.
    Unlock(String),
    /// Lock the identity files, for this source.
    Lock(String),
    /// Delete the session, with a request to this URL.
    DeleteSession { url: String, session: String },
    /// Answer with a refusal.
    Refuse(&'static str),
    /// Nothing: the command is unknown.
    Unknown,
}

/// The view of a `Work`.
pub enum WorkView {
    Restart,
    Stop,
    Unlock(Seq<char>),
    Lock(Seq<char>),
    DeleteSession { url: Seq<char>, session: Seq<char> },
    Refuse(Seq<char>),
    Unknown,
}

impl View for Work {
    type V = WorkView;

    open spec fn view(&self) -> WorkView {
        match self {
            Work::Restart => WorkView::Restart,
            Work::Stop => WorkView::Stop,
            Work::Unlock(s) => WorkView::Unlock(s@),
            Work::Lock(s) => WorkView::Lock(s@),
            Work::DeleteSession { url, session } => WorkView::DeleteSession {
                url: url@,
                session: session@,
            },
            Work::Refuse(m) => WorkView::Refuse(m@),
            Work::Unknown => WorkView::Unknown,
        }
    }
}

/// The answer to a session that cannot be one.
pub const INVALID_SESSION: &'static str = "Invalid session_id: must be alphanumeric, dash, or underscore.";

/// The alert that precedes the work, and the work.
pub open spec fn command_plan(
    action: Seq<char>,
    user: Seq<char>,
    session: Option<Seq<char>>,
    sessions_url: Seq<char>,
) -> (Option<Seq<char>>, WorkView) {
    if action == "restart"@ {
        (Some("Gateway restart via Telegram by "@ + user), WorkView::Restart)
    } else if action == "kill"@ {
        (Some("Gateway STOP via Telegram by "@ + user), WorkView::Stop)
    } else if action == "unlock_identity"@ {
        (None, WorkView::Unlock("Telegram/"@ + user))
    } else if action == "lock_identity"@ {
        (None, WorkView::Lock("Telegram/"@ + user))
    } else if action == "kill_session"@ {
        match session {
            Some(id) => if is_name(id) {
                (
                    None,
                    WorkView::DeleteSession { url: sessions_url + "/"@ + id, session: id },
                )
            } else {
                (None, WorkView::Refuse(INVALID_SESSION@))
            },
            None => (None, WorkView::Refuse(INVALID_SESSION@)),
        }
    } else {
        (None, WorkView::Unknown)
    }
}

/// The view of an optional text.
pub open spec fn text_view(s: Option<String>) -> Option<Seq<char>> {
    match s {
        Some(t) => Some(t@),
        None => None,
    }
}

/// Process a single Telegram command on the main thread: the WARNING alert to
/// send first, if any, and the work to do.
pub fn process_telegram_command(cmd: &TelegramCommand, sessions_url: &str) -> (r: (
    Option<String>,
    Work,
))
    ensures
        (text_view(r.0), r.1@) == command_plan(
            cmd.action@,
            cmd.user@,
            value_of(cmd.args@, "session_id"@),
            sessions_url@,
        ),
{
    let action = cmd.action.as_str();
    let user = cmd.user.as_str();
    if same(action, "restart") {
        let mut m = "Gateway restart via Telegram by ".to_owned();
        m.append(user);
        (Some(m), Work::Restart)
    } else if same(action, "kill") {
        let mut m = "Gateway STOP via Telegram by ".to_owned();
        m.append(user);
        (Some(m), Work::Stop)
    } else if same(action, "unlock_identity") {
        let mut source = "Telegram/".to_owned();
        source.append(user);
        (None, Work::Unlock(source))
    } else if same(action, "lock_identity") {
        let mut source = "Telegram/".to_owned();
        source.append(user);
        (None, Work::Lock(source))
    } else if same(action, "kill_session") {
        match cmd.args.get("session_id") {
            Some(id) => {
                if is_valid_session_id(id) {
                    let mut url = sessions_url.to_owned();
                    url.append("/");
                    url.append(id);
                    (None, Work::DeleteSession { url, session: id.to_owned() })
                } else {
                    (None, Work::Refuse(INVALID_SESSION))
                }
            },
            None => (None, Work::Refuse(INVALID_SESSION)),
        }
    } else {
        (None, Work::Unknown)
    }
}

/// The answer to a restart, `error` being why it failed.
pub fn restart_reply(error: Option<&str>) -> (r: String)
    ensures
        r@ == match error {
            None => "Gateway restarted successfully."@,
            Some(e) => "Restart failed: "@ + e@,
        },
{
    match error {
        None => "Gateway restarted successfully.".to_owned(),
        Some(e) => {
            let mut m = "Restart failed: ".to_owned();
            m.append(e);
            m
        },
    }
}

/// The answer to a stop: `None` where the graceful stop failed, and the
/// service has to be killed.
pub fn stop_reply(stopped: bool) -> (r: Option<&'static str>)
    ensures
        r is Some <==> stopped,
        r matches Some(m) ==> m@ == "Gateway stopped successfully."@,
{
    if stopped {
        Some("Gateway stopped successfully.")
    } else {
        None
    }
}

/// The answer to a kill after a graceful stop failed, `error` being why it
/// failed too.
pub fn kill_reply(error: Option<&str>) -> (r: String)
    ensures
        r@ == match error {
            None => "Gateway force-killed (SIGKILL) after graceful stop failed."@,
            Some(e) => "Force-kill failed: "@ + e@ + ". Manual intervention required."@,
        },
{
    match error {
        None => "Gateway force-killed (SIGKILL) after graceful stop failed.".to_owned(),
        Some(e) => {
            let mut m = "Force-kill failed: ".to_owned();
            m.append(e);
            m.append(". Manual intervention required.");
            m
        },
    }
}

/// The INFO alert that a deleted session deserves, and the answer; `error` is
/// why the session could not be deleted.
pub fn session_reply(session: &str, user: &str, error: Option<&str>) -> (r: (Option<String>, String))
    ensures
        (text_view(r.0), r.1@) == match error {
            None => (
                Some("Session "@ + session@ + " kill via Telegram by "@ + user@),
                "Session "@ + session@ + " terminated."@,
            ),
            Some(e) => (None, "Failed to kill session "@ + session@ + ": "@ + e@),
        },
{
    match error {
        None => {
            let mut a = "Session ".to_owned();
            a.append(session);
            a.append(" kill via Telegram by ");
            a.append(user);
            let mut m = "Session ".to_owned();
            m.append(session);
            m.append(" terminated.");
            (Some(a), m)
        },
        Some(e) => {
            let mut m = "Failed to kill session ".to_owned();
            m.append(session);
            m.append(": ");
            m.append(e);
            (None, m)
        },
    }
}

/// A session that is not a plain name never reaches a URL.
pub proof fn law_only_plain_sessions_are_deleted(
    action: Seq<char>,
    user: Seq<char>,
    session: Option<Seq<char>>,
    sessions_url: Seq<char>,
)
    ensures
        command_plan(action, user, session, sessions_url).1 matches WorkView::DeleteSession {
            url,
            session: id,
        } ==> is_name(id) && url == sessions_url + "/"@ + id,
{
}

/// Collections keep their interval: after one at `now`, the next is due exactly
/// where the interval has passed since, and looking for the watched files moves
/// nothing in this.
pub proof fn law_collect_interval_is_kept(
    d: Daemon,
    cfg: Config,
    now: Timestamp,
    between: Timestamp,
    later: Timestamp,
)
    ensures
        d.after_collect(now).is_collect_due(cfg, later) <==> later.waited(now)
            >= cfg.collect_interval,
        d.after_collect(now).after_rewatch(between).is_collect_due(cfg, later) <==> d.after_collect(
            now,
        ).is_collect_due(cfg, later),
{
}

/// The watched files are looked for again exactly where the interval has passed
/// since they last were, and a collection moves nothing in this.
pub proof fn law_rewatch_interval_is_kept(
    d: Daemon,
    now: Timestamp,
    between: Timestamp,
    later: Timestamp,
)
    ensures
        d.after_rewatch(now).is_rewatch_due(later) <==> later.waited(now)
            >= CONFIG_REWATCH_INTERVAL_SECS,
        d.after_rewatch(now).after_collect(between).is_rewatch_due(later) <==> d.after_rewatch(
            now,
        ).is_rewatch_due(later),
{
}

/// Each command leads to its own work, whoever gives it, and no other does: a
/// restart and a stop of the gateway are announced by an alert, the others are
/// not. A session is deleted exactly where its name is a plain one.
pub proof fn law_commands_do_their_work(
    action: Seq<char>,
    user: Seq<char>,
    session: Option<Seq<char>>,
    sessions_url: Seq<char>,
)
    ensures
        ({
            let (alert, work) = command_plan(action, user, session, sessions_url);
            &&& work is Restart <==> action == "restart"@
            &&& work is Stop <==> action == "kill"@
            &&& work is Unlock <==> action == "unlock_identity"@
            &&& work is Lock <==> action == "lock_identity"@
            &&& work is DeleteSession <==> action == "kill_session"@ && (session matches Some(id)
                && is_name(id))
            &&& work is Refuse <==> action == "kill_session"@ && !(session matches Some(id)
                && is_name(id))
            &&& alert is Some <==> work is Restart || work is Stop
            &&& alert matches Some(a) ==> a.skip(a.len() - user.len()) == user
            &&& work matches WorkView::Unlock(s) ==> s == "Telegram/"@ + user
            &&& work matches WorkView::Lock(s) ==> s == "Telegram/"@ + user
            &&& work matches WorkView::DeleteSession { session: id, .. } ==> session == Some(id)
        }),
{
    reveal_strlit("restart");
    reveal_strlit("kill");
    reveal_strlit("unlock_identity");
    reveal_strlit("lock_identity");
    reveal_strlit("kill_session");
    assert("restart"@.len() == 7 && "kill"@.len() == 4 && "unlock_identity"@.len() == 15
        && "lock_identity"@.len() == 13 && "kill_session"@.len() == 12);
    let alert = command_plan(action, user, session, sessions_url).0;
    if let Some(a) = alert {
        assert(a.skip(a.len() - user.len()) =~= user);
    }
}

/// The snapshot of a process keeps each of its counters apart: two snapshots are
/// written alike exactly where all their members agree.
pub proof fn law_proc_snapshot_keeps_every_counter(
    m: ProcessMetrics,
    n: ProcessMetrics,
    state: State,
    other: State,
    time: Seq<char>,
)
    requires
        proc_fields(Some(m), state, time) == proc_fields(Some(n), other, time),
    ensures
        state.label() == other.label(),
        m.pid == n.pid,
        m.state@ == n.state@,
        m.read_bytes == n.read_bytes,
        m.write_bytes == n.write_bytes,
        m.voluntary_ctxt_switches == n.voluntary_ctxt_switches,
        m.nonvoluntary_ctxt_switches == n.nonvoluntary_ctxt_switches,
        m.threads == n.threads,
        m.rss_bytes == n.rss_bytes,
        m.fd_count == n.fd_count,
        m.timestamp == n.timestamp,
{
    let (a, b) = (proc_fields(Some(m), state, time), proc_fields(Some(n), other, time));
    assert(a[0] == b[0] && a[1] == b[1] && a[2] == b[2] && a[3] == b[3] && a[4] == b[4] && a[5]
        == b[5] && a[6] == b[6] && a[7] == b[7] && a[8] == b[8] && a[9] == b[9] && a[10] == b[10]);
}

/// The time of day is that of the civil time: hour, minute and second.
pub proof fn law_clock_shows_the_civil_time(secs: u64)
    ensures
        ({
            let c = crate::util::calendar::civil(secs as nat);
            clock_text(secs as nat) == padded(c.hour as nat, 2) + ":"@ + padded(c.minute as nat, 2)
                + ":"@ + padded(c.second as nat, 2) + " UTC"@
        }),
{
    crate::util::calendar::lemma_civil(secs);
    let c = crate::util::calendar::civil(secs as nat);
    assert(secs == c.epoch());
    assert(c.hour == secs % 86400 / 3600);
    assert(c.minute == secs % 86400 % 3600 / 60);
    assert(c.second == secs % 86400 % 60);
}

/// The gateway is looked at where it never was, and then each time the interval
/// has passed; the watched files are looked for anew each time theirs has.
pub proof fn law_intervals_pass(d: Daemon, cfg: Config, now: Timestamp)
    ensures
        d.last_collect is None ==> d.is_collect_due(cfg, now),
        d.last_collect matches Some(t) ==> cfg.collect_interval > 0 ==> (d.is_collect_due(cfg, now)
            <==> (now.secs - t.secs) * 1_000_000_000 + (now.nanos - t.nanos) >= cfg.collect_interval
            * 1_000_000_000),
        d.is_rewatch_due(now) <==> (now.secs - d.last_rewatch.secs) * 1_000_000_000 + (now.nanos
            - d.last_rewatch.nanos) >= CONFIG_REWATCH_INTERVAL_SECS * 1_000_000_000,
{
}

/// The status tells the memory in whole megabytes, and the process and its
/// memory only where they are known.
pub proof fn law_status_tells_the_process(
    s: StatusSnapshot,
    state: State,
    metrics: Option<ProcessMetrics>,
    uptime: Option<u64>,
    secs: nat,
    mb: nat,
    rest: nat,
)
    requires
        status_after(s, state, metrics, uptime, secs),
    ensures
        s.state@ == state.label(),
        metrics is None ==> s.pid@ == "N/A"@ && s.rss_mb@ == "N/A"@,
        metrics matches Some(m) ==> s.pid@ == decimal(m.pid as nat),
        metrics matches Some(m) ==> m.rss_bytes == mb * 1024 * 1024 + rest && rest < 1024 * 1024
            ==> s.rss_mb@ == decimal(mb),
{
}

} // verus!
