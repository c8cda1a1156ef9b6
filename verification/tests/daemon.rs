use outerclaw::config::{Config, EnvMap};
use outerclaw::daemon::auto_healer::{AutoHealer, HealAction, Recovery};
use outerclaw::daemon::config_watcher::{
    describe_event_kind, is_identity_file, ConfigFileWatcher, EventKind, WatchEvent,
};
use outerclaw::daemon::health_checker::check_health;
use outerclaw::daemon::identity::{identity_files, relock_command, run, IdentityManager};
use outerclaw::daemon::scheduler::Scheduler;
use outerclaw::daemon::state_machine::{alert_on_transition, is_comparable, Classifier, State};
use outerclaw::daemon::status::{
    check_identity_immutable, check_latest_integrity, count_lkg, count_snapshots, latest_snapshot,
    parse_iso_timestamp, read_proc_state, show, StatusFacts,
};
use outerclaw::daemon::telegram::{
    cmd_sessions, cmd_snapshots, sanitize_markdown, BotAction, Poller, StatusSnapshot, TelegramBot,
    TelegramCommand, HELP, KILL_SESSION_USAGE,
};
use outerclaw::daemon::{
    kill_reply, process_telegram_command, restart_reply, session_reply, stop_reply, write_proc_json,
    Daemon, Work, INVALID_SESSION,
};
use outerclaw::platform::{ProcessMetrics, ServiceActive};
use outerclaw::util::time_fmt::{monotonic_now, Timestamp};

fn at(secs: u64) -> Timestamp {
    Timestamp::from_secs(secs)
}

fn make_metrics(pid: u32, state: &str) -> ProcessMetrics {
    ProcessMetrics {
        pid,
        state: state.into(),
        ..Default::default()
    }
}

fn make_test_config() -> Config {
    let mut env = EnvMap::new();
    env.set("OPENCLAW_DIR", "/tmp/test-openclaw");
    env.set("VAULT_DIR", "/tmp/test-vault");
    env.set("AGENT_HOME", "/tmp/test-home");
    Config::load(&env, &EnvMap::new(), None).unwrap()
}

// ── State machine ─────────────────────────────────────────────────────

#[test]
fn test_no_pid_is_down() {
    let mut c = Classifier::new();
    assert_eq!(
        c.classify(None, None, false, at(1000), 120, 300, 1_048_576, 10),
        State::Down
    );
}

#[test]
fn test_zombie() {
    let mut c = Classifier::new();
    let m = make_metrics(1, "Z");
    assert_eq!(
        c.classify(Some(&m), None, false, at(1000), 120, 300, 1_048_576, 10),
        State::Zombie
    );
}

#[test]
fn test_http_ok_is_healthy() {
    let mut c = Classifier::new();
    let m = make_metrics(1, "S");
    assert_eq!(
        c.classify(Some(&m), None, true, at(1000), 120, 300, 1_048_576, 10),
        State::Healthy
    );
}

#[test]
fn test_stall_escalation() {
    let mut c = Classifier::new();
    let m = make_metrics(1, "S");

    // First tick: starts stall, returns HeavyInference
    assert_eq!(
        c.classify(Some(&m), None, false, at(1000), 120, 300, 1_048_576, 10),
        State::HeavyInference
    );
    assert!(c.stall_since.is_some());

    // After warn threshold: PossibleHang
    assert_eq!(
        c.classify(Some(&m), Some(&m), false, at(1121), 120, 300, 1_048_576, 10),
        State::PossibleHang
    );

    // After crit threshold: ConfirmedHang
    assert_eq!(
        c.classify(Some(&m), Some(&m), false, at(1301), 120, 300, 1_048_576, 10),
        State::ConfirmedHang
    );
}

#[test]
fn test_io_activity_resets_stall() {
    let mut c = Classifier::new();
    let m1 = ProcessMetrics {
        pid: 1,
        state: "S".into(),
        read_bytes: 0,
        ..Default::default()
    };
    // Start a stall
    c.classify(Some(&m1), None, false, at(1000), 120, 300, 1_048_576, 10);
    assert!(c.stall_since.is_some());

    // Next tick has significant I/O
    let m2 = ProcessMetrics {
        pid: 1,
        state: "S".into(),
        read_bytes: 2_000_000,
        ..Default::default()
    };
    assert_eq!(
        c.classify(Some(&m2), Some(&m1), false, at(1030), 120, 300, 1_048_576, 10),
        State::HeavyInference
    );
    assert!(c.stall_since.is_none());
}

#[test]
fn stall_thresholds_are_exclusive() {
    let mut c = Classifier::new();
    let m = make_metrics(1, "S");
    let mut tick = |secs, nanos| {
        c.classify(
            Some(&m),
            Some(&m),
            false,
            Timestamp { secs, nanos },
            120,
            300,
            1_048_576,
            10,
        )
    };
    assert_eq!(tick(1000, 0), State::HeavyInference);
    assert_eq!(tick(1120, 0), State::HeavyInference);
    assert_eq!(tick(1120, 1), State::PossibleHang);
    assert_eq!(tick(1300, 0), State::PossibleHang);
    assert_eq!(tick(1300, 1), State::ConfirmedHang);
}

#[test]
fn activity_of_another_process_does_not_count() {
    let mut c = Classifier::new();
    let old = make_metrics(1, "S");
    let mut new = make_metrics(2, "S");
    new.read_bytes = 10_000_000;
    c.classify(Some(&new), Some(&old), false, at(5), 120, 300, 1_048_576, 10);
    assert_eq!(c.stall_since, Some(at(5)));
    let mut busy = make_metrics(2, "S");
    busy.read_bytes = 10_000_000;
    busy.voluntary_ctxt_switches = 6;
    busy.nonvoluntary_ctxt_switches = 5;
    c.classify(Some(&busy), Some(&new), false, at(6), 120, 300, 1_048_576, 10);
    assert_eq!(c.stall_since, None);
}

#[test]
fn test_alert_on_transition_recovery() {
    let result = alert_on_transition(State::Down, State::Healthy, 120, 300);
    assert!(result.is_some());
    let (level, _msg) = result.unwrap();
    assert_eq!(level, "INFO");
}

#[test]
fn test_alert_on_transition_same_state() {
    assert!(alert_on_transition(State::Healthy, State::Healthy, 120, 300).is_none());
}

#[test]
fn test_alert_on_transition_degradation() {
    let result = alert_on_transition(State::Healthy, State::Down, 120, 300);
    assert!(result.is_some());
    let (level, _) = result.unwrap();
    assert_eq!(level, "WARNING");
}

#[test]
fn alert_texts() {
    let text = |a, b| alert_on_transition(a, b, 120, 300).unwrap().1;
    assert_eq!(text(State::Zombie, State::Healthy), "Gateway recovered: ZOMBIE -> HEALTHY");
    assert_eq!(
        text(State::Healthy, State::PossibleHang),
        "Gateway may be hung (I/O stalled >120s)"
    );
    assert_eq!(
        text(State::PossibleHang, State::ConfirmedHang),
        "Gateway CONFIRMED hung (I/O stalled >300s)"
    );
    assert_eq!(text(State::Unknown, State::Zombie), "Gateway process is ZOMBIE (state=Z)");
    assert_eq!(text(State::Unknown, State::Down), "Gateway process DOWN (PID not found)");
    assert!(alert_on_transition(State::HeavyInference, State::Healthy, 1, 2).is_none());
    assert!(alert_on_transition(State::Healthy, State::HeavyInference, 1, 2).is_none());
    assert_eq!(State::HeavyInference.as_str(), "HEAVY_INFERENCE");
    assert!(State::Zombie.is_critical() && !State::PossibleHang.is_critical());
}

// ── Auto-healer ───────────────────────────────────────────────────────

#[test]
fn test_healthy_resets_state() {
    let mut healer = AutoHealer::new();
    healer.restart_attempted_at = Some(at(1000));
    healer.recovery_attempted_at = Some(at(900));

    let cfg = make_test_config();
    healer.tick(State::Healthy, &cfg, at(2000));
    assert!(healer.restart_attempted_at.is_none());
    assert!(healer.recovery_attempted_at.is_none());
}

#[test]
fn an_incident_has_one_restart_and_one_recovery() {
    let cfg = make_test_config();
    let mut h = AutoHealer::new();
    assert_eq!(h.tick(State::ConfirmedHang, &cfg, at(0)), HealAction::Restart);
    let mut restarts = 0;
    let mut recoveries = 0;
    for t in 1..20_000 {
        match h.tick(State::ConfirmedHang, &cfg, at(t)) {
            HealAction::Recover => {
                recoveries += 1;
                assert_eq!(t, 91);
            }
            HealAction::Idle => {}
            _ => restarts += 1,
        }
    }
    assert_eq!((restarts, recoveries), (0, 1));
}

#[test]
fn a_gateway_that_is_down_is_asked_first() {
    let cfg = make_test_config();
    let mut h = AutoHealer::new();
    for quiet in [
        None,
        Some(ServiceActive::Inactive),
        Some(ServiceActive::Activating),
        Some(ServiceActive::Active),
        Some(ServiceActive::Unknown),
    ] {
        assert_eq!(h.tick(State::Down, &cfg, at(10)), HealAction::AskService);
        assert_eq!(h.on_service_state(quiet, at(10)), HealAction::Idle);
    }
    assert_eq!(h.tick(State::Down, &cfg, at(10)), HealAction::AskService);
    assert_eq!(
        h.on_service_state(Some(ServiceActive::Failed), at(10)),
        HealAction::ResetAndRestart
    );
    assert_eq!(h.tick(State::Down, &cfg, at(100)), HealAction::Idle);
    assert_eq!(h.tick(State::Down, &cfg, at(101)), HealAction::Recover);
    assert_eq!(h.tick(State::Down, &cfg, at(1900)), HealAction::Idle);
    assert_eq!(h.tick(State::Down, &cfg, at(1901)), HealAction::Idle);
    assert_eq!(h.tick(State::PossibleHang, &cfg, at(9999)), HealAction::Idle);
}

#[test]
fn heal_alerts() {
    assert_eq!(
        HealAction::Restart.alert(),
        Some(("WARNING", "Auto-restarting gateway (CONFIRMED_HANG)"))
    );
    assert_eq!(
        HealAction::ResetAndRestart.alert().unwrap().1,
        "Gateway service failed -- auto-restarting (reset-failed + restart)"
    );
    assert_eq!(
        HealAction::Recover.alert().unwrap().1,
        "Auto-recovering from LKG (restart failed)"
    );
    assert_eq!(HealAction::Idle.alert(), None);
    assert_eq!(HealAction::AskService.alert(), None);
    let long = format!("{}{}", "x".repeat(50), "é".repeat(200));
    assert_eq!(
        Recovery::Failed(long).alert(),
        (
            "CRITICAL",
            format!(
                "Auto-recovery FAILED: {}. Manual intervention required.",
                "é".repeat(200)
            )
        )
    );
    assert_eq!(
        Recovery::NoExecutable("e".into()).alert().1,
        "Auto-recovery FAILED: cannot find executable: e"
    );
    assert_eq!(
        Recovery::NotStarted("e".into()).alert().1,
        "Auto-recovery script failed: e. Manual intervention required."
    );
    assert_eq!(Recovery::Succeeded.alert().0, "WARNING");
}

// ── Config watcher ────────────────────────────────────────────────────

#[test]
fn test_is_identity_file() {
    assert!(is_identity_file("SOUL.md"));
    assert!(is_identity_file("AGENTS.md"));
    assert!(is_identity_file("USER.md"));
    assert!(!is_identity_file("openclaw.json"));
    assert!(!is_identity_file("random.txt"));
}

#[test]
fn test_describe_event_kind() {
    assert_eq!(describe_event_kind(EventKind::Modify), "modified");
    assert_eq!(describe_event_kind(EventKind::Remove), "deleted");
    assert_eq!(describe_event_kind(EventKind::Access), "");
}

#[test]
fn changes_raise_one_alert_per_cooldown() {
    let mut w = ConfigFileWatcher::new(vec!["/w/SOUL.md".into(), "/o/openclaw.json".into()]);
    let event = |kind, paths: &[&str]| WatchEvent {
        kind,
        paths: paths.iter().map(|p| p.to_string()).collect(),
    };
    let events = vec![
        event(EventKind::Access, &["/w/SOUL.md"]),
        event(EventKind::Modify, &["/w/SOUL.md", "/elsewhere", "/o/openclaw.json"]),
        event(EventKind::Remove, &["/w/SOUL.md"]),
    ];
    let got = w.process_events(&events, at(100));
    assert_eq!(
        got,
        vec![
            (
                "CRITICAL",
                "IDENTITY FILE TAMPERED: SOUL.md was modified. chattr +i may have been removed!"
                    .to_string()
            ),
            (
                "WARNING",
                "Config file changed: openclaw.json (modified)".to_string()
            ),
        ]
    );
    assert!(w.process_events(&events, at(159)).is_empty());
    let again = vec![event(EventKind::Create, &["/w/SOUL.md"])];
    let later = w.process_events(&again, at(160));
    assert_eq!(later.len(), 1);
    assert!(later[0].1.contains("was created"));
    let other = vec![event(EventKind::Other, &["/o/openclaw.json"])];
    assert_eq!(
        w.process_events(&other, at(1000))[0].1,
        "Config file changed: openclaw.json (changed)"
    );
}

// ── Health check ──────────────────────────────────────────────────────

#[test]
fn test_unreachable_returns_false() {
    assert!(!check_health(None));
}

#[test]
fn only_status_200_is_healthy() {
    assert!(check_health(Some(200)));
    assert!(!check_health(Some(204)));
    assert!(!check_health(Some(500)));
}

// ── Identity ──────────────────────────────────────────────────────────

#[test]
fn test_identity_manager_timeout() {
    let mut mgr = IdentityManager::new(0); // 0-second timeout for testing
    assert!(!mgr.check_timeout());
    assert!(!mgr.is_unlocked());

    // Simulate unlock
    let now = monotonic_now();
    mgr.unlocked_at = Some(Timestamp { secs: now.secs.saturating_sub(1), nanos: now.nanos });
    assert!(mgr.is_unlocked());
    assert!(mgr.check_timeout());
}

#[test]
fn test_identity_manager_not_timed_out() {
    let mgr = IdentityManager::new(600);
    assert!(!mgr.check_timeout());
    assert!(!mgr.is_unlocked());
}

#[test]
fn unlocking_starts_the_timeout_and_locking_ends_it() {
    let mut mgr = IdentityManager::new(600);
    let failed = vec![("SOUL.md".to_string(), "denied".to_string()), ("USER.md".into(), "x".into())];
    assert_eq!(
        mgr.unlock(&failed, "Telegram/me", at(5)),
        "Unlock partially failed: SOUL.md: denied; USER.md: x"
    );
    assert!(!mgr.is_unlocked());
    assert_eq!(
        mgr.unlock(&vec![], "Telegram/me", at(5)),
        "Identity files UNLOCKED (Telegram/me). Auto-relock in 10 minutes."
    );
    assert!(!mgr.check_timeout_at(at(604)));
    assert!(mgr.check_timeout_at(at(605)));
    assert!(mgr.check_timeout_at(at(9000)));
    assert_eq!(mgr.lock(&failed, "x"), "Lock partially failed: SOUL.md: denied; USER.md: x");
    assert!(!mgr.is_unlocked());
    assert_eq!(mgr.lock(&vec![], "auto-timeout"), "Identity files LOCKED (auto-timeout).");
    assert_eq!(identity_files(), vec!["SOUL.md", "AGENTS.md", "USER.md"]);
    assert_eq!(run(true, 0), (0, "Identity files locked successfully".to_string()));
    assert_eq!(run(false, 0), (0, "Identity files unlocked successfully".to_string()));
    assert_eq!(run(false, 2), (1, "2 file(s) failed".to_string()));
}

// ── Scheduler ─────────────────────────────────────────────────────────

#[test]
fn test_first_tick_fires_all_enabled() {
    let mut sched = Scheduler::new(false);
    let due = sched.tick();
    // cloud_sync disabled, so 3 tasks
    assert_eq!(due.len(), 3);
    assert!(due.contains(&"snapshot".to_string()));
    assert!(due.contains(&"healthcheck".to_string()));
    assert!(due.contains(&"lkg_promote".to_string()));
    assert!(!due.contains(&"cloud_sync".to_string()));
}

#[test]
fn test_second_tick_fires_nothing() {
    let mut sched = Scheduler::new(false);
    let _ = sched.tick();
    // Immediately after, nothing should be due
    let due = sched.tick();
    assert!(due.is_empty());
}

#[test]
fn test_cloud_sync_when_enabled() {
    let mut sched = Scheduler::new(true);
    let due = sched.tick();
    assert!(due.contains(&"cloud_sync".to_string()));
}

#[test]
fn test_set_enabled() {
    let mut sched = Scheduler::new(false);
    sched.set_enabled("cloud_sync", true);
    let _ = sched.tick(); // consume first tick
    sched.set_enabled("cloud_sync", false);
    // Force a second tick that would normally not fire
    for task in &mut sched.tasks {
        if task.name == "cloud_sync" {
            task.last_run = None; // pretend never ran
        }
    }
    let due = sched.tick();
    assert!(!due.contains(&"cloud_sync".to_string()));
}

#[test]
fn tasks_fire_when_their_interval_has_passed() {
    let mut s = Scheduler::new(true);
    assert_eq!(s.tick_at(at(0)), vec!["snapshot", "healthcheck", "lkg_promote", "cloud_sync"]);
    assert!(s.tick_at(at(119)).is_empty());
    assert_eq!(s.tick_at(at(120)), vec!["healthcheck"]);
    assert_eq!(s.tick_at(at(1800)), vec!["snapshot", "healthcheck"]);
    assert_eq!(
        s.tick_at(at(7200)),
        vec!["snapshot", "healthcheck", "lkg_promote", "cloud_sync"]
    );
    s.set_enabled("nothing", false);
    s.set_enabled("healthcheck", false);
    assert_eq!(s.tick_at(at(9000)), vec!["snapshot"]);
}

// ── Status ────────────────────────────────────────────────────────────

#[test]
fn test_parse_iso_timestamp() {
    // 2024-01-01T00:00:00Z should be some known epoch
    let ts = parse_iso_timestamp("2024-01-01T00:00:00Z") as f64;
    assert!(ts > 1_700_000_000.0); // sanity: after ~2023-11
    assert!(ts < 1_710_000_000.0); // sanity: before ~2024-03
}

#[test]
fn test_parse_iso_timestamp_invalid() {
    assert_eq!(parse_iso_timestamp("not-a-date") as f64, 0.0);
    assert_eq!(parse_iso_timestamp("") as f64, 0.0);
}

#[test]
fn timestamps_with_fractions_and_zones() {
    assert_eq!(parse_iso_timestamp("2024-01-15T12:34:56.789Z"), 1705322096);
    assert_eq!(parse_iso_timestamp("2024-01-15T12:34:56+00:00"), 1705322096);
    assert_eq!(parse_iso_timestamp("2024-01-15T12:34:56-05:00"), 1705322096);
    assert_eq!(parse_iso_timestamp("2024-03-01T00:00:00"), 1709251200);
    assert_eq!(parse_iso_timestamp("2024-12-31T00:00:00Z"), 1735603200);
    assert_eq!(parse_iso_timestamp("2024-13-01T00:00:00Z"), 1735689600);
    assert_eq!(parse_iso_timestamp("2024-14-01T00:00:00Z"), 0);
    assert_eq!(parse_iso_timestamp("2024-99-01T00:00:00Z"), 0);
    assert_eq!(parse_iso_timestamp("2024-01-01T9000000000000000:00:00Z"), 0);
    assert_eq!(parse_iso_timestamp("1969-01-00T00:00:00Z"), -86400);
    assert_eq!(parse_iso_timestamp("2024-01T00:00:00Z"), 0);
}

#[test]
fn the_proc_snapshot_is_read() {
    let s = read_proc_state(Some(
        "{\"outerclaw_state\":\"DOWN\",\"pid\":12,\"timestamp\":\"2024-01-01T00:00:00Z\"}",
    ));
    assert_eq!((s.state.as_str(), s.pid.as_str()), ("DOWN", "12"));
    assert_eq!(s.timestamp.as_deref(), Some("2024-01-01T00:00:00Z"));
    let t = read_proc_state(Some("{\"pid\":\"ab\",\"timestamp\":1.5}"));
    assert_eq!((t.state.as_str(), t.pid.as_str()), ("UNKNOWN", "ab"));
    assert_eq!(t.timestamp, None);
    for none in [None, Some("{"), Some("[]")] {
        let u = read_proc_state(none);
        assert_eq!((u.state.as_str(), u.pid.as_str()), ("UNKNOWN", "N/A"));
    }
}

#[test]
fn snapshots_are_counted_and_the_latest_is_found() {
    let files = vec![
        ("main-1.sqlite".to_string(), Some(at(10))),
        ("main-2.sqlite.tmp".to_string(), Some(at(99))),
        ("other".to_string(), Some(at(50))),
        ("main-3.sqlite".to_string(), None),
        ("main-4.sqlite".to_string(), Some(at(30))),
        ("main-5.sqlite".to_string(), Some(at(30))),
    ];
    assert_eq!(count_snapshots(&files), (4, at(30)));
    assert_eq!(latest_snapshot(&files), Some(4));
    assert_eq!(latest_snapshot(&vec![]), None);
    assert_eq!(count_lkg(&vec!["lkg-1".into(), "current".into(), "lkg-2".into()]), 2);
    assert_eq!(check_latest_integrity(Some(" ok\n")), "passed");
    assert_eq!(check_latest_integrity(Some("row 1 missing")), "FAILED");
    assert_eq!(check_latest_integrity(None), "unknown");
    assert_eq!(
        check_identity_immutable(&vec![
            Some("----i--- /w/SOUL.md".into()),
            Some("-------- /w/identity".into()),
            None,
        ]),
        (1, 3)
    );
}

#[test]
fn the_status_report() {
    let facts = StatusFacts {
        version: "0.1.0".into(),
        proc: read_proc_state(Some("{\"outerclaw_state\":\"HEALTHY\",\"pid\":7}")),
        proc_ts: 940,
        uptime: Some(60),
        snapshots: 2,
        latest_snapshot: at(400),
        lkgs: 1,
        integrity: "passed".into(),
        watchdog_exists: true,
        agent_exists: false,
        immutable: 3,
        identity_total: 3,
        watcher_active: true,
        tg_token: "1:a".into(),
        tg_chat: "".into(),
        now: at(1000),
    };
    assert_eq!(
        show(&facts),
        "==========================================\n     OuterClaw Guardian v0.1.0\n==========================================\n\n  System        [OK] HEALTHY\n  Gateway       PID 7\n  Uptime        1 min\n  Last check    1m ago\n\n  Data Protection\n  +-- Last backup     10m ago\n  +-- Backup count    2\n  +-- LKG states      1 available\n  +-- Integrity       [OK] passed\n\n  Security\n  +-- User isolation  [!!] missing users\n  +-- Identity files  [OK] 3/3 immutable\n  +-- Config monitor  [OK] file watcher active\n  +-- Alert channel   [!!] Telegram not configured\n\n"
    );
    let bare = StatusFacts {
        proc: read_proc_state(None),
        proc_ts: 0,
        uptime: Some(0),
        latest_snapshot: at(0),
        integrity: "unknown".into(),
        immutable: 0,
        identity_total: 0,
        ..facts
    };
    let text = show(&bare);
    assert!(text.contains("[??] UNKNOWN"));
    assert!(text.contains("Uptime        unknown\n\n"));
    assert!(text.contains("Last backup     never"));
    assert!(text.contains("[FAIL] unknown"));
    assert!(text.contains("[!!] 0/0 immutable"));
}

// ── Telegram ──────────────────────────────────────────────────────────

#[test]
fn test_sanitize_markdown() {
    assert_eq!(sanitize_markdown("hello"), "hello");
    assert_eq!(sanitize_markdown("a*b_c"), "a\\*b\\_c");
    assert_eq!(sanitize_markdown("a[b]"), "a\\[b\\]");
}

fn poller() -> Poller {
    TelegramBot::new("1:tok", "42", 1000).start()
}

fn status() -> StatusSnapshot {
    StatusSnapshot {
        state: "HEALTHY".into(),
        pid: "1".into(),
        uptime: "2 hrs".into(),
        rss_mb: "3".into(),
        last_check: "4".into(),
    }
}

fn update(id: i64, chat: &str, text: &str) -> String {
    format!(
        "{{\"update_id\":{id},\"message\":{{\"text\":\"{text}\",\"chat\":{{\"id\":{chat}}},\"from\":{{\"username\":\"a_b\"}}}}}}"
    )
}

fn answer(updates: &[String]) -> String {
    format!("{{\"ok\":true,\"result\":[{}]}}", updates.join(","))
}

fn brief(actions: &[BotAction]) -> Vec<String> {
    actions
        .iter()
        .map(|a| match a {
            BotAction::Send(t) => format!("send {t}"),
            BotAction::Queue(c) => format!(
                "queue {} {} {}",
                c.action,
                c.user,
                c.args.get("session_id").unwrap_or("-")
            ),
            BotAction::ListSessions => "sessions".to_string(),
            BotAction::ListSnapshots => "snapshots".to_string(),
        })
        .collect()
}

fn ask(p: &mut Poller, text: &str, secs: u64) -> Vec<String> {
    let a = answer(&[update(1, "42", text)]);
    brief(&p.on_response(Some(&a), &status(), at(secs)).unwrap())
}

#[test]
fn commands_from_the_right_chat_are_answered() {
    let mut p = poller();
    assert_eq!(ask(&mut p, "/help", 0), vec![format!("send {HELP}")]);
    assert_eq!(
        ask(&mut p, " /STATUS@mybot now", 0),
        vec!["send *OuterClaw Status*\nState: `HEALTHY`\nPID: `1`\nUptime: `2 hrs`\nRSS: `3MB`\nLast check: `4`"]
    );
    assert_eq!(ask(&mut p, "/sessions", 0), vec!["sessions"]);
    assert_eq!(ask(&mut p, "/snapshots", 0), vec!["snapshots"]);
    assert_eq!(ask(&mut p, "/lock_identity", 0), vec!["queue lock_identity a\\_b -"]);
    assert_eq!(
        ask(&mut p, "/nope", 0),
        vec!["send Unknown command: `/nope`\nUse /help for available commands."]
    );
    assert!(ask(&mut p, "hello", 0).is_empty());
    assert_eq!(
        ask(&mut p, "/restart", 100),
        vec![
            "send Restarting gateway (requested by a\\_b)...",
            "queue restart a\\_b -"
        ]
    );
    assert_eq!(
        ask(&mut p, "/kill", 159),
        vec!["send Rate limited -- wait 1s before retrying."]
    );
    assert_eq!(
        ask(&mut p, "/kill_session", 160),
        vec![format!("send {KILL_SESSION_USAGE}")]
    );
    assert_eq!(
        ask(&mut p, "/kill_session s-1 x", 220),
        vec![
            "send Killing session `s-1` (requested by a\\_b)...",
            "queue kill_session a\\_b s-1"
        ]
    );
    assert_eq!(ask(&mut p, "/unlock_identity", 280).len(), 2);
    assert_eq!(ask(&mut p, "/kill", 340)[1], "queue kill a\\_b -");
}

#[test]
fn foreign_chats_are_ignored() {
    let mut p = poller();
    let a = answer(&[
        update(5, "43", "/restart"),
        update(6, "\"42\"", "/sessions"),
        "{\"update_id\":9}".to_string(),
    ]);
    let got = p.on_response(Some(&a), &status(), at(0)).unwrap();
    assert_eq!(brief(&got), vec!["sessions"]);
    assert_eq!(p.offset, 10);
    assert_eq!(p.last_destructive_cmd, None);
}

#[test]
fn bad_answers_make_the_bot_wait() {
    let mut p = poller();
    let long = format!("{{\"ok\":true,\"result\":[],\"pad\":\"{}\"}}", "x".repeat(1000));
    for bad in [
        None,
        Some("no json"),
        Some("{\"ok\":false,\"result\":[]}"),
        Some("{\"ok\":1,\"result\":[]}"),
        Some("{\"ok\":true}"),
        Some(long.as_str()),
    ] {
        assert!(p.on_response(bad, &status(), at(0)).is_none());
    }
    let odd = p.on_response(Some("{\"ok\":true,\"result\":7}"), &status(), at(0));
    assert!(odd.unwrap().is_empty());
    assert_eq!(p.offset, 0);
}

#[test]
fn requests_of_the_bot() {
    let mut bot = TelegramBot::new("1:tok", "42", 10);
    assert!(bot.running);
    let r = bot.send_message("hi");
    assert_eq!(r.url, "https://api.telegram.org/bot1:tok/sendMessage");
    assert_eq!(r.body, "{\"chat_id\":\"42\",\"parse_mode\":\"Markdown\",\"text\":\"hi\"}");
    let mut p = bot.start();
    p.offset = 12;
    let g = p.get_updates();
    assert_eq!(g.url, "https://api.telegram.org/bot1:tok/getUpdates");
    assert_eq!(g.body, "{\"allowed_updates\":[\"message\"],\"offset\":12,\"timeout\":15}");
    bot.stop();
    assert!(!bot.running);
}

#[test]
fn sessions_are_listed() {
    let list = "[{\"id\":\"a\",\"status\":\"on\",\"created\":\"now\"},{\"session_id\":\"b\",\"started_at\":\"then\"},{\"id\":5,\"session_id\":\"c\"}]";
    let want = "*Active Sessions (3)*\n`a` [on] (now)\n`b` (then)\n`?`";
    assert_eq!(cmd_sessions(Some(list), 1000), want);
    assert_eq!(cmd_sessions(Some(&format!("{{\"sessions\":{list}}}")), 1000), want);
    for none in ["[]", "{}", "{\"sessions\":[]}", "5"] {
        assert_eq!(cmd_sessions(Some(none), 1000), "No active sessions.");
    }
    for bad in [None, Some("x"), Some(list)] {
        assert_eq!(
            cmd_sessions(bad, 10),
            "Failed to query sessions (gateway unreachable)."
        );
    }
    let many = format!("[{}]", vec!["{\"id\":\"z\"}"; 25].join(","));
    let text = cmd_sessions(Some(&many), 1000);
    assert!(text.starts_with("*Active Sessions (25)*\n"));
    assert_eq!(text.lines().count(), 21);
}

#[test]
fn recent_snapshots_are_listed() {
    let files = (0..7)
        .map(|i| (format!("main-{i}.sqlite"), 1024 * i as u64 + 1))
        .chain([("main-9.sqlite.tmp".to_string(), 5), ("files-9".to_string(), 5)])
        .collect();
    assert_eq!(
        cmd_snapshots(files),
        "*Recent Snapshots*\n`main-6.sqlite` (6KB)\n`main-5.sqlite` (5KB)\n`main-4.sqlite` (4KB)\n`main-3.sqlite` (3KB)\n`main-2.sqlite` (2KB)"
    );
    assert_eq!(cmd_snapshots(vec![]), "No snapshots found.");
}

// ── The daemon ────────────────────────────────────────────────────────

#[test]
fn a_collection_cycle() {
    let cfg = make_test_config();
    let mut d = Daemon::new(&cfg, at(10));
    assert!(d.collect_due(&cfg, at(10)));
    d.collected(at(10));
    assert!(!d.collect_due(&cfg, at(39)));
    assert!(d.collect_due(&cfg, at(40)));
    assert!(!d.rewatch_due(at(309)));
    assert!(d.rewatch_due(at(310)));
    d.rewatched(at(310));
    assert!(!d.rewatch_due(at(609)) && d.rewatch_due(at(610)));
    assert!(!d.collect_due(&cfg, at(39)) && d.collect_due(&cfg, at(40)));
    let mut m = make_metrics(7, "S");
    m.rss_bytes = 5 * 1024 * 1024 + 1;
    let up = d.do_tick(&cfg, Some(m), true, at(1000));
    assert_eq!(up.state, State::Healthy);
    assert_eq!(up.alert.unwrap().1, "Gateway recovered: UNKNOWN -> HEALTHY");
    assert_eq!(up.heal, HealAction::Idle);
    d.update_status(Some(90061), 86400 + 3661);
    assert_eq!(d.status.state, "HEALTHY");
    assert_eq!(d.status.pid, "7");
    assert_eq!(d.status.rss_mb, "5");
    assert_eq!(d.status.last_check, "01:01:01 UTC");
    assert_eq!(d.status.uptime, "1 day 1 hr 1 min");
    let down = d.do_tick(&cfg, None, false, at(1030));
    assert_eq!(down.state, State::Down);
    assert_eq!(down.alert.unwrap().0, "WARNING");
    assert_eq!(down.heal, HealAction::AskService);
    d.update_status(None, 0);
    assert_eq!(d.status.pid, "N/A");
    assert_eq!(d.status.uptime, "unknown");
    assert_eq!(d.status.last_check, "00:00:00 UTC");
}

#[test]
fn the_proc_json() {
    let none = write_proc_json(None, State::Down, "T").unwrap();
    assert_eq!(none, "{\n  \"outerclaw_state\": \"DOWN\",\n  \"timestamp\": \"T\"\n}");
    let mut m = make_metrics(7, "S");
    m.read_bytes = u64::MAX;
    m.timestamp = Timestamp { secs: 3, nanos: 500_000_000 };
    let some = write_proc_json(Some(&m), State::Healthy, "T").unwrap();
    assert!(some.contains("\"pid\": 7"));
    assert!(some.contains("\"read_bytes\": 18446744073709551615"));
    assert!(some.contains("\"timestamp\": 3.5"));
    assert!(!some.contains("\"T\""));
    let read = read_proc_state(Some(&some));
    assert_eq!(read.state, "HEALTHY");
    assert_eq!(read.pid, "7");
    assert_eq!(read.timestamp, None);
    let read = read_proc_state(Some(&none));
    assert_eq!(read.state, "DOWN");
    assert_eq!(read.timestamp, Some("T".to_string()));
}

#[test]
fn counters_that_cannot_be_compared() {
    let low = make_metrics(7, "S");
    let mut high = make_metrics(7, "S");
    high.read_bytes = i64::MAX as u64;
    assert!(is_comparable(&high, &low));
    high.write_bytes = 1;
    assert!(!is_comparable(&high, &low));
    high.write_bytes = 0;
    let mut wrapped = make_metrics(7, "S");
    wrapped.read_bytes = u64::MAX;
    assert!(is_comparable(&wrapped, &low));
    assert!(!is_comparable(&high, &wrapped));
    let mut switching = make_metrics(7, "S");
    switching.voluntary_ctxt_switches = i64::MAX as u64;
    switching.nonvoluntary_ctxt_switches = 1;
    assert!(!is_comparable(&switching, &low));
}

fn command(action: &str, session: Option<&str>) -> TelegramCommand {
    let mut args = EnvMap::new();
    if let Some(s) = session {
        args.set("session_id", s);
    }
    TelegramCommand { action: action.into(), user: "me".into(), args }
}

#[test]
fn telegram_commands_on_the_main_thread() {
    let plan = |c| process_telegram_command(&c, "http://h/sessions");
    let (a, w) = plan(command("restart", None));
    assert_eq!(a.as_deref(), Some("Gateway restart via Telegram by me"));
    assert!(matches!(w, Work::Restart));
    let (a, w) = plan(command("kill", None));
    assert_eq!(a.as_deref(), Some("Gateway STOP via Telegram by me"));
    assert!(matches!(w, Work::Stop));
    assert!(matches!(plan(command("unlock_identity", None)).1, Work::Unlock(s) if s == "Telegram/me"));
    assert!(matches!(plan(command("lock_identity", None)).1, Work::Lock(s) if s == "Telegram/me"));
    match plan(command("kill_session", Some("s-1"))).1 {
        Work::DeleteSession { url, session } => {
            assert_eq!(url, "http://h/sessions/s-1");
            assert_eq!(session, "s-1");
        }
        _ => panic!("no deletion"),
    }
    for bad in [None, Some(""), Some("a/b"), Some("a b")] {
        assert!(matches!(plan(command("kill_session", bad)).1, Work::Refuse(m) if m == INVALID_SESSION));
    }
    assert!(matches!(plan(command("other", None)), (None, Work::Unknown)));
    assert_eq!(restart_reply(None), "Gateway restarted successfully.");
    assert_eq!(restart_reply(Some("e")), "Restart failed: e");
    assert_eq!(stop_reply(true), Some("Gateway stopped successfully."));
    assert_eq!(stop_reply(false), None);
    assert_eq!(
        kill_reply(None),
        "Gateway force-killed (SIGKILL) after graceful stop failed."
    );
    assert_eq!(kill_reply(Some("e")), "Force-kill failed: e. Manual intervention required.");
    assert_eq!(
        session_reply("s", "me", None),
        (
            Some("Session s kill via Telegram by me".to_string()),
            "Session s terminated.".to_string()
        )
    );
    assert_eq!(
        session_reply("s", "me", Some("e")),
        (None, "Failed to kill session s: e".to_string())
    );
}

#[test]
fn an_unlock_by_the_command_is_temporary() {
    assert!(relock_command(true, "/v/bin/outerclaw").is_none());
    let line = relock_command(false, "/v/bin/outerclaw").unwrap();
    assert_eq!(line.program, "sh");
    assert_eq!(
        line.args,
        vec!["-c", "sleep 600; exec \"$0\" identity lock", "/v/bin/outerclaw"]
    );
}

#[test]
fn paths_are_compared_by_their_components() {
    let mut w = ConfigFileWatcher::new(vec!["/a/SOUL.md".into()]);
    let event = |path: &str| {
        vec![WatchEvent { kind: EventKind::Modify, paths: vec![path.to_string()] }]
    };
    let alerts = w.process_events(&event("/a//SOUL.md"), at(100));
    assert_eq!(alerts.len(), 1);
    assert_eq!(alerts[0].0, "CRITICAL");
    assert!(w.process_events(&event("/a/./SOUL.md/"), at(120)).is_empty());
    assert!(w.process_events(&event("a/SOUL.md"), at(300)).is_empty());
    assert_eq!(w.process_events(&event("/a/SOUL.md"), at(300)).len(), 1);
}

#[test]
fn sanitizing_can_be_undone() {
    for text in ["a\\b", "\\", "*_`[]()", "plain", "", "\\*x\\"] {
        let escaped = sanitize_markdown(text);
        let mut read = String::new();
        let mut chars = escaped.chars();
        while let Some(c) = chars.next() {
            read.push(if c == '\\' { chars.next().unwrap() } else { c });
        }
        assert_eq!(read, text);
    }
    assert_eq!(sanitize_markdown("a\\b"), "a\\\\b");
}
