use outerclaw::alert::{epoch_to_iso, format_utc_now, log_to_audit, send_alert, send_telegram};
use outerclaw::config::{Config, EnvMap};

fn cfg(token: &str) -> Config {
    let mut env = EnvMap::new();
    env.set("OUTERCLAW_TG_TOKEN", token);
    env.set("OUTERCLAW_TG_CHAT", "42");
    env.set("VAULT_DIR", "/v");
    Config::load(&env, &EnvMap::new(), None).unwrap()
}

#[test]
fn test_format_utc_now_looks_like_iso() {
    let ts = format_utc_now();
    assert!(ts.ends_with('Z'));
    assert!(ts.contains('T'));
    assert_eq!(ts.len(), 20); // YYYY-MM-DDTHH:MM:SSZ
}

#[test]
fn test_epoch_to_iso_known() {
    // 2024-01-01T00:00:00Z = 1704067200
    assert_eq!(epoch_to_iso(1704067200), "2024-01-01T00:00:00Z");
}

#[test]
fn test_epoch_to_iso_epoch_zero() {
    assert_eq!(epoch_to_iso(0), "1970-01-01T00:00:00Z");
}

#[test]
fn epoch_to_iso_at_the_edges_of_february() {
    assert_eq!(epoch_to_iso(951782399), "2000-02-28T23:59:59Z");
    assert_eq!(epoch_to_iso(951782400), "2000-02-29T00:00:00Z");
    assert_eq!(epoch_to_iso(951868800), "2000-03-01T00:00:00Z");
    assert_eq!(epoch_to_iso(4107542399), "2100-02-28T23:59:59Z");
    assert_eq!(epoch_to_iso(4107542400), "2100-03-01T00:00:00Z");
    assert_eq!(epoch_to_iso(1735689599), "2024-12-31T23:59:59Z");
    assert_eq!(epoch_to_iso(253402300800), "10000-01-01T00:00:00Z");
}

#[test]
fn audit_line_holds_time_level_and_message() {
    let (path, line) = log_to_audit("INFO", "test message", "/vault", 0);
    assert_eq!(path, "/vault/audit/alerts.log");
    assert_eq!(line, "1970-01-01T00:00:00Z [INFO] test message\n");
}

#[test]
fn telegram_text_carries_the_level() {
    for (level, icon) in [
        ("CRITICAL", "[CRITICAL]"),
        ("WARNING", "[WARNING]"),
        ("INFO", "[INFO]"),
        ("DEBUG", "[ALERT]"),
    ] {
        let r = send_telegram(level, "hello \"you\"", "1:a", "7");
        assert_eq!(r.url, "https://api.telegram.org/bot1:a/sendMessage");
        assert_eq!(
            r.body,
            format!(
                "{{\"chat_id\":\"7\",\"parse_mode\":\"Markdown\",\"text\":\"{icon} hello \\\"you\\\"\"}}"
            )
        );
    }
}

#[test]
fn an_alert_is_always_logged_and_sent_only_with_a_token() {
    let quiet = send_alert("WARNING", "m", &cfg(""), 60);
    assert_eq!(quiet.log_path, "/v/audit/alerts.log");
    assert_eq!(quiet.line, "1970-01-01T00:01:00Z [WARNING] m\n");
    assert!(quiet.request.is_none());
    let loud = send_alert("WARNING", "m", &cfg("12:ab"), 60);
    assert_eq!(loud.line, quiet.line);
    assert_eq!(
        loud.request.unwrap().url,
        "https://api.telegram.org/bot12:ab/sendMessage"
    );
}
