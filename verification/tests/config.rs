use outerclaw::config::{
    default_env_file_path, is_valid_tg_token, load_tg_from_openclaw, parse_env_file, Config, EnvMap,
    Mode,
};
use std::path::PathBuf;

fn loaded(env: &[(&str, &str)], file: &str, json: Option<&str>) -> Result<Config, String> {
    let mut e = EnvMap::new();
    for (k, v) in env {
        e.set(k, v);
    }
    Config::load(&e, &parse_env_file(file), json)
}

#[test]
fn test_valid_tg_token() {
    assert!(is_valid_tg_token("123456:ABCdef_-789"));
    assert!(!is_valid_tg_token(""));
    assert!(!is_valid_tg_token("nocolon"));
    assert!(!is_valid_tg_token(":noid"));
    assert!(!is_valid_tg_token("123:bad space"));
    assert!(!is_valid_tg_token("123:bad;injection"));
}

#[test]
fn test_mode_from_env() {
    assert_eq!(Mode::from_env(""), Mode::Sudo);
    assert_eq!(Mode::from_env("sudo"), Mode::Sudo);
    assert_eq!(Mode::from_env("anything-else"), Mode::Sudo);
    assert_eq!(Mode::from_env("user"), Mode::User);
    assert_eq!(Mode::from_env("USER"), Mode::User);
    assert_eq!(Mode::from_env("user-mode"), Mode::User);
    assert_eq!(Mode::from_env("usermode"), Mode::User);
}

#[test]
fn test_mode_as_str() {
    assert_eq!(Mode::Sudo.as_str(), "sudo");
    assert_eq!(Mode::User.as_str(), "user");
}

#[test]
fn test_default_env_file_path_sudo() {
    assert_eq!(
        PathBuf::from(default_env_file_path(Mode::Sudo, &EnvMap::new())),
        PathBuf::from("/var/lib/outerclaw/config/outerclaw.env")
    );
}

#[test]
fn env_file_path_can_be_overridden_and_depends_on_home() {
    let mut env = EnvMap::new();
    assert_eq!(
        default_env_file_path(Mode::User, &env),
        "/tmp/.config/outerclaw/outerclaw.env"
    );
    env.set("HOME", "/home/me");
    assert_eq!(
        default_env_file_path(Mode::User, &env),
        "/home/me/.config/outerclaw/outerclaw.env"
    );
    env.set("OUTERCLAW_ENV_FILE", "/etc/oc.env");
    assert_eq!(default_env_file_path(Mode::User, &env), "/etc/oc.env");
    assert_eq!(default_env_file_path(Mode::Sudo, &env), "/etc/oc.env");
}

#[test]
fn test_vault_helper_methods() {
    let cfg = Config {
        gateway_port: 18789,
        gateway_service: "openclaw-gateway.service".into(),
        health_timeout: 5,
        health_url: "".into(),
        sessions_url: "".into(),
        tick_interval: 1,
        collect_interval: 30,
        hang_warn_secs: 120,
        hang_crit_secs: 300,
        io_delta_threshold: 0,
        ctx_switch_threshold: 0,
        restart_settle_wait: 90,
        recovery_cooldown: 1800,
        kill_graceful_timeout: 15,
        identity_unlock_timeout: 600,
        mode: Mode::Sudo,
        openclaw_dir: "/home/ocagent/.openclaw".into(),
        vault_dir: "/opt/custom-vault".into(),
        agent_user: "ocagent".into(),
        agent_home: "/home/ocagent".into(),
        watchdog_user: "outerclaw".into(),
        tg_token: "".into(),
        tg_chat: "".into(),
        tg_is_dedicated: false,
        max_vault_mb: 2048,
        io_pressure_threshold: "25.0".into(),
        cloud_enabled: false,
        cloud_remote: "".into(),
        cloud_bandwidth: 0,
        max_response_bytes: 0,
    };
    // Helpers should track vault_dir, not hardcode /var/lib/outerclaw
    assert_eq!(
        PathBuf::from(cfg.bin_path()),
        PathBuf::from("/opt/custom-vault/bin/outerclaw")
    );
    assert_eq!(
        PathBuf::from(cfg.env_file_path()),
        PathBuf::from("/opt/custom-vault/config/outerclaw.env")
    );
    assert_eq!(
        PathBuf::from(cfg.rclone_config_path()),
        PathBuf::from("/opt/custom-vault/config/rclone.conf")
    );
    assert_eq!(
        PathBuf::from(cfg.audit_dir()),
        PathBuf::from("/opt/custom-vault/audit")
    );
    assert_eq!(
        PathBuf::from(cfg.snapshots_dir()),
        PathBuf::from("/opt/custom-vault/snapshots")
    );
    assert_eq!(
        PathBuf::from(cfg.lkg_dir()),
        PathBuf::from("/opt/custom-vault/lkg")
    );
    assert_eq!(
        cfg.watched_files(),
        vec![
            "/home/ocagent/.openclaw/workspace/SOUL.md",
            "/home/ocagent/.openclaw/workspace/AGENTS.md",
            "/home/ocagent/.openclaw/workspace/USER.md",
            "/home/ocagent/.openclaw/openclaw.json",
        ]
    );
}

#[test]
fn test_parse_env_file() {
    let map = parse_env_file(
        "# comment\nGATEWAY_PORT=18789\n AGENT_USER = ocagent \nQUOTED=\"value\"\n",
    );
    assert_eq!(map.get("GATEWAY_PORT").unwrap(), "18789");
    assert_eq!(map.get("AGENT_USER").unwrap(), "ocagent");
    assert_eq!(map.get("QUOTED").unwrap(), "value");
}

#[test]
fn env_file_edge_cases() {
    let map = parse_env_file("A=1\r\nA=2\nB='x\"'\nnoequals\n#C=1\nD=a=b\n  \nE=");
    assert_eq!(map.get("A"), Some("2"));
    assert_eq!(map.get("B"), Some("x\""));
    assert_eq!(map.get("C"), None);
    assert_eq!(map.get("#C"), None);
    assert_eq!(map.get("D"), Some("a=b"));
    assert_eq!(map.get("E"), Some(""));
    assert_eq!(map.get("noequals"), None);
}

#[test]
fn defaults_of_sudo_mode() {
    let c = loaded(&[], "", None).unwrap();
    assert_eq!(c.gateway_port, 18789);
    assert_eq!(c.health_url, "http://127.0.0.1:18789/health");
    assert_eq!(c.sessions_url, "http://127.0.0.1:18789/sessions");
    assert_eq!(c.mode, Mode::Sudo);
    assert_eq!(c.agent_user, "ocagent");
    assert_eq!(c.agent_home, "/home/ocagent");
    assert_eq!(c.openclaw_dir, "/home/ocagent/.openclaw");
    assert_eq!(c.vault_dir, "/var/lib/outerclaw");
    assert_eq!(c.watchdog_user, "outerclaw");
    assert_eq!(c.recovery_cooldown, 1800);
    assert_eq!(c.restart_settle_wait, 90);
    assert_eq!(c.io_pressure_threshold, "25.0");
    assert_eq!(c.cloud_remote, "outerclaw-crypt");
    assert_eq!(c.identity_unlock_timeout, 600);
    assert!(!c.cloud_enabled);
    assert!(!c.tg_is_dedicated);
}

#[test]
fn defaults_of_user_mode() {
    let c = loaded(
        &[("OUTERCLAW_MODE", "User"), ("USER", "me"), ("HOME", "/home/me")],
        "",
        None,
    )
    .unwrap();
    assert_eq!(c.mode, Mode::User);
    assert_eq!(c.agent_user, "me");
    assert_eq!(c.watchdog_user, "me");
    assert_eq!(c.agent_home, "/home/me");
    assert_eq!(c.openclaw_dir, "/home/me/.openclaw");
    assert_eq!(c.vault_dir, "/home/me/.local/share/outerclaw");
    let d = loaded(&[("OUTERCLAW_MODE", "user")], "", None).unwrap();
    assert_eq!(d.agent_user, "outerclaw");
    assert_eq!(d.agent_home, "/tmp");
}

#[test]
fn the_environment_overrides_the_env_file() {
    let file = "GATEWAY_PORT=1000\nAGENT_USER=bob\nHANG_WARN_SECS=7\nCLOUD_ENABLED=true\n";
    let c = loaded(&[("GATEWAY_PORT", "2000")], file, None).unwrap();
    assert_eq!(c.gateway_port, 2000);
    assert_eq!(c.agent_user, "bob");
    assert_eq!(c.agent_home, "/home/bob");
    assert_eq!(c.hang_warn_secs, 7);
    assert!(c.cloud_enabled);
}

#[test]
fn bad_numbers_fall_back_but_the_port_is_refused() {
    let c = loaded(&[("COLLECT_INTERVAL", "abc"), ("MAX_VAULT_MB", "+12")], "", None).unwrap();
    assert_eq!(c.collect_interval, 30);
    assert_eq!(c.max_vault_mb, 12);
    for bad in ["", "x", "-1", "65536", "1 ", "+"] {
        assert_eq!(
            loaded(&[("GATEWAY_PORT", bad)], "", None).unwrap_err(),
            "Invalid GATEWAY_PORT"
        );
    }
    assert_eq!(
        loaded(&[("GATEWAY_PORT", "0")], "", None).unwrap_err(),
        "GATEWAY_PORT must be > 0"
    );
}

#[test]
fn telegram_credentials_fall_back_to_openclaw() {
    let json = "{\"channels\":{\"telegram\":{\"botToken\":\"9:zz\",\"allowFrom\":[77,\"x\"]}}}";
    assert_eq!(
        load_tg_from_openclaw(json),
        Some(("9:zz".to_string(), "77".to_string()))
    );
    assert_eq!(
        load_tg_from_openclaw(&json.replace("77", "\"88\"")),
        Some(("9:zz".to_string(), "88".to_string()))
    );
    for bad in [
        "",
        "not json",
        "[]",
        "{\"channels\":{}}",
        "{\"channels\":{\"telegram\":{\"botToken\":\"9:zz\",\"allowFrom\":[]}}}",
        "{\"channels\":{\"telegram\":{\"botToken\":\"\",\"allowFrom\":[1]}}}",
        "{\"channels\":{\"telegram\":{\"botToken\":5,\"allowFrom\":[1]}}}",
        "{\"channels\":{\"telegram\":{\"botToken\":\"9:zz\",\"allowFrom\":[\"\"]}}}",
    ] {
        assert_eq!(load_tg_from_openclaw(bad), None);
    }
    let c = loaded(&[], "", Some(json)).unwrap();
    assert_eq!((c.tg_token.as_str(), c.tg_chat.as_str()), ("9:zz", "77"));
    assert!(!c.tg_is_dedicated);
    let d = loaded(&[("OUTERCLAW_TG_TOKEN", "1:own")], "", Some(json)).unwrap();
    assert_eq!((d.tg_token.as_str(), d.tg_chat.as_str()), ("1:own", "77"));
    assert!(!d.tg_is_dedicated);
    let e = loaded(
        &[("OUTERCLAW_TG_TOKEN", "1:own"), ("OUTERCLAW_TG_CHAT", "5")],
        "",
        Some(json),
    )
    .unwrap();
    assert_eq!((e.tg_token.as_str(), e.tg_chat.as_str()), ("1:own", "5"));
    assert!(e.tg_is_dedicated);
    let f = loaded(&[("OUTERCLAW_TG_TOKEN", "bad token")], "", None).unwrap();
    assert_eq!(f.tg_token, "");
}
