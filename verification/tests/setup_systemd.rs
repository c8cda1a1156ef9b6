use outerclaw::config::{Config, EnvMap};
use outerclaw::setup::systemd::{
    cloud_sync_service, gateway_service, healthcheck_service, identity_lock_service,
    identity_unlock_service, lkg_promote_service, logrotate_config, outerclaw_service,
    snapshot_service, sudoers_config, CORE_TIMERS, SERVICE_UNITS, TIMER_UNITS,
};

fn test_cfg() -> Config {
    Config::load(&EnvMap::new(), &EnvMap::new(), None).unwrap()
}

#[test]
fn test_outerclaw_service_contains_binary_path() {
    let content = outerclaw_service(&test_cfg());
    assert!(content.contains("/var/lib/outerclaw/bin/outerclaw daemon"));
    assert!(content.contains("Type=notify"));
    assert!(content.contains("WatchdogSec=120"));
    assert!(content.contains("OOMScoreAdjust=-500"));
    assert!(content.contains("MemoryMax=256M"));
    assert!(content.contains("ProtectSystem=strict"));
    assert!(content.contains("User=outerclaw"));
    assert!(content.contains("ReadWritePaths=/var/lib/outerclaw"));
}

#[test]
fn test_gateway_service_uses_agent_user() {
    let mut cfg = test_cfg();
    cfg.agent_user = "testuser".into();
    cfg.agent_home = "/home/testuser".into();
    cfg.openclaw_dir = "/home/testuser/.openclaw".into();
    let content = gateway_service(&cfg);
    assert!(content.contains("User=testuser"));
    assert!(content.contains("Group=testuser"));
    assert!(content.contains("pre-start-check"));
    assert!(content.contains("/var/lib/outerclaw/bin/outerclaw"));
    assert!(content.contains("WorkingDirectory=/home/testuser"));
}

#[test]
fn test_snapshot_service_uses_binary() {
    let content = snapshot_service(&test_cfg());
    assert!(content.contains("/var/lib/outerclaw/bin/outerclaw snapshot --sqlite-only"));
    assert!(content.contains("/var/lib/outerclaw/bin/outerclaw snapshot --files-only"));
    assert!(content.contains("u:outerclaw:rx,m::rx"));
}

#[test]
fn test_sudoers_uses_binary_for_auto_recover() {
    let content = sudoers_config(&test_cfg());
    assert!(content.contains("/var/lib/outerclaw/bin/outerclaw auto-recover"));
    assert!(content.contains("outerclaw ALL=(root)"));
    assert!(!content.contains("auto-recover.sh"));
}

#[test]
fn test_identity_services_use_binary() {
    let lock = identity_lock_service(&test_cfg());
    let unlock = identity_unlock_service(&test_cfg());
    assert!(lock.contains("/var/lib/outerclaw/bin/outerclaw identity lock"));
    assert!(unlock.contains("/var/lib/outerclaw/bin/outerclaw identity unlock"));
}

#[test]
fn test_healthcheck_service_uses_binary() {
    let content = healthcheck_service(&test_cfg());
    assert!(content.contains("/var/lib/outerclaw/bin/outerclaw healthcheck"));
}

#[test]
fn test_lkg_promote_service_uses_binary() {
    let content = lkg_promote_service(&test_cfg());
    assert!(content.contains("/var/lib/outerclaw/bin/outerclaw promote-lkg"));
}

#[test]
fn test_cloud_sync_service_uses_binary() {
    let content = cloud_sync_service(&test_cfg());
    assert!(content.contains("/var/lib/outerclaw/bin/outerclaw cloud sync"));
    assert!(content.contains("RCLONE_CONFIG=/var/lib/outerclaw/config/rclone.conf"));
}

#[test]
fn test_logrotate_config_content() {
    let content = logrotate_config(&test_cfg());
    assert!(content.contains("/var/lib/outerclaw/audit/*.log"));
    assert!(content.contains("daily"));
    assert!(content.contains("rotate 30"));
    assert!(content.contains("create 0600 outerclaw outerclaw"));
}

#[test]
fn test_template_respects_custom_vault() {
    let mut cfg = test_cfg();
    cfg.vault_dir = "/opt/elsewhere".into();
    let content = outerclaw_service(&cfg);
    assert!(content.contains("/opt/elsewhere/bin/outerclaw daemon"));
    assert!(content.contains("ReadWritePaths=/opt/elsewhere"));
    assert!(!content.contains("/var/lib/outerclaw"));
}

#[test]
fn test_template_respects_custom_watchdog_user() {
    let mut cfg = test_cfg();
    cfg.watchdog_user = "guardian".into();
    let content = outerclaw_service(&cfg);
    assert!(content.contains("User=guardian"));
    let sudoers = sudoers_config(&cfg);
    assert!(sudoers.contains("guardian ALL=(root)"));
}

#[test]
fn test_all_units_listed() {
    assert_eq!(TIMER_UNITS.len(), 4);
    assert_eq!(SERVICE_UNITS.len(), 7);
    assert_eq!(CORE_TIMERS.len(), 3);
}
