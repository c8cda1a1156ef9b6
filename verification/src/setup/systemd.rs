//! Systemd unit file templates and config generators for OuterClaw setup.
//!
//! All unit-generator functions accept `&Config` so paths/users derive from the
//! deployment's actual layout instead of compile-time constants. This is what
//! makes the templates mode-agnostic.

use crate::config::Config;
use crate::setup::template::{fill, filled, marks};
use crate::util::path::joined_path;
use vstd::prelude::*;

verus! {

/// What is filled into the templates for a deployment.
pub open spec fn unit_marks(cfg: Config) -> Seq<(Seq<char>, Seq<char>)> {
    let vault = cfg.vault_dir@;
    seq![
        ("<<bin>>"@, joined_path(joined_path(vault, "bin"@), "outerclaw"@)),
        ("<<env_file>>"@, joined_path(joined_path(vault, "config"@), "outerclaw.env"@)),
        ("<<rclone_conf>>"@, joined_path(joined_path(vault, "config"@), "rclone.conf"@)),
        ("<<audit>>"@, joined_path(vault, "audit"@)),
        ("<<vault>>"@, vault),
        ("<<user>>"@, cfg.watchdog_user@),
        ("<<agent_user>>"@, cfg.agent_user@),
        ("<<agent_home>>"@, cfg.agent_home@),
        ("<<openclaw_dir>>"@, cfg.openclaw_dir@),
    ]
}

/// The text of a template, filled in for a deployment.
pub open spec fn unit(t: Seq<char>, cfg: Config) -> Seq<char> {
    filled(t, unit_marks(cfg))
}

/// The text of a template, filled in for a deployment.
fn fill_unit(t: &str, cfg: &Config) -> (r: String)
    ensures
        r@ == unit(t@, *cfg),
{
    let bin = cfg.bin_path();
    let env_file = cfg.env_file_path();
    let rclone_conf = cfg.rclone_config_path();
    let audit = cfg.audit_dir();
    let m = vec![
        ("<<bin>>", bin.as_str()),
        ("<<env_file>>", env_file.as_str()),
        ("<<rclone_conf>>", rclone_conf.as_str()),
        ("<<audit>>", audit.as_str()),
        ("<<vault>>", cfg.vault_dir.as_str()),
        ("<<user>>", cfg.watchdog_user.as_str()),
        ("<<agent_user>>", cfg.agent_user.as_str()),
        ("<<agent_home>>", cfg.agent_home.as_str()),
        ("<<openclaw_dir>>", cfg.openclaw_dir.as_str()),
    ];
    assert(marks(m@) =~= unit_marks(*cfg));
    fill(t, m)
}

/// The main watchdog daemon. With marks for the places.
pub const OUTERCLAW_SERVICE: &'static str = r#"# /etc/systemd/system/oc-outerclaw.service
# OuterClaw daemon — runs as watchdog user
[Unit]
Description=OuterClaw Sentry
After=openclaw-gateway.service
Wants=openclaw-gateway.service
StartLimitIntervalSec=600
StartLimitBurst=10

[Service]
Type=notify
User=<<user>>
Group=<<user>>
WorkingDirectory=<<vault>>

ExecStart=<<bin>> daemon
Restart=always
RestartSec=10

# Watchdog: systemd kills OuterClaw if it stops reporting within 120s
WatchdogSec=120

# Self-protection: make OuterClaw hard to OOM-kill
OOMScoreAdjust=-500
OOMPolicy=continue

# Lightweight — strict limits
MemoryMax=256M
MemoryHigh=192M
CPUQuota=10%
TasksMax=32

# Security hardening
NoNewPrivileges=no
PrivateTmp=yes
ProtectSystem=strict
ProtectHome=read-only
ProtectKernelTunables=yes
ProtectKernelModules=yes
ProtectControlGroups=yes
RestrictRealtime=yes
RestrictSUIDSGID=yes
RestrictNamespaces=yes
LockPersonality=yes
SystemCallFilter=@system-service
SystemCallErrorNumber=EPERM
ReadWritePaths=<<vault>>

# Config
EnvironmentFile=<<env_file>>

[Install]
WantedBy=multi-user.target
"#;

/// The main watchdog daemon.
pub fn outerclaw_service(cfg: &Config) -> (r: String)
    ensures
        r@ == unit(OUTERCLAW_SERVICE@, *cfg),
{
    fill_unit(OUTERCLAW_SERVICE, cfg)
}

/// The OpenClaw gateway. With marks for the places.
pub const GATEWAY_SERVICE: &'static str = r#"# /etc/systemd/system/openclaw-gateway.service
# SYSTEM-level service (root-managed). Agent cannot modify or stop this.
[Unit]
Description=OpenClaw Gateway
After=network-online.target
Wants=network-online.target
StartLimitIntervalSec=300
StartLimitBurst=5

[Service]
Type=simple
User=<<agent_user>>
Group=<<agent_user>>
WorkingDirectory=<<agent_home>>

# Validate data integrity before starting
ExecStartPre=<<bin>> pre-start-check

# Gateway start wrapper (auto-generated)
ExecStart=<<vault>>/bin/start-gateway.sh

# Restart policy
Restart=always
RestartSec=5

# Resource containment
MemoryMax=8G
MemoryHigh=6G
CPUQuota=400%
TasksMax=512

# OOM handling
OOMScoreAdjust=100
OOMPolicy=stop

# Post-crash forensics (runs as root for /proc access)
ExecStopPost=+<<bin>> postmortem openclaw-gateway

# Security hardening
NoNewPrivileges=yes
PrivateTmp=yes

# Environment
Environment=HOME=<<agent_home>>
Environment="PATH=/usr/local/bin:/usr/bin:/bin"
Environment=OPENCLAW_GATEWAY_PORT=18789
EnvironmentFile=-<<openclaw_dir>>/.env
Environment="OPENCLAW_SYSTEMD_UNIT=openclaw-gateway.service"
Environment=OPENCLAW_SERVICE_MARKER=openclaw
Environment=OPENCLAW_SERVICE_KIND=gateway

[Install]
WantedBy=multi-user.target
"#;

/// The OpenClaw gateway.
pub fn gateway_service(cfg: &Config) -> (r: String)
    ensures
        r@ == unit(GATEWAY_SERVICE@, *cfg),
{
    fill_unit(GATEWAY_SERVICE, cfg)
}

/// The timer of the snapshots.
pub const SNAPSHOT_TIMER: &'static str = r#"# /etc/systemd/system/oc-snapshot.timer
[Unit]
Description=OuterClaw Snapshot (every 30 min)

[Timer]
OnBootSec=120
OnUnitActiveSec=1800
AccuracySec=30
Persistent=true

[Install]
WantedBy=timers.target
"#;

/// The timer of the snapshots.
pub fn snapshot_timer() -> (r: &'static str)
    ensures
        r@ == SNAPSHOT_TIMER@,
{
    SNAPSHOT_TIMER
}

/// The snapshot runner. With marks for the places.
pub const SNAPSHOT_SERVICE: &'static str = r#"# /etc/systemd/system/oc-snapshot.service
[Unit]
Description=OuterClaw Snapshot Runner

[Service]
Type=oneshot
User=<<user>>
Group=<<user>>

# Defend against ACL mask drift before each snapshot. POSIX ACL masks
# get recomputed when group bits change (e.g. chmod g-rwx by the agent
# user or its package manager), which collapses the watchdog's effective
# read permission to ---. Re-applying with explicit m::rx is idempotent.
ExecStartPre=+/bin/bash -c 'D=$(grep "^OPENCLAW_DIR=" <<env_file>> 2>/dev/null | cut -d= -f2); D="${D:-<<openclaw_dir>>}"; for P in "$D" "$D/memory" "$D/tasks" "$D/workspace" "$D/logs"; do [ -d "$P" ] && setfacl -m u:<<user>>:rx,m::rx "$P" 2>/dev/null; done; shopt -s nullglob; for F in "$D/memory/main.sqlite"* "$D/tasks/runs.sqlite"* "$D/openclaw.json" "$D/exec-approvals.json"; do [ -f "$F" ] && setfacl -m u:<<user>>:r,m::r "$F" 2>/dev/null; done; true'

ExecStart=<<bin>> snapshot --sqlite-only
ExecStart=<<bin>> snapshot --files-only

MemoryMax=512M
IOWeight=50
Nice=15
"#;

/// The snapshot runner.
pub fn snapshot_service(cfg: &Config) -> (r: String)
    ensures
        r@ == unit(SNAPSHOT_SERVICE@, *cfg),
{
    fill_unit(SNAPSHOT_SERVICE, cfg)
}

/// The timer of the health checks.
pub const HEALTHCHECK_TIMER: &'static str = r#"# /etc/systemd/system/oc-healthcheck.timer
[Unit]
Description=OpenClaw Health Check (every 2 min)

[Timer]
OnBootSec=60
OnUnitActiveSec=120
AccuracySec=10

[Install]
WantedBy=timers.target
"#;

/// The timer of the health checks.
pub fn healthcheck_timer() -> (r: &'static str)
    ensures
        r@ == HEALTHCHECK_TIMER@,
{
    HEALTHCHECK_TIMER
}

/// The health check runner. With marks for the places.
pub const HEALTHCHECK_SERVICE: &'static str = r#"# /etc/systemd/system/oc-healthcheck.service
[Unit]
Description=OpenClaw Health Check Runner

[Service]
Type=oneshot
User=<<user>>
Group=<<user>>
ExecStart=<<bin>> healthcheck
"#;

/// The health check runner.
pub fn healthcheck_service(cfg: &Config) -> (r: String)
    ensures
        r@ == unit(HEALTHCHECK_SERVICE@, *cfg),
{
    fill_unit(HEALTHCHECK_SERVICE, cfg)
}

/// The timer of the LKG promotion.
pub const LKG_PROMOTE_TIMER: &'static str = r#"# /etc/systemd/system/oc-lkg-promote.timer
[Unit]
Description=OpenClaw LKG Promotion Timer

[Timer]
OnBootSec=3600
OnUnitActiveSec=7200
AccuracySec=60
Persistent=true

[Install]
WantedBy=timers.target
"#;

/// The timer of the LKG promotion.
pub fn lkg_promote_timer() -> (r: &'static str)
    ensures
        r@ == LKG_PROMOTE_TIMER@,
{
    LKG_PROMOTE_TIMER
}

/// The LKG promotion. With marks for the places.
pub const LKG_PROMOTE_SERVICE: &'static str = r#"# /etc/systemd/system/oc-lkg-promote.service
[Unit]
Description=OpenClaw LKG Promotion
After=oc-snapshot.service

[Service]
Type=oneshot
User=<<user>>
Group=<<user>>
ExecStart=<<bin>> promote-lkg
MemoryMax=256M
Nice=15
"#;

/// The LKG promotion.
pub fn lkg_promote_service(cfg: &Config) -> (r: String)
    ensures
        r@ == unit(LKG_PROMOTE_SERVICE@, *cfg),
{
    fill_unit(LKG_PROMOTE_SERVICE, cfg)
}

/// The timer of the cloud backup sync.
pub const CLOUD_SYNC_TIMER: &'static str = r#"# /etc/systemd/system/oc-cloud-sync.timer
[Unit]
Description=OuterClaw cloud backup sync timer

[Timer]
OnBootSec=300
OnUnitActiveSec=7200
AccuracySec=60
Persistent=true

[Install]
WantedBy=timers.target
"#;

/// The timer of the cloud backup sync.
pub fn cloud_sync_timer() -> (r: &'static str)
    ensures
        r@ == CLOUD_SYNC_TIMER@,
{
    CLOUD_SYNC_TIMER
}

/// The cloud backup sync. With marks for the places.
pub const CLOUD_SYNC_SERVICE: &'static str = r#"# /etc/systemd/system/oc-cloud-sync.service
[Unit]
Description=OuterClaw cloud backup sync
After=oc-snapshot.service oc-lkg-promote.service

[Service]
Type=oneshot
User=<<user>>
Group=<<user>>
ExecStart=<<bin>> cloud sync
Environment=RCLONE_CONFIG=<<rclone_conf>>

Nice=15
IOWeight=50
MemoryMax=256M
"#;

/// The cloud backup sync.
pub fn cloud_sync_service(cfg: &Config) -> (r: String)
    ensures
        r@ == unit(CLOUD_SYNC_SERVICE@, *cfg),
{
    fill_unit(CLOUD_SYNC_SERVICE, cfg)
}

/// The service that locks the identity files. With marks for the places.
pub const IDENTITY_LOCK_SERVICE: &'static str = r#"# /etc/systemd/system/oc-identity-lock.service
[Unit]
Description=OuterClaw Identity Lock

[Service]
Type=oneshot
ExecStart=<<bin>> identity lock
RemainAfterExit=no
"#;

/// The service that locks the identity files.
pub fn identity_lock_service(cfg: &Config) -> (r: String)
    ensures
        r@ == unit(IDENTITY_LOCK_SERVICE@, *cfg),
{
    fill_unit(IDENTITY_LOCK_SERVICE, cfg)
}

/// The service that unlocks the identity files. With marks for the places.
pub const IDENTITY_UNLOCK_SERVICE: &'static str = r#"# /etc/systemd/system/oc-identity-unlock.service
[Unit]
Description=OuterClaw Identity Unlock

[Service]
Type=oneshot
ExecStart=<<bin>> identity unlock
RemainAfterExit=no
"#;

/// The service that unlocks the identity files.
pub fn identity_unlock_service(cfg: &Config) -> (r: String)
    ensures
        r@ == unit(IDENTITY_UNLOCK_SERVICE@, *cfg),
{
    fill_unit(IDENTITY_UNLOCK_SERVICE, cfg)
}

/// The configuration of logrotate. With marks for the places.
pub const LOGROTATE_CONFIG: &'static str = r#"<<audit>>/*.log {
    daily
    rotate 30
    compress
    delaycompress
    missingok
    notifempty
    create 0600 <<user>> <<user>>
}
"#;

/// The configuration of logrotate.
pub fn logrotate_config(cfg: &Config) -> (r: String)
    ensures
        r@ == unit(LOGROTATE_CONFIG@, *cfg),
{
    fill_unit(LOGROTATE_CONFIG, cfg)
}

/// The privileged operations that the watchdog user may run. With marks for the places.
pub const SUDOERS_CONFIG: &'static str = r#"# OuterClaw: narrowly scoped privileged operations
<<user>> ALL=(root) NOPASSWD: /usr/bin/systemctl restart openclaw-gateway.service
<<user>> ALL=(root) NOPASSWD: /usr/bin/systemctl stop openclaw-gateway.service
<<user>> ALL=(root) NOPASSWD: /usr/bin/systemctl reset-failed openclaw-gateway.service
<<user>> ALL=(root) NOPASSWD: /usr/bin/systemctl kill --signal=SIGKILL openclaw-gateway.service
<<user>> ALL=(root) NOPASSWD: /usr/bin/systemctl start oc-identity-lock.service
<<user>> ALL=(root) NOPASSWD: /usr/bin/systemctl start oc-identity-unlock.service
<<user>> ALL=(root) NOPASSWD: <<bin>> auto-recover
"#;

/// The privileged operations that the watchdog user may run.
pub fn sudoers_config(cfg: &Config) -> (r: String)
    ensures
        r@ == unit(SUDOERS_CONFIG@, *cfg),
{
    fill_unit(SUDOERS_CONFIG, cfg)
}

/// All systemd service unit names managed by OuterClaw.
pub const SERVICE_UNITS: [&'static str; 7] = [
    "oc-outerclaw.service",
    "oc-snapshot.service",
    "oc-healthcheck.service",
    "oc-lkg-promote.service",
    "oc-cloud-sync.service",
    "oc-identity-lock.service",
    "oc-identity-unlock.service",
];

/// All systemd timer unit names managed by OuterClaw.
pub const TIMER_UNITS: [&'static str; 4] = [
    "oc-snapshot.timer",
    "oc-healthcheck.timer",
    "oc-lkg-promote.timer",
    "oc-cloud-sync.timer",
];

/// Core timers that are always enabled (cloud-sync is conditional).
pub const CORE_TIMERS: [&'static str; 3] = [
    "oc-snapshot.timer",
    "oc-healthcheck.timer",
    "oc-lkg-promote.timer",
];

} // verus!
