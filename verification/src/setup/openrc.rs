//! OpenRC init script templates for OuterClaw setup.
//!
//! Scripts are installed to `/etc/init.d/` and managed via `rc-update` and
//! `rc-service`.

use crate::setup::template::{fill, filled, marks};
use vstd::prelude::*;

verus! {

/// The binary.
pub const BIN: &'static str = "/var/lib/outerclaw/bin/outerclaw";

/// The env file.
pub const ENV_FILE: &'static str = "/var/lib/outerclaw/config/outerclaw.env";

/// The vault.
pub const VAULT: &'static str = "/var/lib/outerclaw";

/// What `outerclaw_initd` generates, with marks for the places.
pub const OUTERCLAW_INITD: &'static str = r#"#!/sbin/openrc-run
# OuterClaw watchdog daemon — OpenRC init script
# Installed to /etc/init.d/oc-outerclaw

name="OuterClaw Sentry"
description="OuterClaw watchdog daemon for OpenClaw"

command="<<bin>>"
command_args="daemon"
command_user="outerclaw:outerclaw"
command_background="yes"
pidfile="/run/oc-outerclaw.pid"
directory="<<vault>>"

# Read environment variables
start_pre() {
    if [ -f "<<env_file>>" ]; then
        while IFS='=' read -r key value; do
            case "$key" in
                \#*|"") continue ;;
                *) export "$key=$value" ;;
            esac
        done < "<<env_file>>"
    fi
    checkpath --directory --owner outerclaw:outerclaw --mode 0700 <<vault>>
    return 0
}

# Restart policy
respawn="yes"
respawn_delay=10
respawn_max=10
respawn_period=600

# Resource limits
rc_ulimit="-n 1024"

depend() {
    need net
    after openclaw-gateway
    use logger
}
"#;

/// Generate the OpenRC init script for the OuterClaw watchdog daemon.
///
/// Runs as the `outerclaw` user with `start-stop-daemon`. The daemon
/// is supervised by OpenRC and automatically restarted on failure.
pub fn outerclaw_initd() -> (r: String)
    ensures
        r@ == script(OUTERCLAW_INITD@),
{
    fill_script(OUTERCLAW_INITD)
}

/// What `snapshot_initd` generates, with marks for the places.
pub const SNAPSHOT_INITD: &'static str = r#"#!/sbin/openrc-run
# OuterClaw snapshot runner — OpenRC init script
# Run periodically (every 30 min) via cron or manual trigger.

name="OuterClaw Snapshot"
description="OuterClaw SQLite and file snapshot runner"

command="<<bin>>"
command_args="snapshot"
command_user="outerclaw:outerclaw"

# Oneshot — runs and exits
start() {
    if [ -f "<<env_file>>" ]; then
        while IFS='=' read -r key value; do
            case "$key" in
                \#*|"") continue ;;
                *) export "$key=$value" ;;
            esac
        done < "<<env_file>>"
    fi

    ebegin "Running OuterClaw snapshot"
    start-stop-daemon --start \
        --user outerclaw --group outerclaw \
        --exec <<bin>> -- snapshot --sqlite-only
    start-stop-daemon --start \
        --user outerclaw --group outerclaw \
        --exec <<bin>> -- snapshot --files-only
    eend $?
}

stop() {
    # Oneshot — nothing to stop
    return 0
}
"#;

/// Generate the OpenRC init script for snapshots.
///
/// Since OpenRC doesn't have a native timer mechanism, this creates a
/// "cron-like" wrapper. The recommended approach is to pair this with
/// a crontab entry or use `crond` to trigger the service.
pub fn snapshot_initd() -> (r: String)
    ensures
        r@ == script(SNAPSHOT_INITD@),
{
    fill_script(SNAPSHOT_INITD)
}

/// What `healthcheck_initd` generates, with marks for the places.
pub const HEALTHCHECK_INITD: &'static str = r#"#!/sbin/openrc-run
# OuterClaw health check runner — OpenRC init script
# Run periodically (every 2 min) via cron or manual trigger.

name="OuterClaw Health Check"
description="OpenClaw gateway health check"

command="<<bin>>"
command_args="healthcheck"
command_user="outerclaw:outerclaw"

start() {
    if [ -f "<<env_file>>" ]; then
        while IFS='=' read -r key value; do
            case "$key" in
                \#*|"") continue ;;
                *) export "$key=$value" ;;
            esac
        done < "<<env_file>>"
    fi

    ebegin "Running OpenClaw health check"
    start-stop-daemon --start \
        --user outerclaw --group outerclaw \
        --exec <<bin>> -- healthcheck
    eend $?
}

stop() {
    return 0
}
"#;

/// Generate the OpenRC init script for health checks.
pub fn healthcheck_initd() -> (r: String)
    ensures
        r@ == script(HEALTHCHECK_INITD@),
{
    fill_script(HEALTHCHECK_INITD)
}

/// What `lkg_promote_initd` generates, with marks for the places.
pub const LKG_PROMOTE_INITD: &'static str = r#"#!/sbin/openrc-run
# OuterClaw LKG promotion runner — OpenRC init script
# Run periodically (every 2 hours) via cron or manual trigger.

name="OuterClaw LKG Promotion"
description="Promote latest snapshot to Last Known Good state"

command="<<bin>>"
command_args="promote-lkg"
command_user="outerclaw:outerclaw"

start() {
    if [ -f "<<env_file>>" ]; then
        while IFS='=' read -r key value; do
            case "$key" in
                \#*|"") continue ;;
                *) export "$key=$value" ;;
            esac
        done < "<<env_file>>"
    fi

    ebegin "Running LKG promotion"
    start-stop-daemon --start \
        --user outerclaw --group outerclaw \
        --exec <<bin>> -- promote-lkg
    eend $?
}

stop() {
    return 0
}

depend() {
    after oc-snapshot
}
"#;

/// Generate the OpenRC init script for LKG promotion.
pub fn lkg_promote_initd() -> (r: String)
    ensures
        r@ == script(LKG_PROMOTE_INITD@),
{
    fill_script(LKG_PROMOTE_INITD)
}

/// What `crontab_entries` generates, with marks for the places.
pub const CRONTAB_ENTRIES: &'static str = r#"# OuterClaw periodic tasks — install to /etc/cron.d/outerclaw
# Snapshot every 30 minutes
*/30 * * * * outerclaw <<bin>> snapshot --sqlite-only && <<bin>> snapshot --files-only
# Health check every 2 minutes
*/2 * * * * outerclaw <<bin>> healthcheck
# LKG promotion every 2 hours
0 */2 * * * outerclaw <<bin>> promote-lkg
"#;

/// Generate crontab entries for periodic OuterClaw tasks.
///
/// OpenRC doesn't have native timers, so we use cron for scheduling.
/// This should be installed via `crontab -u outerclaw -` or written to
/// `/etc/cron.d/outerclaw`.
pub fn crontab_entries() -> (r: String)
    ensures
        r@ == script(CRONTAB_ENTRIES@),
{
    fill_script(CRONTAB_ENTRIES)
}

/// The text of a template in which the binary, the vault and the env file are
/// filled in.
pub open spec fn script(t: Seq<char>) -> Seq<char> {
    filled(t, seq![("<<bin>>"@, BIN@), ("<<env_file>>"@, ENV_FILE@), ("<<vault>>"@, VAULT@)])
}

/// The template with the binary, the vault and the env file filled in.
fn fill_script(t: &str) -> (r: String)
    ensures
        r@ == script(t@),
{
    let m = vec![("<<bin>>", BIN), ("<<env_file>>", ENV_FILE), ("<<vault>>", VAULT)];
    assert(marks(m@) =~= seq![
        ("<<bin>>"@, BIN@),
        ("<<env_file>>"@, ENV_FILE@),
        ("<<vault>>"@, VAULT@),
    ]);
    fill(t, m)
}

/// The names of the services managed by OuterClaw.
pub const SERVICE_NAMES: [&'static str; 4] = [
    "oc-outerclaw",
    "oc-snapshot",
    "oc-healthcheck",
    "oc-lkg-promote",
];

/// Return (service_name, script_content) pairs for all OuterClaw init scripts.
pub fn all_initd_scripts() -> (r: Vec<(&'static str, String)>)
    ensures
        r@.len() == 4,
        r@[0].0@ == "oc-outerclaw"@ && r@[0].1@ == script(OUTERCLAW_INITD@),
        r@[1].0@ == "oc-snapshot"@ && r@[1].1@ == script(SNAPSHOT_INITD@),
        r@[2].0@ == "oc-healthcheck"@ && r@[2].1@ == script(HEALTHCHECK_INITD@),
        r@[3].0@ == "oc-lkg-promote"@ && r@[3].1@ == script(LKG_PROMOTE_INITD@),
{
    vec![
        ("oc-outerclaw", outerclaw_initd()),
        ("oc-snapshot", snapshot_initd()),
        ("oc-healthcheck", healthcheck_initd()),
        ("oc-lkg-promote", lkg_promote_initd()),
    ]
}

} // verus!
