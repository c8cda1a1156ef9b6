//! Runit run script templates for OuterClaw setup.
//!
//! Runit service directories are typically at `/etc/sv/<service>/` with a
//! `run` executable script inside. Services are enabled by symlinking to
//! `/var/service/` (or `/service/`).

use crate::setup::template::{fill, filled, marks};
use vstd::prelude::*;

verus! {

/// The binary.
pub const BIN: &'static str = "/var/lib/outerclaw/bin/outerclaw";

/// The env file.
pub const ENV_FILE: &'static str = "/var/lib/outerclaw/config/outerclaw.env";

/// The vault.
pub const VAULT: &'static str = "/var/lib/outerclaw";

/// What `outerclaw_run` generates, with marks for the places.
pub const OUTERCLAW_RUN: &'static str = r#"#!/bin/sh
# OuterClaw watchdog daemon — runit run script
# Installed to /etc/sv/oc-outerclaw/run
exec 2>&1

# Load environment variables safely (no source/eval)
if [ -f "<<env_file>>" ]; then
    while IFS='=' read -r key value; do
        case "$key" in
            \#*|"") continue ;;
            *) export "$key=$value" ;;
        esac
    done < "<<env_file>>"
fi

cd <<vault>>
exec chpst -u outerclaw:outerclaw <<bin>> daemon
"#;

/// Generate the runit `run` script for the OuterClaw watchdog daemon.
///
/// Runs as the `outerclaw` user via `chpst`. Runit automatically restarts
/// the service if it exits.
pub fn outerclaw_run() -> (r: String)
    ensures
        r@ == script(OUTERCLAW_RUN@),
{
    fill_script(OUTERCLAW_RUN)
}

/// What `outerclaw_log_run` generates, with marks for the places.
pub const OUTERCLAW_LOG_RUN: &'static str = r#"#!/bin/sh
# OuterClaw daemon log — runit log/run script
exec svlogd -tt <<vault>>/audit/runit-daemon/
"#;

/// Generate the runit `log/run` script for the OuterClaw daemon.
///
/// Uses `svlogd` to capture stdout/stderr to a dedicated log directory.
pub fn outerclaw_log_run() -> (r: String)
    ensures
        r@ == script(OUTERCLAW_LOG_RUN@),
{
    fill_script(OUTERCLAW_LOG_RUN)
}

/// What `snapshot_run` generates, with marks for the places.
pub const SNAPSHOT_RUN: &'static str = r#"#!/bin/sh
# OuterClaw snapshot runner — runit run script
# Runs every 30 minutes (1800 seconds)
exec 2>&1

# Load environment variables safely
if [ -f "<<env_file>>" ]; then
    while IFS='=' read -r key value; do
        case "$key" in
            \#*|"") continue ;;
            *) export "$key=$value" ;;
        esac
    done < "<<env_file>>"
fi

cd <<vault>>

# Run snapshot, then sleep for 30 minutes
chpst -u outerclaw:outerclaw <<bin>> snapshot --sqlite-only
chpst -u outerclaw:outerclaw <<bin>> snapshot --files-only

# Sleep until next interval — runit will restart this script after it exits
exec sleep 1800
"#;

/// Generate the runit `run` script for the snapshot service.
///
/// Since runit doesn't have native timers, this script sleeps for 30 minutes
/// between runs. The `pause` approach (sleep + exec) provides a simple
/// periodic trigger without requiring cron.
pub fn snapshot_run() -> (r: String)
    ensures
        r@ == script(SNAPSHOT_RUN@),
{
    fill_script(SNAPSHOT_RUN)
}

/// What `healthcheck_run` generates, with marks for the places.
pub const HEALTHCHECK_RUN: &'static str = r#"#!/bin/sh
# OuterClaw health check runner — runit run script
# Runs every 2 minutes (120 seconds)
exec 2>&1

# Load environment variables safely
if [ -f "<<env_file>>" ]; then
    while IFS='=' read -r key value; do
        case "$key" in
            \#*|"") continue ;;
            *) export "$key=$value" ;;
        esac
    done < "<<env_file>>"
fi

cd <<vault>>
chpst -u outerclaw:outerclaw <<bin>> healthcheck
exec sleep 120
"#;

/// Generate the runit `run` script for the health check service.
///
/// Runs every 2 minutes (120 seconds).
pub fn healthcheck_run() -> (r: String)
    ensures
        r@ == script(HEALTHCHECK_RUN@),
{
    fill_script(HEALTHCHECK_RUN)
}

/// What `lkg_promote_run` generates, with marks for the places.
pub const LKG_PROMOTE_RUN: &'static str = r#"#!/bin/sh
# OuterClaw LKG promotion runner — runit run script
# Runs every 2 hours (7200 seconds)
exec 2>&1

# Load environment variables safely
if [ -f "<<env_file>>" ]; then
    while IFS='=' read -r key value; do
        case "$key" in
            \#*|"") continue ;;
            *) export "$key=$value" ;;
        esac
    done < "<<env_file>>"
fi

cd <<vault>>
chpst -u outerclaw:outerclaw <<bin>> promote-lkg
exec sleep 7200
"#;

/// Generate the runit `run` script for the LKG promotion service.
///
/// Runs every 2 hours (7200 seconds).
pub fn lkg_promote_run() -> (r: String)
    ensures
        r@ == script(LKG_PROMOTE_RUN@),
{
    fill_script(LKG_PROMOTE_RUN)
}

/// The text of a template in which the binary, the vault and the env file are
/// filled in.
pub open spec fn script(t: Seq<char>) -> Seq<char> {
    filled(t, seq![("<<bin>>"@, BIN@), ("<<env_file>>"@, ENV_FILE@), ("<<vault>>"@, VAULT@)])
}

/// The template with the binary, the vault and the env file filled in.
fn fill_script(t: &str) -> (r: String)
    ensures
        r@ == script(t@),
{
    let m = vec![("<<bin>>", BIN), ("<<env_file>>", ENV_FILE), ("<<vault>>", VAULT)];
    assert(marks(m@) =~= seq![
        ("<<bin>>"@, BIN@),
        ("<<env_file>>"@, ENV_FILE@),
        ("<<vault>>"@, VAULT@),
    ]);
    fill(t, m)
}

/// The names of the services managed by OuterClaw.
pub const SERVICE_NAMES: [&'static str; 4] = [
    "oc-outerclaw",
    "oc-snapshot",
    "oc-healthcheck",
    "oc-lkg-promote",
];

/// A runit service definition with its directory structure.
pub struct RunitService {
    /// Service name (directory name under /etc/sv/).
    pub name: &'static str,
    /// Content of the `run` script.
    pub run_script: String,
    /// Optional content of the `log/run` script.
    pub log_run_script: Option<String>,
}

impl RunitService {
    /// What the service is called, and what its scripts hold.
    pub open spec fn defines(self, name: Seq<char>, run: Seq<char>, log: Option<Seq<char>>) -> bool {
        &&& self.name@ == name
        &&& self.run_script@ == run
        &&& match self.log_run_script {
            Some(l) => log == Some(l@),
            None => log is None,
        }
    }
}

/// Return all OuterClaw runit service definitions.
pub fn all_services() -> (r: Vec<RunitService>)
    ensures
        r@.len() == 4,
        r@[0].defines("oc-outerclaw"@, script(OUTERCLAW_RUN@), Some(script(OUTERCLAW_LOG_RUN@))),
        r@[1].defines("oc-snapshot"@, script(SNAPSHOT_RUN@), None),
        r@[2].defines("oc-healthcheck"@, script(HEALTHCHECK_RUN@), None),
        r@[3].defines("oc-lkg-promote"@, script(LKG_PROMOTE_RUN@), None),
{
    vec![
        RunitService {
            name: "oc-outerclaw",
            run_script: outerclaw_run(),
            log_run_script: Some(outerclaw_log_run()),
        },
        RunitService { name: "oc-snapshot", run_script: snapshot_run(), log_run_script: None },
        RunitService {
            name: "oc-healthcheck",
            run_script: healthcheck_run(),
            log_run_script: None,
        },
        RunitService {
            name: "oc-lkg-promote",
            run_script: lkg_promote_run(),
            log_run_script: None,
        },
    ]
}

/// A definition has one name and one script, and at most one for its log.
pub proof fn law_definition_holds_its_scripts(
    s: RunitService,
    name: Seq<char>,
    run: Seq<char>,
    log: Option<Seq<char>>,
)
    requires
        s.defines(name, run, log),
    ensures
        s.name@ == name,
        s.run_script@ == run,
        s.log_run_script is Some <==> log is Some,
        s.log_run_script is Some ==> log == Some((s.log_run_script->0)@),
{
}

} // verus!
