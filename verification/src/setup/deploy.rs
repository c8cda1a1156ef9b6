//! Idempotent deployment: vault, binary, ACLs, sudoers, units, scripts, timers.

use crate::config::Config;
use crate::platform::command::{command, line, owned, strs, CommandLine, CommandLineView};
use crate::platform::macos::command_views;
use crate::setup::systemd;
use crate::setup::systemd::{
    unit, CLOUD_SYNC_SERVICE, CLOUD_SYNC_TIMER, GATEWAY_SERVICE, HEALTHCHECK_SERVICE,
    HEALTHCHECK_TIMER, IDENTITY_LOCK_SERVICE, IDENTITY_UNLOCK_SERVICE, LKG_PROMOTE_SERVICE,
    LKG_PROMOTE_TIMER, OUTERCLAW_SERVICE, SNAPSHOT_SERVICE, SNAPSHOT_TIMER,
};
use crate::util::path::{join_path, joined_path};
use crate::util::text::{decimal, same, show, views};
use vstd::prelude::*;

verus! {

/// Systemd unit directory.
pub const SYSTEMD_DIR: &'static str = "/etc/systemd/system";

/// What came of a step of the deployment.
#[derive(Debug, Clone, Copy, PartialEq, Eq, Structural)]
pub enum Event {
    /// Whether the watchdog user exists now.
    WatchdogUser(bool),
    /// Whether the agent user exists now, or is not ours to create.
    AgentUser(bool),
    /// Whether the directories of the vault exist now.
    VaultDirs(bool),
    /// Owner and permissions of the vault were set, as far as they could be.
    Permissions,
    /// Whether the binary was copied.
    Binary(bool),
    /// The ACLs were set, as far as they could be.
    Acls,
    /// Whether the sudoers file was written.
    SudoersWritten(bool),
    /// Whether `visudo` accepts it.
    SudoersValid(bool),
    /// Whether a unit was written, and whether it was the last.
    UnitWritten { done: bool, last: bool },
    /// Systemd was reloaded.
    Reloaded,
    /// Whether the openclaw binary was found, and whether a start script of the
    /// gateway is there.
    Openclaw { found: bool, script_there: bool },
    /// The gateway's start script was written, kept, or cannot be generated.
    GatewayScript,
    /// The logrotate configuration was written, if it could be.
    Logrotate,
    /// Whether an env file is there.
    EnvFileThere(bool),
    /// The env file was written, if it could be, or kept.
    EnvFile,
    /// The timers were enabled.
    Timers,
    /// Whether the daemon is running.
    DaemonActive(bool),
    /// The daemon was restarted or left.
    Daemon,
}

/// What to do next.
#[derive(Debug, Clone, Copy, PartialEq, Eq, Structural)]
pub enum Action {
    EnsureWatchdog,
    EnsureAgent,
    MakeVault,
    SetPermissions,
    CopyBinary,
    SetAcls,
    WriteSudoers,
    ValidateSudoers,
    WriteNextUnit,
    Reload,
    FindOpenclaw,
    WriteGatewayScript,
    /// Keep the start script that is there.
    KeepGatewayScript,
    /// Warn that there is no start script and none can be generated.
    WarnNoGatewayScript,
    WriteLogrotate,
    LookForEnvFile,
    WriteEnvFile,
    /// Keep the env file that is there.
    KeepEnvFile,
    EnableTimers,
    CheckDaemon,
    RestartDaemon,
    /// Leave the daemon, which is not running.
    LeaveDaemon,
    Finish,
    /// Give up; remove the sudoers file where so told.
    Fail { remove_sudoers: bool },
}

/// What follows from an event.
pub open spec fn step(e: Event) -> Action {
    match e {
        Event::WatchdogUser(true) => Action::EnsureAgent,
        Event::AgentUser(true) => Action::MakeVault,
        Event::VaultDirs(true) => Action::SetPermissions,
        Event::Permissions => Action::CopyBinary,
        Event::Binary(true) => Action::SetAcls,
        Event::Acls => Action::WriteSudoers,
        Event::SudoersWritten(true) => Action::ValidateSudoers,
        Event::SudoersValid(true) => Action::WriteNextUnit,
        Event::SudoersValid(false) => Action::Fail { remove_sudoers: true },
        Event::UnitWritten { done: true, last: false } => Action::WriteNextUnit,
        Event::UnitWritten { done: true, last: true } => Action::Reload,
        Event::Reloaded => Action::FindOpenclaw,
        Event::Openclaw { found: true, .. } => Action::WriteGatewayScript,
        Event::Openclaw { found: false, script_there: true } => Action::KeepGatewayScript,
        Event::Openclaw { found: false, script_there: false } => Action::WarnNoGatewayScript,
        Event::GatewayScript => Action::WriteLogrotate,
        Event::Logrotate => Action::LookForEnvFile,
        Event::EnvFileThere(true) => Action::KeepEnvFile,
        Event::EnvFileThere(false) => Action::WriteEnvFile,
        Event::EnvFile => Action::EnableTimers,
        Event::Timers => Action::CheckDaemon,
        Event::DaemonActive(true) => Action::RestartDaemon,
        Event::DaemonActive(false) => Action::LeaveDaemon,
        Event::Daemon => Action::Finish,
        Event::WatchdogUser(false)
        | Event::AgentUser(false)
        | Event::VaultDirs(false)
        | Event::Binary(false)
        | Event::SudoersWritten(false)
        | Event::UnitWritten { done: false, .. } => Action::Fail { remove_sudoers: false },
    }
}

/// What to do after an event of the deployment, which begins with the watchdog
/// user.
pub fn deploy(e: Event) -> (r: Action)
    ensures
        r == step(e),
{
    match e {
        Event::WatchdogUser(true) => Action::EnsureAgent,
        Event::AgentUser(true) => Action::MakeVault,
        Event::VaultDirs(true) => Action::SetPermissions,
        Event::Permissions => Action::CopyBinary,
        Event::Binary(true) => Action::SetAcls,
        Event::Acls => Action::WriteSudoers,
        Event::SudoersWritten(true) => Action::ValidateSudoers,
        Event::SudoersValid(true) => Action::WriteNextUnit,
        Event::SudoersValid(false) => Action::Fail { remove_sudoers: true },
        Event::UnitWritten { done: true, last: false } => Action::WriteNextUnit,
        Event::UnitWritten { done: true, last: true } => Action::Reload,
        Event::Reloaded => Action::FindOpenclaw,
        Event::Openclaw { found: true, .. } => Action::WriteGatewayScript,
        Event::Openclaw { found: false, script_there: true } => Action::KeepGatewayScript,
        Event::Openclaw { found: false, script_there: false } => Action::WarnNoGatewayScript,
        Event::GatewayScript => Action::WriteLogrotate,
        Event::Logrotate => Action::LookForEnvFile,
        Event::EnvFileThere(true) => Action::KeepEnvFile,
        Event::EnvFileThere(false) => Action::WriteEnvFile,
        Event::EnvFile => Action::EnableTimers,
        Event::Timers => Action::CheckDaemon,
        Event::DaemonActive(true) => Action::RestartDaemon,
        Event::DaemonActive(false) => Action::LeaveDaemon,
        Event::Daemon => Action::Finish,
        Event::WatchdogUser(false)
        | Event::AgentUser(false)
        | Event::VaultDirs(false)
        | Event::Binary(false)
        | Event::SudoersWritten(false)
        | Event::UnitWritten { done: false, .. } => Action::Fail { remove_sudoers: false },
    }
}

/// The exit code of a deployment that ended so.
pub fn exit_code(a: Action) -> (r: i32)
    ensures
        r == if a == Action::Finish {
            0i32
        } else {
            1i32
        },
{
    match a {
        Action::Finish => 0,
        _ => 1,
    }
}

/// The event can come of the action.
pub open spec fn answers(a: Action, e: Event) -> bool {
    match a {
        Action::EnsureWatchdog => e is WatchdogUser,
        Action::EnsureAgent => e is AgentUser,
        Action::MakeVault => e is VaultDirs,
        Action::SetPermissions => e is Permissions,
        Action::CopyBinary => e is Binary,
        Action::SetAcls => e is Acls,
        Action::WriteSudoers => e is SudoersWritten,
        Action::ValidateSudoers => e is SudoersValid,
        Action::WriteNextUnit => e is UnitWritten,
        Action::Reload => e is Reloaded,
        Action::FindOpenclaw => e is Openclaw,
        Action::WriteGatewayScript
        | Action::KeepGatewayScript
        | Action::WarnNoGatewayScript => e is GatewayScript,
        Action::WriteLogrotate => e is Logrotate,
        Action::LookForEnvFile => e is EnvFileThere,
        Action::WriteEnvFile | Action::KeepEnvFile => e is EnvFile,
        Action::EnableTimers => e is Timers,
        Action::CheckDaemon => e is DaemonActive,
        Action::RestartDaemon | Action::LeaveDaemon => e is Daemon,
        Action::Finish | Action::Fail { .. } => false,
    }
}

/// The action at `i` was answered by the event at `i`.
pub open spec fn answered(run: Seq<(Action, Event)>, i: int) -> bool {
    answers(run[i].0, run[i].1)
}

/// The action at `i` follows from the event before.
pub open spec fn follows(run: Seq<(Action, Event)>, i: int) -> bool {
    run[i].0 == step(run[i - 1].1)
}

/// A run of the deployment: each action with what came of it, each following
/// from the event before.
pub open spec fn is_run(run: Seq<(Action, Event)>) -> bool {
    &&& run.len() > 0 ==> run[0].0 == Action::EnsureWatchdog
    &&& forall|i: int| 0 <= i < run.len() ==> #[trigger] answered(run, i)
    &&& forall|i: int| 0 < i < run.len() ==> #[trigger] follows(run, i)
}

/// The place of the first steps in every run.
proof fn lemma_first_steps(run: Seq<(Action, Event)>, n: int)
    requires
        is_run(run),
        0 <= n < run.len(),
    ensures
        n == 0 <==> run[n].0 == Action::EnsureWatchdog,
        n == 1 <==> run[n].0 == Action::EnsureAgent,
        n == 2 <==> run[n].0 == Action::MakeVault,
        n == 3 <==> run[n].0 == Action::SetPermissions,
        n == 4 <==> run[n].0 == Action::CopyBinary,
        n == 5 <==> run[n].0 == Action::SetAcls,
        n == 6 <==> run[n].0 == Action::WriteSudoers,
        n == 7 <==> run[n].0 == Action::ValidateSudoers,
    decreases n,
{
    assert(answered(run, n));
    if n > 0 {
        lemma_first_steps(run, n - 1);
        assert(answered(run, n - 1));
        assert(follows(run, n));
    }
}

/// No unit is written, and nothing after it done, unless `visudo` accepted the
/// sudoers file.
pub proof fn law_units_follow_valid_sudoers(run: Seq<(Action, Event)>, n: int)
    requires
        is_run(run),
        8 <= n < run.len(),
    ensures
        run[7].1 == Event::SudoersValid(true),
{
    lemma_first_steps(run, 7);
    assert(answered(run, 7));
    assert(follows(run, 8));
    assert(answered(run, 8));
}

/// A deployment over an earlier one keeps its settings: the env file is written
/// only where there was none, and a start script of the gateway is replaced only
/// where the openclaw binary was found.
pub proof fn law_settings_are_kept(run: Seq<(Action, Event)>, n: int)
    requires
        is_run(run),
        0 <= n < run.len(),
    ensures
        run[n].0 == Action::WriteEnvFile ==> n > 0 && run[n - 1].1 == Event::EnvFileThere(false),
        run[n].0 == Action::WriteGatewayScript ==> n > 0 && run[n - 1].1 is Openclaw
            && run[n - 1].1->found,
{
    if n > 0 {
        assert(follows(run, n));
    }
}

/// A deployment starts no daemon: it restarts one that is running.
pub proof fn law_idle_daemon_is_left(run: Seq<(Action, Event)>, n: int)
    requires
        is_run(run),
        0 <= n < run.len(),
    ensures
        run[n].0 == Action::RestartDaemon ==> n > 0 && run[n - 1].1 == Event::DaemonActive(true),
{
    if n > 0 {
        assert(follows(run, n));
    }
}

/// The place of an action in the deployment. Actions between which the
/// deployment chooses share one.
pub open spec fn stage(a: Action) -> int {
    match a {
        Action::EnsureWatchdog => 0,
        Action::EnsureAgent => 1,
        Action::MakeVault => 2,
        Action::SetPermissions => 3,
        Action::CopyBinary => 4,
        Action::SetAcls => 5,
        Action::WriteSudoers => 6,
        Action::ValidateSudoers => 7,
        Action::WriteNextUnit => 8,
        Action::Reload => 9,
        Action::FindOpenclaw => 10,
        Action::WriteGatewayScript
        | Action::KeepGatewayScript
        | Action::WarnNoGatewayScript => 11,
        Action::WriteLogrotate => 12,
        Action::LookForEnvFile => 13,
        Action::WriteEnvFile | Action::KeepEnvFile => 14,
        Action::EnableTimers => 15,
        Action::CheckDaemon => 16,
        Action::RestartDaemon | Action::LeaveDaemon => 17,
        Action::Finish => 18,
        Action::Fail { .. } => -1,
    }
}

/// The step did what it should. From the reload on nothing can go wrong that
/// would end the deployment.
pub open spec fn goes_well(e: Event) -> bool {
    match e {
        Event::WatchdogUser(ok) => ok,
        Event::AgentUser(ok) => ok,
        Event::VaultDirs(ok) => ok,
        Event::Binary(ok) => ok,
        Event::SudoersWritten(ok) => ok,
        Event::SudoersValid(ok) => ok,
        Event::UnitWritten { done, .. } => done,
        _ => true,
    }
}

/// A step that goes well leads to the next one, and no step is passed over; only
/// the writing of units is repeated, up to the last. A step that does not go
/// well ends the deployment, and invalid sudoers are removed, nothing else is.
pub proof fn law_steps_in_order(a: Action, e: Event)
    requires
        answers(a, e),
    ensures
        goes_well(e) && !(e matches Event::UnitWritten { last, .. } && !last) ==> stage(step(e))
            == stage(a) + 1,
        goes_well(e) && (e matches Event::UnitWritten { last, .. } && !last) ==> step(e)
            == Action::WriteNextUnit,
        step(e) is Fail <==> !goes_well(e),
        step(e) == (Action::Fail { remove_sudoers: true }) <==> e == Event::SudoersValid(false),
{
}

/// What is there decides: the start script is written where the binary was
/// found, else kept where there is one, else missed; an env file that is there
/// is kept, and a missing one written; a running daemon is restarted, and any
/// other left.
pub proof fn law_what_is_there_decides(found: bool, there: bool)
    ensures
        step(Event::Openclaw { found, script_there: there }) == Action::WriteGatewayScript <==> found,
        step(Event::Openclaw { found, script_there: there }) == Action::KeepGatewayScript <==> !found
            && there,
        step(Event::EnvFileThere(there)) == Action::KeepEnvFile <==> there,
        step(Event::EnvFileThere(there)) == Action::WriteEnvFile <==> !there,
        step(Event::DaemonActive(there)) == Action::RestartDaemon <==> there,
{
}

// ── Contents ──────────────────────────────────────────────────────────

/// Whether the agent user has to be created: only ocagent is ours to create.
pub fn needs_agent(agent_user: &str, there: bool) -> (r: bool)
    ensures
        r == (agent_user@ == "ocagent"@ && !there),
{
    same(agent_user, "ocagent") && !there
}

/// The directories of the vault.
pub fn vault_subdirs() -> (r: Vec<String>)
    ensures
        views(r@) == seq!["lkg"@, "snapshots"@, "postmortem"@, "audit"@, "config"@, "bin"@],
{
    let v = vec!["lkg", "snapshots", "postmortem", "audit", "config", "bin"];
    assert(strs(v@) =~= seq!["lkg"@, "snapshots"@, "postmortem"@, "audit"@, "config"@, "bin"@]);
    owned(v)
}

/// The commands that make the vault the watchdog's own: private, its root
/// traversable, and `bin` executable.
pub open spec fn vault_permissions(vault: Seq<char>, watchdog: Seq<char>) -> Seq<CommandLineView> {
    seq![
        line("chown"@, seq!["-R"@, watchdog + ":"@ + watchdog, vault]),
        line("chmod"@, seq!["-R"@, "700"@, vault]),
        line("chmod"@, seq!["711"@, vault]),
        line("chmod"@, seq!["755"@, joined_path(vault, "bin"@)]),
    ]
}

/// The commands that make the vault the watchdog's own.
pub fn permission_commands(vault: &str, watchdog: &str) -> (r: Vec<CommandLine>)
    ensures
        command_views(r@) == vault_permissions(vault@, watchdog@),
{
    let mut owner = watchdog.to_owned();
    owner.append(":");
    owner.append(watchdog);
    let bin = join_path(vault, "bin");
    let chown = vec!["-R", owner.as_str(), vault];
    assert(strs(chown@) =~= seq!["-R"@, owner@, vault@]);
    let private = vec!["-R", "700", vault];
    assert(strs(private@) =~= seq!["-R"@, "700"@, vault@]);
    let root = vec!["711", vault];
    assert(strs(root@) =~= seq!["711"@, vault@]);
    let exec = vec!["755", bin.as_str()];
    assert(strs(exec@) =~= seq!["755"@, bin@]);
    let r = vec![
        command("chown", chown),
        command("chmod", private),
        command("chmod", root),
        command("chmod", exec),
    ];
    assert(command_views(r@) =~= vault_permissions(vault@, watchdog@));
    r
}

/// The view of a named text.
pub open spec fn named(u: (&'static str, String)) -> (Seq<char>, Seq<char>) {
    (u.0@, u.1@)
}

/// The units of a deployment, with their contents, in the order in which they
/// are written.
pub open spec fn unit_files(cfg: Config) -> Seq<(Seq<char>, Seq<char>)> {
    seq![
        ("oc-outerclaw.service"@, unit(OUTERCLAW_SERVICE@, cfg)),
        ("openclaw-gateway.service"@, unit(GATEWAY_SERVICE@, cfg)),
        ("oc-snapshot.timer"@, SNAPSHOT_TIMER@),
        ("oc-snapshot.service"@, unit(SNAPSHOT_SERVICE@, cfg)),
        ("oc-healthcheck.timer"@, HEALTHCHECK_TIMER@),
        ("oc-healthcheck.service"@, unit(HEALTHCHECK_SERVICE@, cfg)),
        ("oc-lkg-promote.timer"@, LKG_PROMOTE_TIMER@),
        ("oc-lkg-promote.service"@, unit(LKG_PROMOTE_SERVICE@, cfg)),
        ("oc-cloud-sync.timer"@, CLOUD_SYNC_TIMER@),
        ("oc-cloud-sync.service"@, unit(CLOUD_SYNC_SERVICE@, cfg)),
        ("oc-identity-lock.service"@, unit(IDENTITY_LOCK_SERVICE@, cfg)),
        ("oc-identity-unlock.service"@, unit(IDENTITY_UNLOCK_SERVICE@, cfg)),
    ]
}

/// The units of a deployment, with their contents.
pub fn all_units(cfg: &Config) -> (r: Vec<(&'static str, String)>)
    ensures
        r@.len() == 12,
        forall|i: int| 0 <= i < 12 ==> named(#[trigger] r@[i]) == unit_files(*cfg)[i],
{
    vec![
        ("oc-outerclaw.service", systemd::outerclaw_service(cfg)),
        ("openclaw-gateway.service", systemd::gateway_service(cfg)),
        ("oc-snapshot.timer", systemd::snapshot_timer().to_owned()),
        ("oc-snapshot.service", systemd::snapshot_service(cfg)),
        ("oc-healthcheck.timer", systemd::healthcheck_timer().to_owned()),
        ("oc-healthcheck.service", systemd::healthcheck_service(cfg)),
        ("oc-lkg-promote.timer", systemd::lkg_promote_timer().to_owned()),
        ("oc-lkg-promote.service", systemd::lkg_promote_service(cfg)),
        ("oc-cloud-sync.timer", systemd::cloud_sync_timer().to_owned()),
        ("oc-cloud-sync.service", systemd::cloud_sync_service(cfg)),
        ("oc-identity-lock.service", systemd::identity_lock_service(cfg)),
        ("oc-identity-unlock.service", systemd::identity_unlock_service(cfg)),
    ]
}

/// The path of a unit file.
pub fn unit_path(name: &str) -> (r: String)
    ensures
        r@ == SYSTEMD_DIR@ + "/"@ + name@,
{
    let mut r = SYSTEMD_DIR.to_owned();
    r.append("/");
    r.append(name);
    r
}

/// The script that starts the gateway, with the binary's directory on the PATH.
pub fn gateway_script(node_dir: &str) -> (r: String)
    ensures
        r@ == "#!/bin/bash\n# Auto-generated by outerclaw deploy\nexport PATH=\""@ + node_dir@
            + ":$PATH\"\nexec openclaw gateway --port \"${OPENCLAW_GATEWAY_PORT:-18789}\"\n"@,
{
    let mut r = "#!/bin/bash\n# Auto-generated by outerclaw deploy\nexport PATH=\"".to_owned();
    r.append(node_dir);
    r.append(":$PATH\"\nexec openclaw gateway --port \"${OPENCLAW_GATEWAY_PORT:-18789}\"\n");
    r
}

/// The heading of a new env file.
pub const ENV_HEAD: &'static str = "# OuterClaw Configuration\n# Telegram alerts auto-read from OpenClaw's openclaw.json (no config needed)\n# To enable two-way Telegram bot, create a dedicated bot via @BotFather and set:\n# OUTERCLAW_TG_TOKEN=\n# OUTERCLAW_TG_CHAT=\nGATEWAY_PORT=";

/// The text of a new env file.
pub open spec fn env_text(
    port: nat,
    agent_user: Seq<char>,
    openclaw_dir: Seq<char>,
    openclaw_bin: Seq<char>,
) -> Seq<char> {
    ENV_HEAD@ + decimal(port) + "\nAGENT_USER="@ + agent_user + "\nOPENCLAW_DIR="@ + openclaw_dir
        + "\nOPENCLAW_BIN="@ + openclaw_bin + "\n"@
}

/// The text of a new env file. `openclaw_bin` is empty where the binary was not
/// found.
pub fn env_content(cfg: &Config, openclaw_bin: &str) -> (r: String)
    ensures
        r@ == env_text(
            cfg.gateway_port as nat,
            cfg.agent_user@,
            cfg.openclaw_dir@,
            openclaw_bin@,
        ),
{
    let mut r = ENV_HEAD.to_owned();
    r.append(show(cfg.gateway_port as u64).as_str());
    r.append("\nAGENT_USER=");
    r.append(cfg.agent_user.as_str());
    r.append("\nOPENCLAW_DIR=");
    r.append(cfg.openclaw_dir.as_str());
    r.append("\nOPENCLAW_BIN=");
    r.append(openclaw_bin);
    r.append("\n");
    r
}

/// The timers to enable: the core ones, and that of the cloud sync only where
/// it is configured.
pub fn timers_to_enable(cloud_enabled: bool) -> (r: Vec<String>)
    ensures
        views(r@) == if cloud_enabled {
            seq![
                "oc-snapshot.timer"@,
                "oc-healthcheck.timer"@,
                "oc-lkg-promote.timer"@,
                "oc-cloud-sync.timer"@,
            ]
        } else {
            seq!["oc-snapshot.timer"@, "oc-healthcheck.timer"@, "oc-lkg-promote.timer"@]
        },
{
    if cloud_enabled {
        let v = vec![
            "oc-snapshot.timer",
            "oc-healthcheck.timer",
            "oc-lkg-promote.timer",
            "oc-cloud-sync.timer",
        ];
        assert(strs(v@) =~= seq![
            "oc-snapshot.timer"@,
            "oc-healthcheck.timer"@,
            "oc-lkg-promote.timer"@,
            "oc-cloud-sync.timer"@,
        ]);
        owned(v)
    } else {
        let v = vec!["oc-snapshot.timer", "oc-healthcheck.timer", "oc-lkg-promote.timer"];
        assert(strs(v@) =~= seq![
            "oc-snapshot.timer"@,
            "oc-healthcheck.timer"@,
            "oc-lkg-promote.timer"@,
        ]);
        owned(v)
    }
}

} // verus!
