use outerclaw::cli::{SetupArgs, UninstallArgs};
use outerclaw::config::{Config, EnvMap};
use outerclaw::platform::command::{CommandLine, CommandOutput};
use outerclaw::setup::acl::setfacl_result;
use outerclaw::setup::deploy::{
    self, all_units, env_content, exit_code, gateway_script, needs_agent, permission_commands,
    timers_to_enable, unit_path, vault_subdirs,
};
use outerclaw::setup::install::{self, agent_place, closing_text, mode_of, mode_selected};
use outerclaw::setup::platform_detect::{
    detect_human_user, detect_openclaw_binary, next_probe, probed_path, Search,
};
use outerclaw::setup::template::fill;
use outerclaw::setup::uninstall::{
    self, agent_goes, confirmed, disable_command, user_goes, vault_goes, AGENT_USER,
};
use outerclaw::setup::{remove_acls, set_acls, users};

fn cfg() -> Config {
    Config::load(&EnvMap::new(), &EnvMap::new(), None).unwrap()
}

fn words(c: CommandLine) -> String {
    let mut all = vec![c.program];
    all.extend(c.args);
    all.join(" ")
}

fn all_words(cs: Vec<CommandLine>) -> Vec<String> {
    cs.into_iter().map(words).collect()
}

fn ran(code: i32, stderr: &str) -> CommandOutput {
    CommandOutput {
        success: code == 0,
        code: Some(code),
        stdout: String::new(),
        stderr: stderr.into(),
    }
}

#[test]
fn test_detect_human_user_does_not_panic() {
    // May return None in CI; the important thing is it doesn't crash
    let _ = detect_human_user(None, &vec![]);
}

#[test]
fn the_human_user_is_detected() {
    let homes = vec![("a".to_string(), false), ("b".to_string(), true), ("c".to_string(), true)];
    assert_eq!(detect_human_user(Some("me"), &homes).as_deref(), Some("me"));
    assert_eq!(detect_human_user(Some("root"), &homes).as_deref(), Some("b"));
    assert_eq!(detect_human_user(Some(""), &homes).as_deref(), Some("b"));
    assert_eq!(detect_human_user(None, &homes[..1].to_vec()), None);
}

#[test]
fn the_binary_is_looked_for() {
    let probes = detect_openclaw_binary("oc");
    let needs: Vec<_> = probes.iter().map(|p| (p.needs.clone(), p.many)).collect();
    assert_eq!(
        needs,
        vec![
            (None, false),
            (Some("/home/oc/.npm-global".to_string()), true),
            (Some("/usr/local/lib".to_string()), true),
            (Some("/usr/lib".to_string()), true),
            (None, false),
            (None, false),
        ]
    );
    let lines = all_words(probes.into_iter().map(|p| p.command).collect());
    assert_eq!(lines[0], "sudo -u oc bash -lc command -v openclaw");
    assert_eq!(lines[2], "find /usr/local/lib -name openclaw -path */bin/openclaw -type f");
    assert_eq!(lines[5], "which openclaw");
    assert_eq!(probed_path(false, " /x\n").as_deref(), Some("/x"));
    assert_eq!(probed_path(false, " \n"), None);
    assert_eq!(probed_path(true, "/a\n /b \n").as_deref(), Some("/b"));
    assert_eq!(probed_path(true, ""), None);
}

#[test]
fn users_are_created_once() {
    assert!(users::ensure_system_user("oc", "/v", "/bin/false", true).is_none());
    assert_eq!(
        users::ensure_system_user("oc", "/v", "/bin/false", false).map(words).as_deref(),
        Some(
            "useradd --system --shell /bin/false --home-dir /v --create-home \
             --comment OuterClaw Service oc"
        )
    );
    assert!(users::ensure_login_user("oc", true).is_none());
    assert_eq!(
        users::ensure_login_user("oc", false).map(words).as_deref(),
        Some("useradd -m -s /bin/bash --comment OpenClaw Agent (no sudo) oc")
    );
    assert_eq!(users::user_created("oc", &ran(9, "")), Ok(()));
    assert_eq!(
        users::user_created("oc", &ran(1, "e")),
        Err("useradd 'oc' failed (exit 1): e".to_string())
    );
    assert!(users::remove_user("oc", false).is_none());
    assert_eq!(users::remove_user("oc", true).map(words).as_deref(), Some("userdel oc"));
    assert_eq!(users::user_removed("oc", &ran(6, "")), Ok(()));
    assert_eq!(
        users::user_removed("oc", &ran(8, "e")),
        Err("userdel 'oc' failed (exit 8): e".to_string())
    );
}

#[test]
fn acls_cover_what_is_there() {
    let there = vec!["tasks".to_string(), "logs".to_string(), ".env".to_string(), "x".to_string()];
    assert_eq!(
        all_words(set_acls("/h", "/o", &there)),
        vec![
            "setfacl -m u:outerclaw:x,m::x /h",
            "setfacl -m u:outerclaw:rx,m::rx /o",
            "setfacl -R -m u:outerclaw:rX,m::rX /o/tasks",
            "setfacl -R -d -m u:outerclaw:rX,m::rX /o/tasks",
            "setfacl -R -m u:outerclaw:rX,m::rX /o/logs",
            "setfacl -R -d -m u:outerclaw:rX,m::rX /o/logs",
            "setfacl -d -m u:outerclaw:r,m::r /o",
            "setfacl -m u:outerclaw:r,m::r /o/.env",
        ]
    );
    assert_eq!(
        all_words(remove_acls("/h", "/o", &there)),
        vec![
            "setfacl -x u:outerclaw /h",
            "setfacl -x u:outerclaw /o",
            "setfacl -d -x u:outerclaw /o",
            "setfacl -R -x u:outerclaw /o/logs",
            "setfacl -R -d -x u:outerclaw /o/logs",
            "setfacl -x u:outerclaw /o/.env",
        ]
    );
    let args = vec!["-x".to_string(), "/h".to_string()];
    assert_eq!(setfacl_result(&args, &ran(0, "")), Ok(()));
    assert_eq!(
        setfacl_result(&args, &ran(2, "e")),
        Err("setfacl -x /h failed (exit 2): e".to_string())
    );
}

#[test]
fn units_follow_valid_sudoers() {
    let events = [
        (deploy::Event::WatchdogUser(true), deploy::Action::EnsureAgent),
        (deploy::Event::AgentUser(true), deploy::Action::MakeVault),
        (deploy::Event::VaultDirs(true), deploy::Action::SetPermissions),
        (deploy::Event::Permissions, deploy::Action::CopyBinary),
        (deploy::Event::Binary(true), deploy::Action::SetAcls),
        (deploy::Event::Acls, deploy::Action::WriteSudoers),
        (deploy::Event::SudoersWritten(true), deploy::Action::ValidateSudoers),
        (deploy::Event::SudoersValid(true), deploy::Action::WriteNextUnit),
        (
            deploy::Event::UnitWritten { done: true, last: false },
            deploy::Action::WriteNextUnit,
        ),
        (deploy::Event::UnitWritten { done: true, last: true }, deploy::Action::Reload),
        (deploy::Event::Reloaded, deploy::Action::FindOpenclaw),
        (
            deploy::Event::Openclaw { found: true, script_there: true },
            deploy::Action::WriteGatewayScript,
        ),
        (
            deploy::Event::Openclaw { found: false, script_there: true },
            deploy::Action::KeepGatewayScript,
        ),
        (
            deploy::Event::Openclaw { found: false, script_there: false },
            deploy::Action::WarnNoGatewayScript,
        ),
        (deploy::Event::GatewayScript, deploy::Action::WriteLogrotate),
        (deploy::Event::Logrotate, deploy::Action::LookForEnvFile),
        (deploy::Event::EnvFileThere(true), deploy::Action::KeepEnvFile),
        (deploy::Event::EnvFileThere(false), deploy::Action::WriteEnvFile),
        (deploy::Event::EnvFile, deploy::Action::EnableTimers),
        (deploy::Event::Timers, deploy::Action::CheckDaemon),
        (deploy::Event::DaemonActive(true), deploy::Action::RestartDaemon),
        (deploy::Event::DaemonActive(false), deploy::Action::LeaveDaemon),
        (deploy::Event::Daemon, deploy::Action::Finish),
        (
            deploy::Event::SudoersValid(false),
            deploy::Action::Fail { remove_sudoers: true },
        ),
        (deploy::Event::Binary(false), deploy::Action::Fail { remove_sudoers: false }),
        (
            deploy::Event::UnitWritten { done: false, last: true },
            deploy::Action::Fail { remove_sudoers: false },
        ),
    ];
    for (event, action) in events {
        assert_eq!(deploy::deploy(event), action);
    }
    assert_eq!(exit_code(deploy::Action::Finish), 0);
    assert_eq!(exit_code(deploy::Action::Fail { remove_sudoers: true }), 1);
}

#[test]
fn what_is_deployed() {
    assert!(needs_agent("ocagent", false));
    assert!(!needs_agent("ocagent", true) && !needs_agent("me", false));
    assert_eq!(
        vault_subdirs(),
        vec!["lkg", "snapshots", "postmortem", "audit", "config", "bin"]
    );
    assert_eq!(
        all_words(permission_commands("/v", "w")),
        vec!["chown -R w:w /v", "chmod -R 700 /v", "chmod 711 /v", "chmod 755 /v/bin"]
    );
    let units = all_units(&cfg());
    assert_eq!(units.len(), 12);
    assert_eq!(units[0].0, "oc-outerclaw.service");
    assert!(units[11].1.contains("identity unlock"));
    assert_eq!(unit_path("a.timer"), "/etc/systemd/system/a.timer");
    assert_eq!(
        gateway_script("/n"),
        "#!/bin/bash\n# Auto-generated by outerclaw deploy\nexport PATH=\"/n:$PATH\"\nexec openclaw gateway --port \"${OPENCLAW_GATEWAY_PORT:-18789}\"\n"
    );
    assert!(env_content(&cfg(), "/b").ends_with(
        "GATEWAY_PORT=18789\nAGENT_USER=ocagent\nOPENCLAW_DIR=/home/ocagent/.openclaw\nOPENCLAW_BIN=/b\n"
    ));
    assert_eq!(timers_to_enable(false).len(), 3);
    assert_eq!(timers_to_enable(true)[3], "oc-cloud-sync.timer");
}

#[test]
fn the_installation() {
    assert_eq!(install::install(install::Event::Root(false)), install::Action::Fail(1));
    assert_eq!(
        install::install(install::Event::Lightweight(true)),
        install::Action::EnsureWatchdog
    );
    assert_eq!(
        install::install(install::Event::Lightweight(false)),
        install::Action::EnsureAgent
    );
    assert_eq!(install::install(install::Event::Deployed(0)), install::Action::SetAcls);
    assert_eq!(install::install(install::Event::Deployed(7)), install::Action::Fail(7));
    assert_eq!(install::install(install::Event::Services), install::Action::Finish);
    let mode = |lightweight, yes| mode_of(&SetupArgs { lightweight, yes });
    assert_eq!(mode(true, true), Some(true));
    assert_eq!(mode(false, true), Some(false));
    assert_eq!(mode(false, false), None);
    assert!(mode_selected(Some(1)) && !mode_selected(Some(0)) && !mode_selected(None));
    let full = agent_place("me", false);
    assert_eq!(full.openclaw_dir, "/home/ocagent/.openclaw");
    let light = agent_place("me", true);
    assert_eq!((light.user.as_str(), light.home.as_str()), ("me", "/home/me"));
    assert!(closing_text("me", true).starts_with("  Two-user isolation active:\n    me "));
    assert!(closing_text("me", false).contains("ocagent    -- OpenClaw (no sudo)"));
}

#[test]
fn nothing_is_removed_unasked() {
    let args = |yes, remove_vault, remove_users| UninstallArgs { yes, remove_vault, remove_users };
    let none = args(false, false, false);
    for answer in [None, Some(false)] {
        assert!(!confirmed(&none, answer));
        assert!(!vault_goes(&none, answer));
        assert!(!user_goes(&none, answer));
    }
    assert!(vault_goes(&none, Some(true)));
    assert!(vault_goes(&args(false, true, false), None));
    assert!(user_goes(&args(false, false, true), None));
    assert!(agent_goes(&args(false, false, true)) && agent_goes(&args(true, true, true)));
    assert!(!agent_goes(&none) && !agent_goes(&args(true, true, false)));
    let yes = args(true, false, false);
    assert!(confirmed(&yes, None) && vault_goes(&yes, None));
    assert!(user_goes(&yes, None) && !agent_goes(&yes));
    assert_eq!(uninstall::uninstall(uninstall::Event::Confirmed(false)), uninstall::Action::Abort);
    assert_eq!(
        uninstall::uninstall(uninstall::Event::VaultDecided(Some(false))),
        uninstall::Action::KeepVault
    );
    assert_eq!(
        uninstall::uninstall(uninstall::Event::VaultDecided(None)),
        uninstall::Action::DecideUser
    );
    assert_eq!(uninstall::uninstall(uninstall::Event::Root(false)), uninstall::Action::Fail);
    for (event, action) in [
        (uninstall::Event::UserDecided(None), uninstall::Action::DecideAgent),
        (uninstall::Event::UserDecided(Some(true)), uninstall::Action::RemoveUser),
        (uninstall::Event::UserDone, uninstall::Action::DecideAgent),
        (uninstall::Event::AgentDecided(Some(true)), uninstall::Action::RemoveAgent),
        (uninstall::Event::AgentDecided(Some(false)), uninstall::Action::KeepAgent),
        (uninstall::Event::AgentDecided(None), uninstall::Action::Finish),
        (uninstall::Event::AgentDone, uninstall::Action::Finish),
    ] {
        assert_eq!(uninstall::uninstall(event), action);
    }
    assert_eq!(uninstall::exit_code(uninstall::Action::Finish), 0);
    assert_eq!(uninstall::exit_code(uninstall::Action::Abort), 0);
    assert_eq!(uninstall::exit_code(uninstall::Action::Fail), 1);
    assert_eq!(AGENT_USER, "ocagent");
    assert_eq!(words(disable_command("a.timer")), "systemctl disable --now a.timer");
}

#[test]
fn templates_are_filled() {
    assert_eq!(fill("a <<x>> b <<y>><<x>>", vec![("<<x>>", "1"), ("<<y>>", "<<x>>")]), "a 1 b <<x>>1");
    assert_eq!(fill("no marks", vec![("<<x>>", "1")]), "no marks");
}

#[test]
fn the_first_path_that_exists_ends_the_search() {
    assert_eq!(next_probe(0, 6, true), Search::Found);
    assert_eq!(next_probe(0, 6, false), Search::Try(1));
    assert_eq!(next_probe(4, 6, false), Search::Try(5));
    assert_eq!(next_probe(5, 6, false), Search::Missing);
    assert_eq!(next_probe(usize::MAX, 6, false), Search::Missing);
}
