use outerclaw::cli::CloudRestoreArgs;
use outerclaw::cloud::restore::{
    self, databases_in, format_size, hint_command, integrity_report, is_database, list_cloud, list_command,
    list_lkgs, list_snapshots, preflight, resolve_base_remote, restore_lkg, restore_message,
    restore_snapshot, Choice,
};
use outerclaw::cloud::setup::{
    self, append_crypt_section, check_rclone, copy_command, provider, rclone_obscure, remote_path,
    set_env_var, setup_aws_s3, setup_backblaze_b2, setup_cloudflare_r2, setup_existing,
    test_connection, test_content, update_env_file, upload_recovery_hint, user_config_path, Action,
    Event, ExistingConfig, Provider, TestOutcome,
};
use outerclaw::cloud::sync::{self, count_entries, finish, flags, sync_command, Part, SyncResult};
use outerclaw::config::parse_env_file;
use outerclaw::platform::command::CommandLine;
use outerclaw::vault::retention::EntryKind;

fn words(c: CommandLine) -> String {
    let mut all = vec![c.program];
    all.extend(c.args);
    all.join(" ")
}

#[test]
fn sync_can_be_refused() {
    assert!(sync::run(true, true, true, true).is_none());
    let r = sync::run(false, false, false, false).unwrap();
    assert_eq!((r.code, r.alert), (0, None));
    assert_eq!(r.message, "SKIP: Cloud sync disabled (CLOUD_ENABLED!=true)");
    let r = sync::run(true, false, false, false).unwrap();
    assert_eq!((r.code, r.message.as_str()), (1, "ERROR: rclone not found"));
    assert_eq!(r.alert, Some("Cloud sync failed: rclone not installed"));
    let r = sync::run(true, true, false, false).unwrap();
    assert_eq!(
        r.message,
        "ERROR: rclone config not found at /var/lib/outerclaw/config/rclone.conf"
    );
    let r = sync::run(true, true, true, false).unwrap();
    assert_eq!(
        (r.code, r.message.as_str()),
        (0, "SKIP: I/O pressure too high, cloud sync deferred")
    );
}

#[test]
fn sync_commands_and_reports() {
    assert_eq!(flags(0).len(), 14);
    assert_eq!(flags(512)[14..], ["--bwlimit".to_string(), "512k".to_string()]);
    let c = sync_command("/v/lkg", "r", "lkg", 0);
    assert_eq!(c[..3], ["sync".to_string(), "/v/lkg".to_string(), "r:lkg/".to_string()]);
    let entries = vec![
        ("a".to_string(), EntryKind::File),
        ("b".to_string(), EntryKind::Dir),
        ("c".to_string(), EntryKind::File),
        ("d".to_string(), EntryKind::Other),
    ];
    assert_eq!(count_entries(&entries, false), 2);
    assert_eq!(count_entries(&entries, true), 1);
    assert_eq!(
        Part::Snapshots.announce(2),
        (true, "Syncing 2 snapshot files...".to_string())
    );
    assert_eq!(Part::Lkg.announce(0), (false, "SKIP: no LKG states to sync".to_string()));
    assert_eq!(
        Part::Lkg.report(&SyncResult::Done, 3),
        (false, "OK: lkg synced (3 states)".to_string())
    );
    assert_eq!(
        Part::Snapshots.report(&SyncResult::Done, 3),
        (false, "OK: snapshots synced (3 files)".to_string())
    );
    assert_eq!(
        Part::Lkg.report(&SyncResult::Failed(None), 3),
        (true, "ERROR: lkg sync failed (rc=-1)".to_string())
    );
    assert_eq!(
        Part::Snapshots.report(&SyncResult::NotRun("e".into()), 3),
        (true, "ERROR: snapshots sync failed: e".to_string())
    );
    assert_eq!(finish(0), (0, "DONE: Cloud sync successful".to_string(), None));
    assert_eq!(
        finish(2),
        (
            1,
            "DONE: Cloud sync completed with 2 error(s)".to_string(),
            Some("Cloud sync completed with 2 error(s)".to_string())
        )
    );
}

fn args(list: bool, show_hint: bool, lkg: Option<&str>, snapshot: Option<&str>) -> CloudRestoreArgs {
    CloudRestoreArgs {
        list,
        show_hint,
        restore_lkg: lkg.map(|s| s.into()),
        restore_snapshot: snapshot.map(|s| s.into()),
    }
}

#[test]
fn restore_flags() {
    assert!(matches!(restore::run(&args(true, true, Some("a"), None)), Choice::ShowHint));
    assert!(matches!(restore::run(&args(true, false, Some("a"), None)), Choice::List));
    assert!(
        matches!(restore::run(&args(false, false, Some("a"), Some("b"))), Choice::RestoreLkg(n) if n == "a")
    );
    assert!(
        matches!(restore::run(&args(false, false, None, Some("b"))), Choice::RestoreSnapshot(n) if n == "b")
    );
    assert!(matches!(restore::run(&args(false, false, None, None)), Choice::Usage));
    assert_eq!(preflight(true, true, true), None);
    assert!(preflight(false, false, false).unwrap().contains("Must run as root"));
    assert!(preflight(true, false, false).unwrap().contains("rclone not found"));
    assert!(preflight(true, true, false).unwrap().contains("rclone config not found"));
}

#[test]
fn cloud_lists() {
    assert_eq!(format_size(1023), "1023 B");
    assert_eq!(format_size(1536), "1.5 KB");
    assert_eq!(format_size(5_242_880), "5.0 MB");
    assert_eq!(format_size(5_368_709_120), "5120.0 MB");
    for bytes in (1024..3_000_000u64).step_by(1711) {
        let float = if bytes >= 1_048_576 {
            format!("{:.1} MB", bytes as f64 / 1_048_576.0)
        } else {
            format!("{:.1} KB", bytes as f64 / 1_024.0)
        };
        assert_eq!(format_size(bytes), float);
    }
    assert_eq!(
        list_lkgs(Some("  -1 2026-03-20 10:00:00  -1 lkg-a\n\n -1 x lkg-b\n")),
        vec!["  lkg-a", "  lkg-b"]
    );
    assert_eq!(list_lkgs(Some(" \n")), vec!["  (none)"]);
    assert_eq!(list_lkgs(None), vec!["  (none or not accessible)"]);
    assert_eq!(
        list_snapshots(Some("  2048 a b.sqlite\n\n   lonely\n x  c\n")),
        vec!["      2.0 KB  a b.sqlite", "  lonely", "         0 B  c"]
    );
    assert_eq!(
        list_cloud(None, Some("")),
        "\n=== Cloud LKG States ===\n  (none or not accessible)\n\n=== Cloud Snapshots ===\n  (none)\n\n"
    );
}

#[test]
fn restore_commands() {
    assert_eq!(words(list_command(true, "r", "/c")), "rclone lsd r:lkg/ --config /c");
    assert_eq!(words(list_command(false, "r", "/c")), "rclone ls r:snapshots/ --config /c");
    assert_eq!(words(hint_command("b:x", "/c")), "rclone cat b:x/RECOVERY-HINT.txt --config /c");
    assert_eq!(
        words(restore_lkg("l", "r", "/d", "/c")),
        "rclone copy r:lkg/l/ /d --config /c --progress"
    );
    assert_eq!(
        words(restore_snapshot("s", "r", "/d", "/c")),
        "rclone copyto r:snapshots/s /d --config /c --progress"
    );
    assert_eq!(restore_message(true, "LKG", "l"), "RESTORED: LKG 'l' from cloud");
    assert_eq!(
        restore_message(false, "snapshot", "s"),
        "ERROR: Failed to restore snapshot 's' from cloud"
    );
    assert!(is_database("a.sqlite") && !is_database("a.sqlite.tmp"));
    let listed: Vec<(String, EntryKind)> = ["b.sqlite", ".sqlite", "x.md", "a.sqlite"]
        .iter()
        .map(|n| (n.to_string(), EntryKind::File))
        .collect();
    assert_eq!(databases_in(&listed), vec!["b.sqlite", "a.sqlite"]);
    assert_eq!(
        integrity_report(true, &Ok("ok".into())),
        (true, "[OK] SQLite integrity check passed".to_string())
    );
    assert_eq!(
        integrity_report(true, &Ok("bad".into())),
        (false, "[WARN] SQLite integrity check: bad".to_string())
    );
    assert_eq!(
        integrity_report(false, &Err("e".into())).1,
        "[WARN] Cannot open SQLite file for integrity check: e"
    );
}

#[test]
fn the_base_remote_is_resolved() {
    let conf = "[other]\nremote = no\n[c]\ntype = crypt\nremote = b:x \n[d]\nremote = y\n";
    assert_eq!(resolve_base_remote(conf, "c").as_deref(), Some("b:x"));
    assert_eq!(resolve_base_remote(conf, "d").as_deref(), Some("y"));
    assert_eq!(resolve_base_remote(conf, "e"), None);
    assert_eq!(resolve_base_remote("[c]\nremote =\n[d]\nremote = y\n", "c"), None);
}

#[test]
fn the_crypt_section_is_read_back() {
    let old = "[outerclaw-base]\ntype = b2\n\n[outerclaw-crypt]\ntype = crypt\nremote = old\n[z]\na = 1\n";
    let new = append_crypt_section(old, "outerclaw-base:bucket", "pw");
    assert_eq!(
        resolve_base_remote(&new, "outerclaw-crypt").as_deref(),
        Some("outerclaw-base:bucket")
    );
    assert!(!new.contains("old"));
    assert!(new.contains("[z]\na = 1\n"));
    assert_eq!(
        append_crypt_section("", "b:x", "pw"),
        "\n[outerclaw-crypt]\ntype = crypt\nremote = b:x\npassword = pw\nfilename_encryption = off\ndirectory_name_encryption = false\n"
    );
}

#[test]
fn settings_are_read_back_and_leave_the_others() {
    let content = "A=1\nB=2\nA=3";
    assert_eq!(set_env_var(content, "A", "9"), "A=9\nB=2\nA=3\n");
    assert_eq!(set_env_var(content, "C", "9"), "A=1\nB=2\nA=3\nC=9\n");
    assert_eq!(set_env_var("", "C", "9"), "C=9\n");
    let env = parse_env_file(&set_env_var("B=2\n", "C", "9"));
    assert_eq!(env.get("C"), Some("9"));
    assert_eq!(env.get("B"), Some("2"));
}

#[test]
fn the_env_file_enables_the_sync() {
    let new = update_env_file("GATEWAY_PORT=1\n");
    assert_eq!(
        new,
        "GATEWAY_PORT=1\n# Cloud backup (configured by cloud-setup)\nCLOUD_ENABLED=true\nCLOUD_REMOTE=outerclaw-crypt\nCLOUD_BANDWIDTH=0\n"
    );
    assert_eq!(update_env_file(&new), new);
    let kept = update_env_file("CLOUD_ENABLED=false\nCLOUD_BANDWIDTH=7\n");
    let env = parse_env_file(&kept);
    assert_eq!(env.get("CLOUD_ENABLED"), Some("true"));
    assert_eq!(env.get("CLOUD_BANDWIDTH"), Some("7"));
}

#[test]
fn sync_is_enabled_only_after_a_passed_test() {
    for (event, action) in [
        (Event::Root(true), Action::CheckRclone),
        (Event::Rclone(true), Action::ChooseProvider),
        (Event::Chosen(true), Action::MakeConfigDir),
        (Event::ConfigDir(true), Action::Configure),
        (Event::Configured(true), Action::ReadPassword),
        (Event::Password { read: true, empty: false }, Action::Obscure),
        (Event::Obscured(true), Action::WriteCrypt),
        (Event::CryptWritten(true), Action::ReadHint),
        (Event::HintRead, Action::TestConnection),
        (Event::Tested { passed: true, hint: true }, Action::UploadHint),
        (Event::Tested { passed: true, hint: false }, Action::UpdateEnv),
        (Event::HintUploaded, Action::UpdateEnv),
        (Event::EnvUpdated(true), Action::EnableTimer),
        (Event::TimerEnabled, Action::Finish),
        (Event::Tested { passed: false, hint: true }, Action::Fail),
        (Event::Password { read: true, empty: true }, Action::Fail),
        (Event::EnvUpdated(false), Action::Fail),
    ] {
        assert_eq!(setup::run(event), action);
    }
    assert_eq!(test_connection(false, false, &vec![], &vec![]), TestOutcome::UploadFailed);
    assert_eq!(test_connection(true, false, &vec![], &vec![]), TestOutcome::DownloadFailed);
    assert_eq!(test_connection(true, true, &vec![1], &vec![2]), TestOutcome::Mismatch);
    assert_eq!(test_connection(true, true, &vec![1], &vec![1]), TestOutcome::Passed);
}

#[test]
fn providers_and_their_configurations() {
    assert_eq!(provider(0), Some(Provider::CloudflareR2));
    assert_eq!(provider(4), Some(Provider::Existing));
    assert_eq!(provider(5), None);
    assert_eq!(
        setup_cloudflare_r2("acc", "key", "sec"),
        "[outerclaw-base]\ntype = s3\nprovider = Cloudflare\naccess_key_id = key\nsecret_access_key = sec\nendpoint = https://acc.r2.cloudflarestorage.com\nacl = private\nno_check_bucket = true\nregion = auto\n"
    );
    assert_eq!(
        setup_backblaze_b2("id", "k"),
        "[outerclaw-base]\ntype = b2\naccount = id\nkey = k\n"
    );
    assert_eq!(
        setup_aws_s3("key", "sec", "eu"),
        "[outerclaw-base]\ntype = s3\nprovider = AWS\naccess_key_id = key\nsecret_access_key = sec\nregion = eu\nacl = private\n"
    );
    assert!(matches!(setup_existing(true, true), ExistingConfig::Ours));
    assert!(matches!(setup_existing(false, true), ExistingConfig::Copy));
    assert!(matches!(setup_existing(false, false), ExistingConfig::Missing));
    assert_eq!(user_config_path("me"), "/home/me/.config/rclone/rclone.conf");
    assert_eq!(check_rclone(Some("rclone v1\nx")), "rclone v1");
    assert_eq!(check_rclone(Some("")), "unknown");
    assert_eq!(check_rclone(None), "unknown");
    assert_eq!(remote_path("r", "p"), "r:p");
    assert_eq!(rclone_obscure(" abc\n").as_deref(), Some("abc"));
    assert_eq!(rclone_obscure("\n"), None);
    assert_eq!(test_content("T"), "OuterClaw cloud test T");
    assert_eq!(words(copy_command("/a", "r:b", "/c")), "rclone copyto /a r:b --config /c");
    assert!(upload_recovery_hint("T", "h", "cat").contains("Hostname: h\n\nPassword hint: cat\n\n"));
    assert!(upload_recovery_hint("T", "h", "cat").ends_with(
        "machine:\n1. Install rclone: curl -fsSL https://rclone.org/install.sh | bash\n2. Run: sudo outerclaw cloud setup\n- Choose the same provider and bucket\n- Enter the password from your hint above\n3. Run: sudo outerclaw cloud restore --list\n"
    ));
}
