use outerclaw::cli::SnapshotArgs;
use outerclaw::platform::ServiceActive;
use outerclaw::vault::auto_recover::{
    self, emergency_dir, failed_message, inactive_message, recovered_message, validated_message,
    Lkg, Restored,
};
use outerclaw::vault::healthcheck::{
    self, check_service, read_memory_current, read_restart_count,
};
use outerclaw::vault::io_pressure::{self, Pressure};
use outerclaw::vault::log::{log_line, log_section, LocalTime};
use outerclaw::vault::names::{is_main_snapshot, is_snapshot_of};
use outerclaw::vault::postmortem::{
    cgroup_dir, cmdline_text, collected_alert, collected_properties, count_targets,
    descriptor_texts, dmesg_text, environ_text, generate_summary, get_main_pid, is_valid_unit_name,
    journal_command, mentions_oom, outcome, prune_postmortems, redact_secrets, run as postmortem_dir,
    socket_text, status_text, systemctl_show_properties, unavailable_text, Collected,
    MAX_POSTMORTEMS,
};
use outerclaw::vault::pre_start_check::{self, count_table_rows, Presence, SourceFacts};
use outerclaw::vault::promote_lkg::{
    self, manifest_entries, not_active_message, prune_lkgs, regression_messages, uptime_message,
    verify_entry, verify_manifest, Found, ManifestCheck, Uptime, MAX_LKGS,
};
use outerclaw::vault::quota::{
    check, dir_size_mb, emergency_prune, prune_sorted_entries, recheck,
};
use outerclaw::vault::retention::{Entry, EntryKind};
use outerclaw::vault::rollback::{
    self, list_available_lkgs, lkg_path, rollback_alert, show_plan, show_report, LkgContent,
    LkgDatabase,
};
use outerclaw::vault::snapshot;
use outerclaw::vault::snapshot_files::{
    self, bundle_warning, copy_plan, copy_warning, format_size, generate_manifest,
    prune_file_snapshots,
    run_files, snapshot_dir, success_message as files_message, wait_stable, CopyKind,
    Action as FilesAction, Event as FilesEvent, MAX_SNAPSHOTS,
};
use outerclaw::vault::snapshot_sqlite::{
    self, count_chunks, detect_drop, drop_warning, find_latest_files_snapshot,
    find_latest_snapshot, find_latest_snapshot_by_label, hash_line, is_required,
    judge_integrity,
    prune_sqlite_snapshots, run_sqlite, sha256_file, snapshot_paths, sqlite_sources,
    success_message as sqlite_message, vacuum_sql, Integrity,
};

fn words(c: outerclaw::platform::command::CommandLine) -> String {
    let mut all = vec![c.program];
    all.extend(c.args);
    all.join(" ")
}

fn entry(name: &str, kind: EntryKind) -> Entry {
    (name.to_string(), kind)
}

// ── Quota and retention ───────────────────────────────────────────────

#[test]
fn test_check_under_limit() {
    // 2048 MB limit, tiny file should be well under
    assert!(check(dir_size_mb(2), 2048).is_none());
}

#[test]
fn a_full_vault_is_pruned_and_checked_again() {
    assert!(check(2048, 2048).is_none());
    assert_eq!(
        check(2049, 2048).as_deref(),
        Some("WARNING: Vault at 2049MB / 2048MB -- attempting emergency prune")
    );
    assert_eq!(
        recheck(2048, 2048),
        (true, "OK: Emergency prune freed space, now 2048MB / 2048MB".to_string())
    );
    assert_eq!(
        recheck(3000, 2048),
        (
            false,
            "FAIL: Vault still at 3000MB after emergency prune (limit: 2048MB)".to_string()
        )
    );
    let plan: Vec<_> = emergency_prune()
        .iter()
        .map(|r| (r.subdir, r.prefix, r.keep, r.is_dir))
        .collect();
    assert_eq!(
        plan,
        vec![
            ("snapshots", "main-", 48, false),
            ("snapshots", "files-", 48, true),
            ("postmortem", "", 10, true),
            ("lkg", "lkg-", 5, true),
        ]
    );
}

#[test]
fn test_prune_sorted_entries_files() {
    // Create 10 files
    let entries: Vec<Entry> =
        (0..10).map(|i| (format!("main-{i:04}.sqlite"), EntryKind::File)).collect();
    let gone = prune_sorted_entries(&entries, "main-", 3, false);
    let remaining: Vec<_> = entries.iter().filter(|e| !gone.contains(&e.0)).collect();
    assert_eq!(remaining.len(), 3);
    assert_eq!(remaining[0].0, "main-0007.sqlite");
}

#[test]
fn test_prune_sorted_entries_dirs() {
    let entries: Vec<Entry> = (0..10).map(|i| (format!("lkg-{i:04}"), EntryKind::Dir)).collect();
    let gone = prune_sorted_entries(&entries, "lkg-", 5, true);
    assert_eq!(entries.iter().filter(|e| !gone.contains(&e.0)).count(), 5);
}

#[test]
fn pruning_leaves_other_entries_alone() {
    let entries = vec![
        entry("main-1.sqlite", EntryKind::File),
        entry("main-2.sqlite", EntryKind::Dir),
        entry("main-3.sqlite", EntryKind::Other),
        entry("files-1", EntryKind::Dir),
        entry("main-0.sqlite", EntryKind::File),
    ];
    assert_eq!(
        prune_sorted_entries(&entries, "main-", 0, false),
        vec!["main-1.sqlite", "main-0.sqlite"]
    );
    assert_eq!(prune_sorted_entries(&entries, "", 1, true), vec!["files-1"]);
    assert!(prune_sorted_entries(&entries, "main-", 2, false).is_empty());
    assert!(prune_sorted_entries(&vec![], "", 0, true).is_empty());
}

#[test]
fn test_prune_file_snapshots() {
    // 100 fake snapshot dirs
    let entries: Vec<Entry> =
        (0..100).map(|i| (format!("files-20260101-{i:06}"), EntryKind::Dir)).collect();
    let gone = prune_file_snapshots(&entries);
    let remaining: Vec<_> = entries
        .iter()
        .filter(|e| e.0.starts_with("files-") && !gone.contains(&e.0))
        .collect();
    assert_eq!(remaining.len(), MAX_SNAPSHOTS);
    assert_eq!(gone[0], "files-20260101-000003");
}

#[test]
fn the_newest_of_each_kind_are_kept() {
    let mut entries: Vec<Entry> =
        (0..98).map(|i| (format!("main-{i:03}.sqlite"), EntryKind::File)).collect();
    entries.push(entry("main-999.sqlite.tmp", EntryKind::File));
    assert_eq!(
        prune_sqlite_snapshots(&entries),
        vec!["main-001.sqlite", "main-000.sqlite"]
    );
    let lkgs: Vec<Entry> = (0..12).map(|i| (format!("lkg-{i:02}"), EntryKind::Dir)).collect();
    assert_eq!(prune_lkgs(&lkgs, MAX_LKGS), vec!["lkg-01", "lkg-00"]);
    assert!(prune_lkgs(&lkgs, 12).is_empty());
    let pms: Vec<Entry> = (0..21).map(|i| (format!("{i:02}-x"), EntryKind::Dir)).collect();
    assert_eq!(prune_postmortems(&pms), vec!["00-x"]);
    assert_eq!(MAX_POSTMORTEMS, 20);
    assert_eq!(
        list_available_lkgs(&lkgs[..3].to_vec()),
        vec!["lkg-02", "lkg-01", "lkg-00"]
    );
}

#[test]
fn the_latest_snapshot_is_the_last_by_name() {
    let entries = vec![
        entry("main-2.sqlite", EntryKind::File),
        entry("main-9.sqlite.tmp", EntryKind::File),
        entry("main-1.sqlite", EntryKind::File),
        entry("files-3", EntryKind::File),
        entry("files-2", EntryKind::Dir),
        entry("runs-7.sqlite", EntryKind::File),
        entry("runs-5.sqlite", EntryKind::File),
        entry("runs-9.sqlite.tmp", EntryKind::File),
    ];
    assert_eq!(find_latest_snapshot(&entries).as_deref(), Some("main-2.sqlite"));
    assert_eq!(find_latest_files_snapshot(&entries).as_deref(), Some("files-2"));
    assert_eq!(
        find_latest_snapshot_by_label(&entries, "runs").as_deref(),
        Some("runs-7.sqlite")
    );
    assert_eq!(find_latest_snapshot_by_label(&entries, "none"), None);
    assert_eq!(find_latest_snapshot(&vec![]), None);
    assert!(is_main_snapshot("main-.sqlite") && !is_main_snapshot("main-1.sqlite.tmp"));
    assert!(is_snapshot_of("runs", "runs-1.sqlite") && !is_snapshot_of("run", "runs-1.sqlite"));
}

// ── Snapshots ─────────────────────────────────────────────────────────

#[test]
fn test_format_size() {
    assert_eq!(format_size(0), "0B");
    assert_eq!(format_size(1024), "1.0K");
    assert_eq!(format_size(2_097_152), "2.0M");
}

#[test]
fn sizes_are_rounded_like_floats() {
    let float = |bytes: u64| {
        if bytes >= 1_073_741_824 {
            format!("{:.1}G", bytes as f64 / 1_073_741_824.0)
        } else if bytes >= 1_048_576 {
            format!("{:.1}M", bytes as f64 / 1_048_576.0)
        } else if bytes >= 1024 {
            format!("{:.1}K", bytes as f64 / 1024.0)
        } else {
            format!("{bytes}B")
        }
    };
    for bytes in (0..200_000).step_by(7) {
        assert_eq!(format_size(bytes), float(bytes));
    }
    // Ties at a quarter and three quarters, and sizes that a float rounds.
    for base in [1024u64, 1_048_576, 1_073_741_824] {
        for k in 0..80 {
            let bytes = base + base / 20 * k;
            assert_eq!(format_size(bytes), float(bytes));
            assert_eq!(format_size(base + base / 4 * k), float(base + base / 4 * k));
        }
    }
    for shift in 53..64 {
        for d in [0u64, 1, 2, 3, 511, 512, 513, 1023, 1024, 1025] {
            let bytes = (1u64 << shift) - 1 + d;
            assert_eq!(format_size(bytes), float(bytes));
        }
    }
    assert_eq!(format_size(u64::MAX), float(u64::MAX));
}

#[test]
fn test_timestamp_local_format() {
    let ts = LocalTime { year: 2026, month: 1, day: 2, hour: 3, minute: 4, second: 5 }
        .timestamp_str();
    assert_eq!(ts.len(), 15);
    assert_eq!(&ts[8..9], "-");
    assert_eq!(ts, "20260102-030405");
}

#[test]
fn log_lines() {
    assert_eq!(log_line("T", "m"), "[T] m\n");
    assert_eq!(log_section("T", "QUOTA", "m"), "[T] QUOTA: m\n");
}

#[test]
fn digests_are_those_of_sha256() {
    assert_eq!(
        sha256_file(b""),
        "e3b0c44298fc1c149afbf4c8996fb92427ae41e4649b934ca495991b7852b855"
    );
    assert_eq!(
        sha256_file(b"abc"),
        "ba7816bf8f01cfea414140de5dae2223b00361a396177a9cb410ff61f20015ad"
    );
}

#[test]
fn test_generate_manifest() {
    let files = vec![
        ("file1.txt".to_string(), b"hello".to_vec()),
        ("file2.txt".to_string(), b"world".to_vec()),
        ("MANIFEST.sha256".to_string(), b"old".to_vec()),
    ];
    let manifest = generate_manifest(&files);
    assert!(manifest.contains("file1.txt"));
    assert!(manifest.contains("file2.txt"));
    // Should not contain MANIFEST.sha256 itself
    assert!(!manifest.contains("MANIFEST.sha256"));
    // Each line should have hash + two-space separator + filename
    for line in manifest.trim().lines() {
        let parts: Vec<&str> = line.splitn(2, "  ").collect();
        assert_eq!(parts.len(), 2);
        assert_eq!(parts[0].len(), 64); // SHA-256 hex = 64 chars
    }
    let mut sorted: Vec<&str> = manifest.lines().collect();
    sorted.sort();
    assert_eq!(manifest, sorted.join("\n") + "\n");
    assert_eq!(generate_manifest(&vec![]), "\n");
}

#[test]
fn a_manifest_verifies_the_files_it_was_made_of() {
    let files = vec![
        ("b.txt".to_string(), b"world".to_vec()),
        ("sub/a.txt".to_string(), b"hello".to_vec()),
    ];
    let entries = manifest_entries(&generate_manifest(&files));
    let found: Vec<Found> = entries
        .iter()
        .map(|(_, path)| Found::Data(files.iter().find(|f| f.0 == *path).unwrap().1.clone()))
        .collect();
    assert_eq!(verify_manifest(&entries, &found), Ok(()));
    let changed: Vec<Found> = entries.iter().map(|_| Found::Data(b"x".to_vec())).collect();
    assert!(verify_manifest(&entries, &changed).unwrap_err().starts_with("Hash mismatch for "));
}

#[test]
fn manifests_are_read_with_care() {
    let text = "# comment\n\n  aa  one two \nbb\tthree\nlonely\ncc MANIFEST.sha256\n";
    assert_eq!(
        manifest_entries(text),
        vec![
            ("aa".to_string(), "one two".to_string()),
            ("bb".to_string(), "three".to_string()),
        ]
    );
    assert_eq!(
        verify_entry("aa", "f", &Found::Missing),
        Err("File from manifest missing: f".to_string())
    );
    assert_eq!(
        verify_entry("aa", "f", &Found::Unreadable("no".into())),
        Err("no".to_string())
    );
    assert_eq!(
        verify_entry("aa", "f", &Found::Data(b"abc".to_vec())),
        Err("Hash mismatch for f: expected aa, got \
             ba7816bf8f01cfea414140de5dae2223b00361a396177a9cb410ff61f20015ad"
            .to_string())
    );
}

#[test]
fn the_flags_choose_the_parts() {
    let parts = |sqlite_only, files_only| snapshot::parts(&SnapshotArgs { sqlite_only, files_only });
    assert_eq!(parts(false, false), (true, true));
    assert_eq!(parts(true, false), (true, false));
    assert_eq!(parts(false, true), (false, true));
    assert_eq!(parts(true, true), (false, false));
    assert_eq!(snapshot::run(Some(0), Some(1)), 1);
    assert_eq!(snapshot::run(Some(0), Some(0)), 0);
    assert_eq!(snapshot::run(None, None), 0);
    assert_eq!(snapshot::run(Some(2), Some(1)), 3);
}

#[test]
fn a_sound_snapshot_is_published() {
    use_sqlite_run(
        &[
            snapshot_sqlite::Event::Quota(true),
            snapshot_sqlite::Event::Source(true),
            snapshot_sqlite::Event::Dirs(true),
            snapshot_sqlite::Event::Vacuum(true),
            snapshot_sqlite::Event::Checked(Integrity::Sound),
            snapshot_sqlite::Event::Counted { rows: 40, previous: Some(100) },
            snapshot_sqlite::Event::Renamed(true),
            snapshot_sqlite::Event::Hashed(true),
        ],
        snapshot_sqlite::Action::Finish,
    );
}

fn use_sqlite_run(events: &[snapshot_sqlite::Event], last: snapshot_sqlite::Action) {
    let mut action = snapshot_sqlite::Action::CheckQuota;
    for e in events {
        action = run_sqlite(*e);
    }
    assert_eq!(action, last);
}

#[test]
fn an_unsound_snapshot_is_not_published() {
    assert_eq!(run_sqlite(snapshot_sqlite::Event::Quota(false)), snapshot_sqlite::Action::Skip);
    assert_eq!(run_sqlite(snapshot_sqlite::Event::Source(false)), snapshot_sqlite::Action::Fail { log: true, remove: false });
    assert_eq!(run_sqlite(snapshot_sqlite::Event::NotOpened), snapshot_sqlite::Action::Fail { log: false, remove: false });
    assert_eq!(run_sqlite(snapshot_sqlite::Event::Vacuum(false)), snapshot_sqlite::Action::Fail { log: false, remove: true });
    assert_eq!(
        run_sqlite(snapshot_sqlite::Event::Checked(Integrity::Damaged)),
        snapshot_sqlite::Action::Fail { log: true, remove: true }
    );
    assert_eq!(
        run_sqlite(snapshot_sqlite::Event::Checked(Integrity::Unread)),
        snapshot_sqlite::Action::Fail { log: false, remove: false }
    );
    assert_eq!(
        run_sqlite(snapshot_sqlite::Event::Counted { rows: 40, previous: Some(100) }),
        snapshot_sqlite::Action::Rename { empty: false, drop: Some(60) }
    );
    assert_eq!(
        run_sqlite(snapshot_sqlite::Event::Counted { rows: 0, previous: Some(100) }),
        snapshot_sqlite::Action::Rename { empty: true, drop: None }
    );
    assert_eq!(judge_integrity(Some("ok")), Integrity::Sound);
    assert_eq!(judge_integrity(Some("OK")), Integrity::Damaged);
    assert_eq!(judge_integrity(None), Integrity::Unread);
}

#[test]
fn row_drops_beyond_half_are_noticed() {
    assert_eq!(detect_drop(100, 49), Some(51));
    assert_eq!(detect_drop(100, 50), None);
    assert_eq!(detect_drop(100, 100), None);
    assert_eq!(detect_drop(100, 0), None);
    assert_eq!(detect_drop(0, 5), None);
    assert_eq!(detect_drop(1000, 495), None);
    assert_eq!(detect_drop(1000, 489), Some(51));
    assert_eq!(count_chunks(Some(7)), 7);
    assert_eq!(count_chunks(Some(-7)), 0);
    assert_eq!(count_chunks(None), 0);
    assert_eq!(
        drop_warning(60, 100, 40),
        "SQLite row count dropped 60% (100 -> 40). Possible data loss."
    );
}

#[test]
fn texts_of_a_sqlite_snapshot() {
    let (dst, tmp) = snapshot_paths("/v", "T");
    assert_eq!(dst, "/v/snapshots/main-T.sqlite");
    assert_eq!(tmp, "/v/snapshots/main-T.sqlite.tmp");
    assert_eq!(vacuum_sql("/x"), "VACUUM INTO '/x'");
    assert_eq!(hash_line("T", "abc", "/x"), "T abc /x\n");
    let sha = sha256_file(b"abc");
    assert_eq!(sqlite_message("/x", &sha, 2048, 7), "OK: /x (ba7816bf8f01cfea) size=2.0K rows=7");
    let sources = sqlite_sources();
    assert_eq!(sources[0].label, "main");
    assert_eq!(sources[0].rel_path, "memory/main.sqlite");
    assert_eq!(sources[0].count_table.as_deref(), Some("chunks"));
}

#[test]
fn file_snapshots() {
    assert_eq!(run_files(FilesEvent::Quota(true)), FilesAction::MakeDirs);
    assert_eq!(run_files(FilesEvent::Quota(false)), FilesAction::Skip);
    assert_eq!(run_files(FilesEvent::Dirs(false)), FilesAction::Fail);
    assert_eq!(run_files(FilesEvent::Copied), FilesAction::WriteManifest);
    assert_eq!(run_files(FilesEvent::Manifest(true)), FilesAction::Finish);
    assert_eq!(run_files(FilesEvent::Manifest(false)), FilesAction::Fail);
    assert_eq!(snapshot_dir("/v", "T"), "/v/snapshots/files-T");
    let plan: Vec<_> = copy_plan("/o", "/s")
        .into_iter()
        .map(|s| (s.kind, s.source, s.dest))
        .collect();
    assert_eq!(plan.len(), 5);
    assert_eq!(plan[0].0, CopyKind::StableFile);
    assert_eq!(plan[1].1, "/o/workspace/memory");
    assert_eq!(plan[3].2, "/s/config/exec-approvals.json");
    assert_eq!(plan[4].0, CopyKind::Bundle);
    assert_eq!(copy_warning("memory/", "e"), "WARNING: memory/ copy failed: e");
    assert_eq!(bundle_warning(true, "e"), "WARNING: git bundle failed: e");
    assert_eq!(bundle_warning(false, "e"), "WARNING: git not found or bundle failed: e");
    assert!(wait_stable(0, Some(1)) && wait_stable(9, None));
    assert!(!wait_stable(0, Some(2)) && !wait_stable(10, Some(0)));
    assert_eq!(files_message("/s", 3, 1536), "OK: /s (3 files, 1.5K)");
}

#[test]
fn pressure_fails_open() {
    assert!(io_pressure::check(Pressure::Unavailable));
    assert!(io_pressure::check(Pressure::Unreadable));
    assert!(io_pressure::check(Pressure::Below));
    assert!(!io_pressure::check(Pressure::Reached));
}

// ── Promotion ─────────────────────────────────────────────────────────

#[test]
fn a_promotion_needs_everything() {
    let active = Some(ServiceActive::Active);
    for (event, next) in [
        (promote_lkg::Event::Dirs(true), promote_lkg::Action::AskState),
        (promote_lkg::Event::State(active), promote_lkg::Action::AskUptime),
        (promote_lkg::Event::Uptime(Uptime::Secs(1800)), promote_lkg::Action::CheckHealth),
        (promote_lkg::Event::Uptime(Uptime::Unknown), promote_lkg::Action::CheckHealth),
        (promote_lkg::Event::Health(true), promote_lkg::Action::FindFiles),
        (promote_lkg::Event::Files(true), promote_lkg::Action::FindSource),
        (promote_lkg::Event::Source { found: true, required: true, last: false }, promote_lkg::Action::FindSource),
        (promote_lkg::Event::Source { found: false, required: false, last: true }, promote_lkg::Action::MakeDir),
        (promote_lkg::Event::DirMade(true), promote_lkg::Action::CopyNext),
        (promote_lkg::Event::Copied(true), promote_lkg::Action::CheckIntegrity),
        (promote_lkg::Event::Checked { integrity: Integrity::Sound, counted: true }, promote_lkg::Action::CountRows),
        (promote_lkg::Event::Checked { integrity: Integrity::Sound, counted: false }, promote_lkg::Action::CopyNext),
        (promote_lkg::Event::Rows { new_rows: 50, old_rows: Some(100) }, promote_lkg::Action::CopyNext),
        (promote_lkg::Event::Rows { new_rows: 1, old_rows: None }, promote_lkg::Action::CopyNext),
        (promote_lkg::Event::NoMore, promote_lkg::Action::CopyFiles),
        (promote_lkg::Event::FilesCopied, promote_lkg::Action::VerifyManifest),
        (promote_lkg::Event::Manifest(ManifestCheck::Absent), promote_lkg::Action::SwitchLink),
        (promote_lkg::Event::Manifest(ManifestCheck::Passed), promote_lkg::Action::SwitchLink),
        (promote_lkg::Event::Linked(true), promote_lkg::Action::Finish),
    ] {
        assert_eq!(promote_lkg::run(event), next);
    }
    let fail = |remove, log, alert| promote_lkg::Action::Fail { remove, log, alert };
    for (event, failure) in [
        (promote_lkg::Event::State(Some(ServiceActive::Failed)), fail(false, true, false)),
        (promote_lkg::Event::State(None), fail(false, false, false)),
        (promote_lkg::Event::Uptime(Uptime::Secs(1799)), fail(false, true, false)),
        (promote_lkg::Event::Health(false), fail(false, true, false)),
        (
            promote_lkg::Event::Source { found: false, required: true, last: false },
            fail(false, true, false),
        ),
        (promote_lkg::Event::Copied(false), fail(true, false, false)),
        (
            promote_lkg::Event::Checked { integrity: Integrity::Damaged, counted: true },
            fail(true, true, true),
        ),
        (promote_lkg::Event::Rows { new_rows: 49, old_rows: Some(100) }, fail(true, true, true)),
        (promote_lkg::Event::Manifest(ManifestCheck::Failed), fail(true, true, true)),
        (promote_lkg::Event::Linked(false), fail(false, false, false)),
    ] {
        assert_eq!(promote_lkg::run(event), failure);
    }
    assert_eq!(
        not_active_message(ServiceActive::Failed),
        "Gateway not active (state: failed), refusing LKG promotion"
    );
    assert_eq!(uptime_message(5), "Gateway uptime 5s < required 1800s");
    assert_eq!(
        regression_messages("main", 60, 100, 40),
        (
            "main row count regression 60% (100 -> 40)".to_string(),
            "LKG promotion REFUSED: main row count dropped 60% (100 -> 40)".to_string()
        )
    );
}

// ── Recovery and rollback ─────────────────────────────────────────────

#[test]
fn a_recovery_saves_before_it_restores() {
    let path = [
        (auto_recover::Event::AuditDir(true), auto_recover::Action::ResolveLkg),
        (auto_recover::Event::Resolved(Lkg::Present), auto_recover::Action::CheckIntegrity),
        (auto_recover::Event::Checked(Integrity::Sound), auto_recover::Action::StopGateway),
        (auto_recover::Event::Stopped, auto_recover::Action::MakeEmergencyDir),
        (auto_recover::Event::EmergencyDir(true), auto_recover::Action::SaveState),
        (auto_recover::Event::Saved, auto_recover::Action::RestoreDatabase),
        (auto_recover::Event::Database(Restored::Done), auto_recover::Action::RestoreMemoryFile),
        (auto_recover::Event::MemoryFile(Restored::Absent), auto_recover::Action::RestoreMemoryDir),
        (auto_recover::Event::MemoryDir(Restored::Done), auto_recover::Action::RestartGateway),
        (auto_recover::Event::Restarted(true), auto_recover::Action::AskState),
        (auto_recover::Event::State(ServiceActive::Active), auto_recover::Action::Finish),
    ];
    for (event, next) in path {
        assert_eq!(auto_recover::run(event), next);
    }
    for event in [
        auto_recover::Event::AuditDir(false),
        auto_recover::Event::Resolved(Lkg::Unresolved),
        auto_recover::Event::Resolved(Lkg::NotDirectory),
        auto_recover::Event::Resolved(Lkg::NoDatabase),
        auto_recover::Event::Checked(Integrity::Damaged),
        auto_recover::Event::Checked(Integrity::Unread),
        auto_recover::Event::EmergencyDir(false),
        auto_recover::Event::Database(Restored::Failed),
        auto_recover::Event::Restarted(false),
        auto_recover::Event::State(ServiceActive::Activating),
    ] {
        assert_eq!(auto_recover::run(event), auto_recover::Action::Fail);
    }
    assert_eq!(emergency_dir("/v", "T", "pre-rollback"), "/v/postmortem/T-pre-rollback");
    assert_eq!(validated_message("/l", 7), "LKG validated: /l (rows=7)");
    assert_eq!(
        recovered_message(Some("lkg-1"), "/e"),
        "Auto-recovered from LKG. Data rolled back to: lkg-1. Corrupt state saved: /e"
    );
    assert!(recovered_message(None, "/e").contains("to: unknown."));
    assert_eq!(
        inactive_message(ServiceActive::Failed),
        "Gateway still not active after LKG restore. Status: failed"
    );
    assert_eq!(
        failed_message("e"),
        "Auto-recovery FAILED: e. Manual intervention required."
    );
}

#[test]
fn a_rollback_needs_consent() {
    assert_eq!(rollback::run(rollback::Event::Confirmed(Some(true))), rollback::Action::StopGateway);
    assert_eq!(rollback::run(rollback::Event::Confirmed(Some(false))), rollback::Action::Abort);
    assert_eq!(rollback::run(rollback::Event::Confirmed(None)), rollback::Action::Fail);
    assert_eq!(rollback::run(rollback::Event::EmergencyDir(false)), rollback::Action::Fail);
    assert_eq!(rollback::run(rollback::Event::Saved), rollback::Action::RestoreNextDatabase);
    assert_eq!(rollback::run(rollback::Event::NoMore), rollback::Action::RestoreMemoryFile);
    assert_eq!(
        rollback::run(rollback::Event::MemoryDir { done: true, has_config: true }),
        rollback::Action::AskForConfig
    );
    assert_eq!(
        rollback::run(rollback::Event::MemoryDir { done: true, has_config: false }),
        rollback::Action::RestartGateway
    );
    assert_eq!(rollback::run(rollback::Event::ConfigWanted(true)), rollback::Action::RestoreConfig);
    assert_eq!(rollback::run(rollback::Event::State(ServiceActive::Failed)), rollback::Action::Finish);
    assert_eq!(lkg_path(None, "/v/lkg"), "/v/lkg/current");
    assert_eq!(lkg_path(Some("/x"), "/v/lkg"), "/x");
    assert_eq!(
        rollback_alert("/x", ServiceActive::Active),
        "ROLLBACK executed from /x. Gateway status: active"
    );
}

#[test]
fn the_rollback_plan_and_report() {
    let content = LkgContent {
        databases: vec![LkgDatabase {
            label: "main".into(),
            rel_path: "memory/main.sqlite".into(),
            size: Some(2048),
        }],
        memory_md: Some(None),
        memory_files: Some(3),
        config_files: None,
    };
    let bar = "=".repeat(64);
    assert_eq!(
        show_plan("/l", "/o", &content),
        format!(
            "\n{bar}\n                     ROLLBACK PLAN\n{bar}\n\nSource LKG: /l\n\nWill restore:\n  - SQLite[main]:    2.0K\n  - MEMORY.md:        ?\n  - memory/ dir:      3 files\n\nWill OVERWRITE:\n  -> /o/memory/main.sqlite\n  -> /o/workspace/MEMORY.md\n  -> /o/workspace/memory/\n\nWARNING: This will STOP the OpenClaw gateway during rollback.\n\n"
        )
    );
    assert_eq!(
        show_report("/l", ServiceActive::Active, "/e"),
        format!(
            "\n{bar}\n                   ROLLBACK COMPLETE\n{bar}\n\n  Restored from: /l\n  Gateway status: active\n  Pre-rollback backup: /e\n\n"
        )
    );
}

// ── Health check and pre-start validation ─────────────────────────────

#[test]
fn the_health_check() {
    assert!(check_service(ServiceActive::Active, "T").is_none());
    let (alert, state) = check_service(ServiceActive::Failed, "T").unwrap();
    assert_eq!(alert, "Gateway service not active (failed)");
    assert_eq!((state.timestamp.as_str(), state.http_code.as_str()), ("T", ""));
    let mib = 1024 * 1024;
    let (state, alerts) = healthcheck::run("T", false, Some(7169 * mib), 3, 2);
    assert_eq!(state.http_code, "000");
    assert_eq!(state.mem_current, (7169u64 * mib).to_string());
    assert_eq!(state.restarts, 3);
    assert_eq!(
        alerts,
        vec![
            "Gateway not responding to HTTP health check",
            "Gateway memory at 7169MB (limit: 8192MB)",
            "Gateway restarted (count: 3, was: 2)",
        ]
    );
    let (state, alerts) = healthcheck::run("T", true, Some(7169 * mib - 1), 2, 2);
    assert_eq!(state.http_code, "200");
    assert!(alerts.is_empty());
    assert_eq!(healthcheck::run("T", true, None, 0, 0).0.mem_current, "0");
    assert_eq!(read_memory_current(Some(" 12\n")), Some(12));
    assert_eq!(read_memory_current(Some("[not set]\n")), None);
    assert_eq!(read_memory_current(Some("")), None);
    assert_eq!(read_memory_current(None), None);
    assert_eq!(read_restart_count(Some("4\n")), 4);
    assert_eq!(read_restart_count(Some("x")), 0);
    assert_eq!(read_restart_count(None), 0);
}

fn facts(label: &str, presence: Presence, rows: Result<i64, String>) -> SourceFacts {
    SourceFacts {
        label: label.into(),
        path: format!("/o/{label}"),
        presence,
        integrity: Ok("ok".into()),
        count: Some(("chunks".into(), rows)),
    }
}

#[test]
fn the_pre_start_check() {
    let good = vec![facts("main", Presence::Present, Ok(5))];
    assert_eq!(
        pre_start_check::run(&good, "/o/workspace", true),
        (
            0,
            vec![
                "OK: main has 5 rows in chunks".to_string(),
                "OK: Pre-start validation passed (rows=5)".to_string()
            ]
        )
    );
    let blocked = "BLOCKED: Gateway start prevented due to validation failures".to_string();
    let (code, lines) = pre_start_check::run(&good, "/o/workspace", false);
    assert_eq!(code, 1);
    assert_eq!(lines[1], "FAIL: Workspace directory missing: /o/workspace");
    assert_eq!(lines[2], blocked);
    let bad = |f: SourceFacts| pre_start_check::run(&vec![f], "/w", true);
    let (code, lines) = bad(facts("main", Presence::NotFound, Ok(1)));
    assert_eq!((code, lines[0].as_str()), (1, "FAIL: main not found: /o/main"));
    let (code, lines) = bad(facts("runs", Presence::NotFound, Ok(1)));
    assert_eq!((code, lines[0].as_str()), (0, "OK: runs not present (optional): /o/runs"));
    assert_eq!(lines[1], "OK: Pre-start validation passed (rows=?)");
    let (code, lines) = bad(facts("main", Presence::Denied, Ok(1)));
    assert_eq!(code, 1);
    assert_eq!(
        lines[0],
        "FAIL: main access denied (likely ACL mask drift; run: sudo outerclaw deploy): /o/main"
    );
    let (_, lines) = bad(facts("main", Presence::Unknown("e".into()), Ok(1)));
    assert_eq!(lines[0], "FAIL: Cannot stat /o/main: e");
    let (code, lines) = bad(facts("main", Presence::Present, Ok(0)));
    assert_eq!(code, 0);
    assert_eq!(lines[0], "WARNING: main has 0 rows in chunks (may be fresh install)");
    let (code, lines) = bad(facts("main", Presence::Present, Err("e".into())));
    assert_eq!((code, lines[0].as_str()), (1, "FAIL: Cannot query chunks on main: e"));
    let mut damaged = facts("main", Presence::Present, Ok(1));
    damaged.integrity = Ok("row 3 missing".into());
    let (code, lines) = bad(damaged);
    assert_eq!(
        (code, lines[0].as_str()),
        (1, "FAIL: main integrity check failed: row 3 missing")
    );
    let mut closed = facts("main", Presence::Present, Ok(1));
    closed.integrity = Err("e".into());
    assert_eq!(bad(closed).1[0], "FAIL: Cannot open main for integrity check: e");
    assert_eq!(count_table_rows("a_1"), Ok("SELECT COUNT(*) FROM a_1;".to_string()));
    assert_eq!(count_table_rows("a;b"), Err("invalid table name: a;b".to_string()));
}

// ── Postmortem ────────────────────────────────────────────────────────

#[test]
fn test_valid_unit_name() {
    assert!(is_valid_unit_name("openclaw-gateway"));
    assert!(is_valid_unit_name("oc-outerclaw.service"));
    assert!(is_valid_unit_name("my_unit"));
    assert!(!is_valid_unit_name(""));
    assert!(!is_valid_unit_name("bad;name"));
    assert!(!is_valid_unit_name("../traversal"));
    assert!(!is_valid_unit_name("has space"));
}

#[test]
fn test_redact_secrets() {
    let input = "HOME=/home/user\nAPI_TOKEN=secret123\nPATH=/usr/bin\nDB_PASSWORD=hunter2\n";
    let redacted = redact_secrets(input);
    assert!(redacted.contains("HOME=/home/user"));
    assert!(redacted.contains("API_TOKEN=<REDACTED>"));
    assert!(redacted.contains("PATH=/usr/bin"));
    assert!(redacted.contains("DB_PASSWORD=<REDACTED>"));
    assert!(!redacted.contains("secret123"));
    assert!(!redacted.contains("hunter2"));
}

#[test]
fn test_redact_case_insensitive() {
    let input = "my_secret=abc\nMY_SECRET=def\nMy_Token=ghi\n";
    let redacted = redact_secrets(input);
    assert!(redacted.contains("my_secret=<REDACTED>"));
    assert!(redacted.contains("MY_SECRET=<REDACTED>"));
    assert!(redacted.contains("My_Token=<REDACTED>"));
}

#[test]
fn redaction_of_odd_lines() {
    assert_eq!(redact_secrets("TOKEN\nA=TOKEN=1\nTOKEN=a=b"), "TOKEN\nA=TOKEN=1\nTOKEN=<REDACTED>\n");
    // The upper case of a key may hold more letters than the key.
    assert_eq!(redact_secrets("aſecret=1\n"), "aſecret=<REDACTED>\n");
    assert_eq!(redact_secrets(""), "");
    assert_eq!(environ_text(&b"A=1\0MY_KEY=2\0".to_vec()), "A=1\nMY_KEY=<REDACTED>\n");
    assert_eq!(cmdline_text(&b"node\0x\xe9\0".to_vec()), "node x\u{e9} ");
}

#[test]
fn postmortem_commands_and_paths() {
    assert_eq!(postmortem_dir("/v", "T", "u").as_deref(), Some("/v/postmortem/T-u"));
    assert_eq!(postmortem_dir("/v", "T", "a/b"), None);
    let said = |unit, error| outcome(unit, error);
    assert_eq!(said("u", None), (0, None));
    assert_eq!(
        said("bad;name", None),
        (0, Some("FATAL: Invalid unit name: 'bad;name'".to_string()))
    );
    assert_eq!(
        said("u", Some("full")),
        (0, Some("Cannot create postmortem dir: full".to_string()))
    );
    assert_eq!(collected_properties().len(), 14);
    assert_eq!(
        words(systemctl_show_properties("u.service", &vec!["A".into(), "B".into()])),
        "systemctl show u.service --property=A,B"
    );
    assert_eq!(
        words(journal_command("u", false)),
        "journalctl -u u -n 200 --no-pager --output=short-iso"
    );
    assert_eq!(
        words(journal_command("u", true)),
        "journalctl -u u -n 50 --no-pager -p err --output=short-iso"
    );
    assert_eq!(get_main_pid(" 7\n"), Some(7));
    assert_eq!(get_main_pid("0"), None);
    assert_eq!(get_main_pid(""), None);
    assert_eq!(
        collected_alert("u", None, "/d"),
        "Post-mortem collected for u (PID 0). Path: /d"
    );
    assert_eq!(cgroup_dir("0::/a/b\n").as_deref(), Some("/sys/fs/cgroup/a/b"));
    assert_eq!(cgroup_dir("0::/a:b").as_deref(), Some("/sys/fs/cgroup/a:b"));
    assert_eq!(cgroup_dir("0::/../b"), None);
    assert_eq!(cgroup_dir("0::"), None);
    assert_eq!(cgroup_dir(""), None);
}

#[test]
fn open_files_are_counted() {
    let d = |fd: &str, target: Option<&str>| (fd.to_string(), target.map(|t| t.to_string()));
    let ds = vec![
        d("/fd/0", Some("b")),
        d("/fd/1", Some("a")),
        d("/fd/2", Some("b")),
        d("/fd/3", None),
    ];
    let (list, count, targets) = descriptor_texts(&ds);
    assert_eq!(list, "/fd/0 -> b\n/fd/1 -> a\n/fd/2 -> b\n/fd/3 -> ?\n");
    assert_eq!(count, "4\n");
    assert_eq!(targets, "     2 b\n     1 ?\n     1 a\n");
    let tallies = count_targets(&vec!["x".into(), "y".into(), "x".into()]);
    assert_eq!(tallies, vec![(2, "x".to_string()), (1, "y".to_string())]);
    assert_eq!(
        socket_text(7, "a pid=7,\nb pid=8\n", "c pid=71\nd\n"),
        "a pid=7,\nc pid=71\n"
    );
}

#[test]
fn texts_of_a_postmortem() {
    assert_eq!(
        status_text(7, "x"),
        "PID 7 still alive, collecting /proc data...\n\nx"
    );
    assert!(unavailable_text(0, false).starts_with("PID unknown not available"));
    assert!(unavailable_text(5, true).ends_with("04-proc-last-known-snapshot.json\n"));
    assert_eq!(dmesg_text("recent\n", "all"), "recent\n");
    let many: Vec<String> = (0..150).map(|i| i.to_string()).collect();
    assert_eq!(dmesg_text(" \n", &many.join("\n")), many[50..].join("\n"));
    assert!(mentions_oom("an oom event") && mentions_oom("killed process 7"));
    assert!(!mentions_oom("all is well"));
}

#[test]
fn the_summary() {
    let files = vec![("b".to_string(), 5), ("a".to_string(), 12)];
    let c = Collected {
        unit: "u",
        ts: "T",
        pid: None,
        dir: "/d",
        systemd_state: "Result=oom\nFoo=1\nNRestarts=2\n",
        errors: "1\n2\n3\n4\n5\n6\n",
        dmesg: "fine\nOut Of Memory: x\n",
        proc_status: None,
        snapshot: Some("{\"fd_count\":3,\"pid\":7,\"VmRSS\":\"1 kB\"}"),
        files: &files,
    };
    let bar = "=".repeat(64);
    assert_eq!(
        generate_summary(&c),
        format!(
            "{bar}\n            POST-MORTEM REPORT\n{bar}\n\nUnit:      u.service\nTimestamp: T\nPID:       unknown\nDirectory: /d\n\n-- Systemd Result --\nResult=oom\nNRestarts=2\n\n-- Last 5 Errors --\n2\n3\n4\n5\n6\n\n-- OOM Killer --\nOut Of Memory: x\n\n-- Memory at Death --\nVmRSS: \"1 kB\"\nfd_count: 3\n\n-- Files Collected --\n           5  b\n          12  a\n"
        )
    );
    let none = vec![];
    let bare = Collected {
        pid: Some(4),
        systemd_state: "",
        errors: "",
        dmesg: "",
        proc_status: Some("VmRSS: 1\nName: x\nThreads: 2\n"),
        files: &none,
        ..c
    };
    let text = generate_summary(&bare);
    assert!(text.contains("PID:       4\n"));
    assert!(text.contains("(not available)\n"));
    assert!(text.contains("(no errors captured)\n"));
    assert!(text.contains("(no OOM events)\n"));
    assert!(text.contains("-- Memory at Death --\nVmRSS: 1\nThreads: 2\n\n"));
}

#[test]
fn only_the_main_database_is_required() {
    assert!(is_required("main") && !is_required("tasks"));
    assert_eq!(
        promote_lkg::source_event("main", false, 0),
        promote_lkg::Event::Source { found: false, required: true, last: true }
    );
    assert_eq!(
        promote_lkg::source_event("tasks", true, 2),
        promote_lkg::Event::Source { found: true, required: false, last: false }
    );
}

#[test]
fn exit_codes() {
    let failed = promote_lkg::Action::Fail { remove: true, log: true, alert: true };
    assert_eq!(promote_lkg::exit_code(failed), 1);
    assert_eq!(promote_lkg::exit_code(promote_lkg::Action::Finish), 0);
    assert_eq!(auto_recover::exit_code(auto_recover::Action::Fail), 1);
    assert_eq!(auto_recover::exit_code(auto_recover::Action::Finish), 0);
    assert_eq!(rollback::exit_code(rollback::Action::Fail), 1);
    assert_eq!(rollback::exit_code(rollback::Action::Abort), 0);
    let failed = snapshot_sqlite::Action::Fail { log: true, remove: true };
    assert_eq!(snapshot_sqlite::exit_code(failed), 1);
    assert_eq!(snapshot_sqlite::exit_code(snapshot_sqlite::Action::Skip), 0);
    assert_eq!(snapshot_files::exit_code(snapshot_files::Action::Fail), 1);
    assert_eq!(snapshot_files::exit_code(snapshot_files::Action::Finish), 0);
    assert_eq!(healthcheck::exit_code(ServiceActive::Active), 0);
    assert_eq!(healthcheck::exit_code(ServiceActive::Failed), 1);
}
