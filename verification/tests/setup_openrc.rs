use outerclaw::setup::openrc::{
    all_initd_scripts, crontab_entries, healthcheck_initd, lkg_promote_initd, outerclaw_initd,
    snapshot_initd, SERVICE_NAMES,
};

#[test]
fn test_outerclaw_initd_content() {
    let content = outerclaw_initd();
    assert!(content.contains("#!/sbin/openrc-run"));
    assert!(content.contains("/var/lib/outerclaw/bin/outerclaw"));
    assert!(content.contains("command_args=\"daemon\""));
    assert!(content.contains("command_user=\"outerclaw:outerclaw\""));
    assert!(content.contains("command_background=\"yes\""));
    assert!(content.contains("respawn=\"yes\""));
    assert!(content.contains("respawn_delay=10"));
}

#[test]
fn test_snapshot_initd_content() {
    let content = snapshot_initd();
    assert!(content.contains("#!/sbin/openrc-run"));
    assert!(content.contains("snapshot --sqlite-only"));
    assert!(content.contains("snapshot --files-only"));
}

#[test]
fn test_healthcheck_initd_content() {
    let content = healthcheck_initd();
    assert!(content.contains("#!/sbin/openrc-run"));
    assert!(content.contains("healthcheck"));
}

#[test]
fn test_lkg_promote_initd_content() {
    let content = lkg_promote_initd();
    assert!(content.contains("#!/sbin/openrc-run"));
    assert!(content.contains("promote-lkg"));
    assert!(content.contains("after oc-snapshot"));
}

#[test]
fn test_crontab_entries() {
    let content = crontab_entries();
    assert!(content.contains("*/30 * * * *"));
    assert!(content.contains("*/2 * * * *"));
    assert!(content.contains("0 */2 * * *"));
    assert!(content.contains("outerclaw"));
}

#[test]
fn test_all_initd_scripts_count() {
    let scripts = all_initd_scripts();
    assert_eq!(scripts.len(), 4);
    assert_eq!(SERVICE_NAMES.len(), 4);
}

#[test]
fn openrc_test_all_scripts_have_shebang() {
    for (name, content) in all_initd_scripts() {
        assert!(
            content.starts_with("#!/sbin/openrc-run"),
            "Missing shebang in {name}"
        );
    }
}

#[test]
fn openrc_test_no_source_or_eval() {
    // Security invariant: scripts must never use shell `source` or `eval`
    // on config files to prevent injection.
    // Check each line individually to avoid false positives from words
    // like "Resource" which contain "source" as a substring.
    for (name, content) in all_initd_scripts() {
        for line in content.lines() {
            let trimmed = line.trim();
            assert!(
                !trimmed.starts_with("source ") && !trimmed.starts_with(". /"),
                "Found shell source in {name}: {trimmed}"
            );
            assert!(
                !trimmed.starts_with("eval "),
                "Found eval in {name}: {trimmed}"
            );
        }
    }
}
