use outerclaw::setup::runit::{
    all_services, healthcheck_run, lkg_promote_run, outerclaw_log_run, outerclaw_run, snapshot_run,
    SERVICE_NAMES,
};

#[test]
fn test_outerclaw_run_content() {
    let content = outerclaw_run();
    assert!(content.starts_with("#!/bin/sh"));
    assert!(content.contains("/var/lib/outerclaw/bin/outerclaw"));
    assert!(content.contains("exec chpst -u outerclaw:outerclaw"));
    assert!(content.contains("daemon"));
}

#[test]
fn test_outerclaw_log_run_content() {
    let content = outerclaw_log_run();
    assert!(content.starts_with("#!/bin/sh"));
    assert!(content.contains("svlogd"));
    assert!(content.contains("runit-daemon"));
}

#[test]
fn test_snapshot_run_content() {
    let content = snapshot_run();
    assert!(content.starts_with("#!/bin/sh"));
    assert!(content.contains("snapshot --sqlite-only"));
    assert!(content.contains("snapshot --files-only"));
    assert!(content.contains("sleep 1800"));
}

#[test]
fn test_healthcheck_run_content() {
    let content = healthcheck_run();
    assert!(content.starts_with("#!/bin/sh"));
    assert!(content.contains("healthcheck"));
    assert!(content.contains("sleep 120"));
}

#[test]
fn test_lkg_promote_run_content() {
    let content = lkg_promote_run();
    assert!(content.starts_with("#!/bin/sh"));
    assert!(content.contains("promote-lkg"));
    assert!(content.contains("sleep 7200"));
}

#[test]
fn test_all_services_count() {
    let services = all_services();
    assert_eq!(services.len(), 4);
    assert_eq!(SERVICE_NAMES.len(), 4);
}

#[test]
fn test_only_daemon_has_log_run() {
    let services = all_services();
    for svc in &services {
        if svc.name == "oc-outerclaw" {
            assert!(svc.log_run_script.is_some(), "Daemon should have log/run");
        } else {
            assert!(
                svc.log_run_script.is_none(),
                "{} should not have log/run",
                svc.name
            );
        }
    }
}

#[test]
fn runit_test_no_source_or_eval() {
    // Security invariant: scripts must never use `source` or `eval`
    // on config files to prevent injection.
    for svc in all_services() {
        assert!(
            !svc.run_script.contains("source ")
                && !svc.run_script.contains(". /var/lib")
                && !svc.run_script.contains(". \""),
            "Found 'source' or '. /' in {} — use read loop instead",
            svc.name
        );
        assert!(
            !svc.run_script.contains("eval "),
            "Found 'eval' in {} — prohibited for security",
            svc.name
        );
    }
}

#[test]
fn runit_test_all_scripts_have_shebang() {
    for svc in all_services() {
        assert!(
            svc.run_script.starts_with("#!/bin/sh"),
            "Missing shebang in {}",
            svc.name
        );
        if let Some(ref log_run) = svc.log_run_script {
            assert!(
                log_run.starts_with("#!/bin/sh"),
                "Missing shebang in {}/log/run",
                svc.name
            );
        }
    }
}

#[test]
fn test_all_scripts_use_chpst() {
    // All run scripts (except log) should use chpst to drop privileges.
    for svc in all_services() {
        assert!(
            svc.run_script.contains("chpst -u outerclaw"),
            "{} should use chpst to run as outerclaw",
            svc.name
        );
    }
}
