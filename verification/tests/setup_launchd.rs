use outerclaw::setup::launchd::{
    all_plists, daemon_plist, healthcheck_plist, lkg_promote_plist, snapshot_plist, PLIST_LABELS,
};

#[test]
fn test_daemon_plist_content() {
    let content = daemon_plist();
    assert!(content.contains("com.outerclaw.daemon"));
    assert!(content.contains("/usr/local/bin/outerclaw"));
    assert!(content.contains("<string>daemon</string>"));
    assert!(content.contains("<key>KeepAlive</key>"));
    assert!(content.contains("<key>RunAtLoad</key>"));
    assert!(content.contains("outerclaw"));
}

#[test]
fn test_snapshot_plist_content() {
    let content = snapshot_plist();
    assert!(content.contains("com.outerclaw.snapshot"));
    assert!(content.contains("snapshot --sqlite-only"));
    assert!(content.contains("snapshot --files-only"));
    assert!(content.contains("<integer>1800</integer>"));
    assert!(content.contains("<key>LowPriorityIO</key>"));
}

#[test]
fn test_healthcheck_plist_content() {
    let content = healthcheck_plist();
    assert!(content.contains("com.outerclaw.healthcheck"));
    assert!(content.contains("<string>healthcheck</string>"));
    assert!(content.contains("<integer>120</integer>"));
}

#[test]
fn test_lkg_promote_plist_content() {
    let content = lkg_promote_plist();
    assert!(content.contains("com.outerclaw.lkg-promote"));
    assert!(content.contains("<string>promote-lkg</string>"));
    assert!(content.contains("<integer>7200</integer>"));
}

#[test]
fn test_all_plists_count() {
    let plists = all_plists();
    assert_eq!(plists.len(), 4);
    assert_eq!(PLIST_LABELS.len(), 4);
}

#[test]
fn test_plists_are_valid_xml_structure() {
    for (label, content) in all_plists() {
        assert!(
            content.contains("<?xml version=\"1.0\""),
            "Missing XML declaration in {label}"
        );
        assert!(
            content.contains("<!DOCTYPE plist"),
            "Missing DOCTYPE in {label}"
        );
        assert!(
            content.contains("<plist version=\"1.0\">"),
            "Missing plist root in {label}"
        );
        assert!(
            content.contains("</plist>"),
            "Missing closing plist tag in {label}"
        );
        assert!(
            content.contains(&format!("<string>{label}</string>")),
            "Label mismatch in {label}"
        );
    }
}
