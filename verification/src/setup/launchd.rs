//! macOS launchd plist templates for OuterClaw setup.
//!
//! Plists are installed to `/Library/LaunchDaemons/` and managed by launchctl.

use crate::setup::template::{fill, filled, marks};
use vstd::prelude::*;

verus! {

/// The binary.
pub const BIN: &'static str = "/usr/local/bin/outerclaw";

/// The vault.
pub const VAULT: &'static str = "/var/lib/outerclaw";

/// The env file.
pub const ENV_FILE: &'static str = "/var/lib/outerclaw/config/outerclaw.env";

/// The directory of the logs.
pub const LOG_DIR: &'static str = "/var/lib/outerclaw/audit";

/// What `daemon_plist` generates, with marks for the places.
pub const DAEMON_PLIST: &'static str = r#"<?xml version="1.0" encoding="UTF-8"?>
<!DOCTYPE plist PUBLIC "-//Apple//DTD PLIST 1.0//EN"
  "http://www.apple.com/DTDs/PropertyList-1.0.dtd">
<plist version="1.0">
<dict>
    <key>Label</key>
    <string>com.outerclaw.daemon</string>

    <key>ProgramArguments</key>
    <array>
        <string><<bin>></string>
        <string>daemon</string>
    </array>

    <key>UserName</key>
    <string>outerclaw</string>
    <key>GroupName</key>
    <string>staff</string>

    <key>WorkingDirectory</key>
    <string><<vault>></string>

    <key>EnvironmentVariables</key>
    <dict>
        <key>OUTERCLAW_ENV_FILE</key>
        <string><<env_file>></string>
    </dict>

    <key>RunAtLoad</key>
    <true/>

    <key>KeepAlive</key>
    <dict>
        <key>SuccessfulExit</key>
        <false/>
    </dict>

    <key>ThrottleInterval</key>
    <integer>10</integer>

    <key>StandardOutPath</key>
    <string><<log_dir>>/daemon-stdout.log</string>
    <key>StandardErrorPath</key>
    <string><<log_dir>>/daemon-stderr.log</string>

    <key>SoftResourceLimits</key>
    <dict>
        <key>NumberOfFiles</key>
        <integer>1024</integer>
    </dict>

    <key>HardResourceLimits</key>
    <dict>
        <key>NumberOfFiles</key>
        <integer>2048</integer>
    </dict>

    <key>ProcessType</key>
    <string>Standard</string>

    <key>LowPriorityIO</key>
    <false/>

    <key>Nice</key>
    <integer>-5</integer>
</dict>
</plist>
"#;

/// Generate the launchd plist for the OuterClaw watchdog daemon.
///
/// This is the primary daemon that monitors OpenClaw, manages the state
/// machine, handles auto-recovery, and provides the Telegram bot interface.
pub fn daemon_plist() -> (r: String)
    ensures
        r@ == plist(DAEMON_PLIST@),
{
    let m = vec![
        ("<<bin>>", BIN),
        ("<<vault>>", VAULT),
        ("<<env_file>>", ENV_FILE),
        ("<<log_dir>>", LOG_DIR),
    ];
    assert(marks(m@) =~= seq![
        ("<<bin>>"@, BIN@),
        ("<<vault>>"@, VAULT@),
        ("<<env_file>>"@, ENV_FILE@),
        ("<<log_dir>>"@, LOG_DIR@),
    ]);
    fill(DAEMON_PLIST, m)
}

/// What `snapshot_plist` generates, with marks for the places.
pub const SNAPSHOT_PLIST: &'static str = r#"<?xml version="1.0" encoding="UTF-8"?>
<!DOCTYPE plist PUBLIC "-//Apple//DTD PLIST 1.0//EN"
  "http://www.apple.com/DTDs/PropertyList-1.0.dtd">
<plist version="1.0">
<dict>
    <key>Label</key>
    <string>com.outerclaw.snapshot</string>

    <key>ProgramArguments</key>
    <array>
        <string>/bin/bash</string>
        <string>-c</string>
        <string><<bin>> snapshot --sqlite-only &amp;&amp; <<bin>> snapshot --files-only</string>
    </array>

    <key>UserName</key>
    <string>outerclaw</string>
    <key>GroupName</key>
    <string>staff</string>

    <key>WorkingDirectory</key>
    <string><<vault>></string>

    <key>EnvironmentVariables</key>
    <dict>
        <key>OUTERCLAW_ENV_FILE</key>
        <string><<env_file>></string>
    </dict>

    <key>StartInterval</key>
    <integer>1800</integer>

    <key>StandardOutPath</key>
    <string><<log_dir>>/snapshot-stdout.log</string>
    <key>StandardErrorPath</key>
    <string><<log_dir>>/snapshot-stderr.log</string>

    <key>Nice</key>
    <integer>15</integer>

    <key>LowPriorityIO</key>
    <true/>

    <key>ProcessType</key>
    <string>Background</string>
</dict>
</plist>
"#;

/// Generate the launchd plist for the snapshot timer (30-minute interval).
///
/// Runs both SQLite and file snapshots as separate invocations.
pub fn snapshot_plist() -> (r: String)
    ensures
        r@ == plist(SNAPSHOT_PLIST@),
{
    let m = vec![
        ("<<bin>>", BIN),
        ("<<vault>>", VAULT),
        ("<<env_file>>", ENV_FILE),
        ("<<log_dir>>", LOG_DIR),
    ];
    assert(marks(m@) =~= seq![
        ("<<bin>>"@, BIN@),
        ("<<vault>>"@, VAULT@),
        ("<<env_file>>"@, ENV_FILE@),
        ("<<log_dir>>"@, LOG_DIR@),
    ]);
    fill(SNAPSHOT_PLIST, m)
}

/// What `healthcheck_plist` generates, with marks for the places.
pub const HEALTHCHECK_PLIST: &'static str = r#"<?xml version="1.0" encoding="UTF-8"?>
<!DOCTYPE plist PUBLIC "-//Apple//DTD PLIST 1.0//EN"
  "http://www.apple.com/DTDs/PropertyList-1.0.dtd">
<plist version="1.0">
<dict>
    <key>Label</key>
    <string>com.outerclaw.healthcheck</string>

    <key>ProgramArguments</key>
    <array>
        <string><<bin>></string>
        <string>healthcheck</string>
    </array>

    <key>UserName</key>
    <string>outerclaw</string>
    <key>GroupName</key>
    <string>staff</string>

    <key>WorkingDirectory</key>
    <string><<vault>></string>

    <key>EnvironmentVariables</key>
    <dict>
        <key>OUTERCLAW_ENV_FILE</key>
        <string><<env_file>></string>
    </dict>

    <key>StartInterval</key>
    <integer>120</integer>

    <key>StandardOutPath</key>
    <string><<log_dir>>/healthcheck-stdout.log</string>
    <key>StandardErrorPath</key>
    <string><<log_dir>>/healthcheck-stderr.log</string>

    <key>ProcessType</key>
    <string>Background</string>
</dict>
</plist>
"#;

/// Generate the launchd plist for the health check timer (2-minute interval).
pub fn healthcheck_plist() -> (r: String)
    ensures
        r@ == plist(HEALTHCHECK_PLIST@),
{
    let m = vec![
        ("<<bin>>", BIN),
        ("<<vault>>", VAULT),
        ("<<env_file>>", ENV_FILE),
        ("<<log_dir>>", LOG_DIR),
    ];
    assert(marks(m@) =~= seq![
        ("<<bin>>"@, BIN@),
        ("<<vault>>"@, VAULT@),
        ("<<env_file>>"@, ENV_FILE@),
        ("<<log_dir>>"@, LOG_DIR@),
    ]);
    fill(HEALTHCHECK_PLIST, m)
}

/// What `lkg_promote_plist` generates, with marks for the places.
pub const LKG_PROMOTE_PLIST: &'static str = r#"<?xml version="1.0" encoding="UTF-8"?>
<!DOCTYPE plist PUBLIC "-//Apple//DTD PLIST 1.0//EN"
  "http://www.apple.com/DTDs/PropertyList-1.0.dtd">
<plist version="1.0">
<dict>
    <key>Label</key>
    <string>com.outerclaw.lkg-promote</string>

    <key>ProgramArguments</key>
    <array>
        <string><<bin>></string>
        <string>promote-lkg</string>
    </array>

    <key>UserName</key>
    <string>outerclaw</string>
    <key>GroupName</key>
    <string>staff</string>

    <key>WorkingDirectory</key>
    <string><<vault>></string>

    <key>EnvironmentVariables</key>
    <dict>
        <key>OUTERCLAW_ENV_FILE</key>
        <string><<env_file>></string>
    </dict>

    <key>StartInterval</key>
    <integer>7200</integer>

    <key>StandardOutPath</key>
    <string><<log_dir>>/lkg-promote-stdout.log</string>
    <key>StandardErrorPath</key>
    <string><<log_dir>>/lkg-promote-stderr.log</string>

    <key>Nice</key>
    <integer>15</integer>

    <key>LowPriorityIO</key>
    <true/>

    <key>ProcessType</key>
    <string>Background</string>
</dict>
</plist>
"#;

/// Generate the launchd plist for the LKG promotion timer (2-hour interval).
pub fn lkg_promote_plist() -> (r: String)
    ensures
        r@ == plist(LKG_PROMOTE_PLIST@),
{
    let m = vec![
        ("<<bin>>", BIN),
        ("<<vault>>", VAULT),
        ("<<env_file>>", ENV_FILE),
        ("<<log_dir>>", LOG_DIR),
    ];
    assert(marks(m@) =~= seq![
        ("<<bin>>"@, BIN@),
        ("<<vault>>"@, VAULT@),
        ("<<env_file>>"@, ENV_FILE@),
        ("<<log_dir>>"@, LOG_DIR@),
    ]);
    fill(LKG_PROMOTE_PLIST, m)
}

/// All launchd plist labels managed by OuterClaw.
pub const PLIST_LABELS: [&'static str; 4] = [
    "com.outerclaw.daemon",
    "com.outerclaw.snapshot",
    "com.outerclaw.healthcheck",
    "com.outerclaw.lkg-promote",
];

/// The text of a template in which the binary, the vault, the env file and the
/// directory of the logs are filled in.
pub open spec fn plist(t: Seq<char>) -> Seq<char> {
    filled(
        t,
        seq![
            ("<<bin>>"@, BIN@),
            ("<<vault>>"@, VAULT@),
            ("<<env_file>>"@, ENV_FILE@),
            ("<<log_dir>>"@, LOG_DIR@),
        ],
    )
}

/// Return (label, plist_content) pairs for all OuterClaw plists.
pub fn all_plists() -> (r: Vec<(&'static str, String)>)
    ensures
        r@.len() == 4,
        r@[0].0@ == "com.outerclaw.daemon"@ && r@[0].1@ == plist(DAEMON_PLIST@),
        r@[1].0@ == "com.outerclaw.snapshot"@ && r@[1].1@ == plist(SNAPSHOT_PLIST@),
        r@[2].0@ == "com.outerclaw.healthcheck"@ && r@[2].1@ == plist(HEALTHCHECK_PLIST@),
        r@[3].0@ == "com.outerclaw.lkg-promote"@ && r@[3].1@ == plist(LKG_PROMOTE_PLIST@),
{
    vec![
        ("com.outerclaw.daemon", daemon_plist()),
        ("com.outerclaw.snapshot", snapshot_plist()),
        ("com.outerclaw.healthcheck", healthcheck_plist()),
        ("com.outerclaw.lkg-promote", lkg_promote_plist()),
    ]
}

} // verus!
