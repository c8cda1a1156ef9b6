//! The arguments of the subcommands.

use vstd::prelude::*;

verus! {

pub struct SetupArgs {
    /// Lightweight mode: keep existing user, don't create ocagent
    pub lightweight: bool,
    /// Non-interactive mode with defaults
    pub yes: bool,
}

pub struct UninstallArgs {
    /// Skip confirmation prompt
    pub yes: bool,
    /// Also remove vault data
    pub remove_vault: bool,
    /// Also remove outerclaw/ocagent users
    pub remove_users: bool,
}

pub struct SnapshotArgs {
    /// Only snapshot SQLite database
    pub sqlite_only: bool,
    /// Only snapshot files (MEMORY.md, memory/, config)
    pub files_only: bool,
}

pub struct RollbackArgs {
    /// Path to specific LKG to restore from
    pub path: Option<String>,
}

pub struct PostmortemArgs {
    /// Systemd unit name to collect data for
    pub unit: String,
}

pub struct IdentityArgs {
    pub action: IdentityAction,
}

#[derive(Debug, Clone, Copy, PartialEq, Eq, Structural)]
pub enum IdentityAction {
    /// Lock identity files (chattr +i / chflags immutable)
    Lock,
    /// Unlock identity files (chattr -i / chflags noimmutable)
    Unlock,
}

pub struct CloudArgs {
    pub action: CloudAction,
}

pub enum CloudAction {
    /// Interactive cloud backup setup
    Setup,
    /// Sync snapshots and LKG to cloud
    Sync,
    /// Restore from cloud backup
    Restore(CloudRestoreArgs),
}

pub struct CloudRestoreArgs {
    /// List available backups
    pub list: bool,
    /// Show recovery hint from cloud
    pub show_hint: bool,
    /// Restore a specific LKG
    pub restore_lkg: Option<String>,
    /// Restore a specific snapshot
    pub restore_snapshot: Option<String>,
}

} // verus!
