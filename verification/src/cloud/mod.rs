//! Encrypted cloud backups.

pub mod restore;
pub mod setup;
pub mod sync;

use vstd::prelude::*;

verus! {

/// Where the rclone configuration lies.
pub const RCLONE_CONFIG_PATH: &'static str = "/var/lib/outerclaw/config/rclone.conf";

} // verus!
