//! The vault: snapshots, last known good states, and their upkeep.

pub mod auto_recover;
pub mod healthcheck;
pub mod io_pressure;
pub mod log;
pub mod names;
pub mod postmortem;
pub mod pre_start_check;
pub mod promote_lkg;
pub mod quota;
pub mod retention;
pub mod rollback;
pub mod sha256;
pub mod snapshot;
pub mod snapshot_files;
pub mod snapshot_sqlite;
