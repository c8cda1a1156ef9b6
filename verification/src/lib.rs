//! Watchdog and data protection logic for the OpenClaw gateway.
//!
//! The library decides: how the gateway's state is classified, when it is
//! restarted or restored, which backups are kept, what every report, alert and
//! service file says. Reading, writing, sending and waiting are left to the
//! program around it.

pub mod alert;
pub mod cli;
pub mod cloud;
pub mod config;
pub mod daemon;
pub mod platform;
pub mod setup;
pub mod util;
pub mod vault;
