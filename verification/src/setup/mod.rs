//! Setup: service definitions, and the steps of install, deploy and uninstall.

pub mod acl;
pub mod deploy;
pub mod install;
pub mod launchd;
pub mod openrc;
pub mod platform_detect;
pub mod runit;
pub mod systemd;
pub mod template;
pub mod uninstall;
pub mod users;

pub use crate::setup::acl::{remove_acls, set_acls};
pub use crate::setup::deploy::deploy;
pub use crate::setup::install::install;
pub use crate::setup::uninstall::uninstall;
