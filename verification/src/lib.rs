//! Verified core of an SSH jump-host tunnel manager: the tunnel and
//! application settings, the text the user interface shows for them, the
//! registry of configured and running tunnels, the host-key check and the
//! decisions of a tunnel session.

pub mod config;
pub mod keyring_manager;
pub mod registry;
pub mod session;
pub mod text;
pub mod tunnel;
pub mod view;
