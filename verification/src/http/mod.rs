//! What the gateway's requests are answered with.

pub mod installer;
pub mod plugin_api;
pub mod probe;
pub mod remote_api;
pub mod system;
pub mod vpn;
pub mod wifi;
pub mod ws;
