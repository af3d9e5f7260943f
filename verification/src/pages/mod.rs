//! What the pages of the web interface show.

pub mod dashboard;
pub mod media;
pub mod network;
pub mod remote;
pub mod reticulum;
pub mod update;
pub mod vpn;
