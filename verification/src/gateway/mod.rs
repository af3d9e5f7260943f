//! The gateway between the mesh, the local network and the radio.

pub mod atak;
pub mod audio;
pub mod media_bridge;
pub mod radio;
pub mod startup;
