//! Push-to-talk voice over the mesh.

pub mod audio;
pub mod codec;
pub mod config;
pub mod packet;
pub mod search;
pub mod session;
pub mod stats;
pub mod status;
