//! Verified core of the Kaonic gateway, its dashboard and its push-to-talk plugin.

pub mod atak_bridge;
pub mod counter;
pub mod dashboard;
pub mod digits;
pub mod gateway;
pub mod http;
pub mod mesh;
pub mod net;
pub mod order;
pub mod pages;
pub mod ptt;
pub mod reply;
pub mod route;
pub mod table;
pub mod text;
