//! The pages on which the gateway's settings are shown and changed.

pub mod settings;
