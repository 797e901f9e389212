//! Replay-only consumer-group delivery source.

pub mod history;
pub mod laws;
pub mod model;
pub mod poll_laws;
pub mod progress;
pub mod settings;
pub mod slot;
pub mod state;
pub mod wire;
