//! Configuration snapshot read by the engine.

pub mod loader;
pub mod manager;
pub mod safety;
pub mod settings;
