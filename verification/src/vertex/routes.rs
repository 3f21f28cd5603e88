//! Request handling of the secondary backend.

pub mod chat_api;
pub mod models_api;
