//! The secondary backend: helpers for requests that go to the provider's
//! cloud endpoint.

pub mod api_helpers;
pub mod auth;
pub mod config;
pub mod credentials_manager;
pub mod message_processing;
pub mod model_loader;
pub mod models;
pub mod routes;
pub mod vertex_ai_init;
