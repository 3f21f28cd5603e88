//! The request-serving surface of the engine.

pub mod auth;
pub mod dashboard;
pub mod routes;
