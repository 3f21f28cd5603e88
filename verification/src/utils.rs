//! Stateful components of the gateway and the helpers around them.

pub mod api_key;
pub mod auth;
pub mod cache;
pub mod clock;
pub mod error_handling;
pub mod keyed;
pub mod logging;
pub mod maintenance;
pub mod numbers;
pub mod pattern;
pub mod rate_limiting;
pub mod request;
pub mod response;
pub mod stats;
pub mod text;
pub mod version;
