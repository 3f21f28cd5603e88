//! Request-serving engine of an OpenAI-compatible gateway: a rotating pool of
//! upstream credentials, a fingerprinted response cache, traffic accounting,
//! sliding-window rate limiting and the per-request pipeline that ties them
//! together.

pub mod api;
pub mod config;
pub mod models;
pub mod services;
pub mod utils;
pub mod vertex;
