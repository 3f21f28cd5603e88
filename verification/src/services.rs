//! Translation between the client-facing protocol and the provider's.

pub mod embedding;
pub mod gemini;
pub mod openai;
pub mod response_wrapper;

