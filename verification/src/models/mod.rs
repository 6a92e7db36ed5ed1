//! Provider adapters.

pub mod gemini;
pub mod ollama;
