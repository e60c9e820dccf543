//! The verified core of the loongclaw assistant.
pub mod channel;
pub mod conversation;
pub mod evolution;
pub mod json;
pub mod laws;
pub mod memory;
pub mod provider;
pub mod text;
pub mod tools;
