//! What the library promises of its operations, from what goes in to what comes out.
pub mod answers;
pub mod leases;
pub mod markdown;
pub mod models;
pub mod requests;
pub mod sessions;
pub mod streams;
pub mod telegram;
pub mod text_calls;
pub mod texts;
pub mod tools;
pub mod turns;
pub mod views;
