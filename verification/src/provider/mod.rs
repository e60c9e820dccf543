//! Providers of models: what their answers mean.
pub mod blocks;
pub mod bridge;
pub mod candidates;
pub mod contracts;
pub mod failover;
pub mod functions;
pub mod models;
pub mod request_executor;
pub mod request_planner;
pub mod shape;
pub mod sse;
pub mod streaming;
