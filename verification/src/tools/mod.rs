//! Tools: what there is, and who sees it.
pub mod catalog;
pub mod hints;
pub mod names;
pub mod order;
pub mod schema;
pub mod tables;
pub mod view;
