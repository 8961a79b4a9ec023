//! Translation of the TL schema (as JSON) into Rust definitions.

pub mod schema;
pub mod generator;
pub mod translate;
