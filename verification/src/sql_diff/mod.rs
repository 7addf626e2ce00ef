//! Schema differences between two MySQL initialisation scripts.
pub mod types;
pub mod parser;
pub mod generator;
pub mod differ;
pub mod laws;

pub use generator::generate_schema_diff;
