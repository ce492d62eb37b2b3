//! Code generation for the `TryRead` and `TryWrite` derives of the `byte` crate.
pub mod config;
pub mod derive;
pub mod field;
pub mod item;
pub mod laws;
pub mod paths;
pub mod syntax;
pub mod text;
pub mod utils;
pub mod wire;
