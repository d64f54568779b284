//! Verified core of a composable data-processing flow library.
pub mod component;
pub mod composer;
pub mod engine;
pub mod error;
pub mod fields;
pub mod laws;
pub mod pipeline;
pub mod processors;
pub mod run;
pub mod semantics;
pub mod sinks;
pub mod sources;
pub mod stage;
