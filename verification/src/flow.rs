//! The flow: one source, any number of sinks, one bus between them.
pub mod flowgraph;
pub mod sinks;
pub mod sources;
pub mod task;
