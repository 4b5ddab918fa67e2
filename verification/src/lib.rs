//! A single-source, multi-sink event distribution engine.
//!
//! One producer publishes opaque JSON envelopes on a bounded broadcast bus;
//! every subscribed sink receives its own copy of each envelope, in publish
//! order. A sink that falls behind by more than the bus retains is told how
//! many envelopes it missed and resumes from the oldest one still held; it
//! never blocks the producer or the other sinks.
pub mod capacity;
pub mod channel;
pub mod decimal;
pub mod delivery;
pub mod envelope;
pub mod model;
pub mod bus;
pub mod laws;
pub mod common;
pub mod config;
pub mod flow;
