//! Types shared by sources and sinks.
pub mod chirpstack;
