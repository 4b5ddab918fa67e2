//! Sources of ChirpStack events.
pub mod event_files;
