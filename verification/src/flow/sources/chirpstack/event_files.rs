//! A source that replays a recorded batch of ChirpStack events.
use vstd::prelude::*;
use std::path::PathBuf;

verus! {

/// Replays the events recorded in a file.
#[derive(Debug)]
pub struct ChirpstackEventFileSource {
    pub file_path: PathBuf,
}

} // verus!
