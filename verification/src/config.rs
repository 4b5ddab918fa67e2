//! The program's configuration.
use vstd::prelude::*;
use std::path::PathBuf;
use crate::flow::sinks::pg::PostgresConf;

verus! {

/// `std::path::PathBuf`, carried through unread.
#[verifier::external_type_specification]
#[verifier::external_body]
pub struct ExPathBuf(PathBuf);

/// Where events come from and where they go.
#[derive(Debug)]
pub struct Config {
    pub source_chirpstack_events_file: PathBuf,
    pub sink_pg: Option<PostgresConf>,
}

} // verus!
