//! A sink that writes uplink measurements to InfluxDB.
use vstd::prelude::*;
use crate::flow::sinks::SinkPolicy;

verus! {

/// How to reach an InfluxDB database.
#[derive(Debug, Clone)]
pub struct InfluxdbConf {
    pub url: String,
    pub database: String,
    pub token: String,
}

/// Writes uplink measurements to InfluxDB.
pub struct InfluxdbSink {
    pub conf: InfluxdbConf,
}

impl InfluxdbSink {
    /// A sink for the database that `newconf` describes.
    pub fn new(newconf: &InfluxdbConf) -> (sink: InfluxdbSink)
        ensures
            sink.conf.url@ == newconf.url@,
            sink.conf.database@ == newconf.database@,
            sink.conf.token@ == newconf.token@,
    {
        InfluxdbSink {
            conf: InfluxdbConf {
                url: newconf.url.clone(),
                database: newconf.database.clone(),
                token: newconf.token.clone(),
            },
        }
    }
}

impl InfluxdbSink {
    /// A measurement that could not be written ends the sink.
    pub fn policy(&self) -> (policy: SinkPolicy)
        ensures
            policy == SinkPolicy::FailFast,
    {
        SinkPolicy::FailFast
    }
}

/// The index of the receiver with the highest signal strength among `rssi`,
/// the first such where several tie; `None` where nothing was received.
pub fn strongest_receiver(rssi: &Vec<i32>) -> (best: Option<usize>)
    ensures
        best is None <==> rssi@.len() == 0,
        best matches Some(b) ==> {
            &&& b < rssi@.len()
            &&& forall|j: int| 0 <= j < rssi@.len() ==> rssi@[j] <= rssi@[b as int]
            &&& forall|j: int| 0 <= j < b ==> rssi@[j] < rssi@[b as int]
        },
{
    if rssi.len() == 0 {
        return None;
    }
    let mut best: usize = 0;
    let mut i: usize = 1;
    while i < rssi.len()
        invariant
            1 <= i <= rssi@.len(),
            best < i,
            forall|j: int| 0 <= j < i ==> rssi@[j] <= rssi@[best as int],
            forall|j: int| 0 <= j < best ==> rssi@[j] < rssi@[best as int],
        decreases rssi@.len() - i,
    {
        if rssi[i] > rssi[best] {
            best = i;
        }
        i = i + 1;
    }
    Some(best)
}

} // verus!
