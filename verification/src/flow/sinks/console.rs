//! A sink that shows each envelope on the console.
use vstd::prelude::*;
use vstd::string::StringExecFns;
use serde_json::Value;
use crate::delivery::Delivery;
use crate::envelope::{debug_text, json_text, render_debug, render_json};
use crate::flow::sinks::SinkPolicy;

verus! {

/// Shows each envelope on the console.
#[derive(Debug, Clone, Copy, PartialEq, Eq, Structural)]
pub struct ConsoleSink {}

/// The line for a delivery whose envelope, if it has one, reads `text`.
pub open spec fn spec_delivery_line(delivery: Delivery, text: Seq<char>) -> Option<Seq<char>> {
    match delivery {
        Delivery::Envelope(_) => Some("ConsoleSink: Event Received => "@ + text),
        Delivery::Lagged(_) => Some("ConsoleSink: Channel Lagged"@),
        Delivery::Closed => Some("ConsoleSink: Channel Closed"@),
        Delivery::Empty => None,
    }
}

impl ConsoleSink {
    /// A display loses nothing by going on after a failure.
    pub fn policy(&self) -> (policy: SinkPolicy)
        ensures
            policy == SinkPolicy::BestEffort,
    {
        SinkPolicy::BestEffort
    }

    /// The line for one event whose debugging text is `text`.
    pub fn event_line_of(text: &str) -> (line: String)
        ensures
            line@ == "ConsoleSink: "@ + text@,
    {
        String::from_str("ConsoleSink: ").concat(text)
    }

    /// The line for one event.
    pub fn event_line(&self, event_data: &Value) -> (line: String)
        ensures
            line@ == "ConsoleSink: "@ + debug_text(*event_data),
    {
        let text = render_debug(event_data);
        ConsoleSink::event_line_of(text.as_str())
    }

    /// The line for a delivery whose envelope, if it has one, reads `text`:
    /// none while there is nothing to show.
    pub fn delivery_line_of(delivery: &Delivery, text: &str) -> (line: Option<String>)
        ensures
            line is Some <==> !(delivery is Empty),
            line matches Some(l) ==> Some(l@) == spec_delivery_line(*delivery, text@),
    {
        match delivery {
            Delivery::Envelope(_) => Some(
                String::from_str("ConsoleSink: Event Received => ").concat(text),
            ),
            Delivery::Lagged(_) => Some(String::from_str("ConsoleSink: Channel Lagged")),
            Delivery::Closed => Some(String::from_str("ConsoleSink: Channel Closed")),
            Delivery::Empty => None,
        }
    }

    /// The line for a delivery: the envelope as compact JSON, or that the
    /// subscription lagged, or that the stream has ended.
    pub fn delivery_line(&self, delivery: &Delivery) -> (line: Option<String>)
        ensures
            line is Some <==> !(delivery is Empty),
            line matches Some(l) ==> Some(l@) == spec_delivery_line(
                *delivery,
                match *delivery {
                    Delivery::Envelope(e) => json_text(e),
                    _ => Seq::empty(),
                },
            ),
    {
        match delivery {
            Delivery::Envelope(envelope) => {
                let text = render_json(envelope);
                ConsoleSink::delivery_line_of(delivery, text.as_str())
            },
            _ => ConsoleSink::delivery_line_of(delivery, ""),
        }
    }
}

} // verus!
