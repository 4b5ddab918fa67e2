//! The text of an envelope. The envelope is a `serde_json::Value`; how it is
//! written out is serde_json's business, so the text has a name and no
//! definition here.
use vstd::prelude::*;
use serde_json::Value;

verus! {

/// The compact JSON text of `envelope`.
pub uninterp spec fn json_text(envelope: Value) -> Seq<char>;

/// The debugging text of `envelope`.
pub uninterp spec fn debug_text(envelope: Value) -> Seq<char>;

/// `Display` of `serde_json::Value`, which writes the value as compact JSON.
#[verifier::external_body]
pub(crate) fn render_json(envelope: &Value) -> (text: String)
    ensures
        text@ == json_text(*envelope),
{
    envelope.to_string()
}

/// `Debug` of `serde_json::Value`.
#[verifier::external_body]
pub(crate) fn render_debug(envelope: &Value) -> (text: String)
    ensures
        text@ == debug_text(*envelope),
{
    format!("{:?}", envelope)
}

} // verus!
