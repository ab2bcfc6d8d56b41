//! Structured event records and how one is built from a raw event.

use vstd::prelude::*;
use crate::transaction::RawEvent;

verus! {

#[verifier::external_type_specification]
#[verifier::external_body]
pub struct ExJsonValue(serde_json::Value);

#[verifier::external_type_specification]
#[verifier::external_body]
pub struct ExJsonError(serde_json::Error);

/// Whether `text` is a well-formed JSON document.
pub uninterp spec fn json_decodes(text: Seq<char>) -> bool;

/// Relies on `serde_json::from_str::<serde_json::Value>`: it parses `text` as
/// one JSON document, and fails on the same texts every time.
#[verifier::external_body]
fn decode_json(text: &str) -> (r: Result<serde_json::Value, serde_json::Error>)
    ensures
        r.is_ok() == json_decodes(text@),
{
    serde_json::from_str::<serde_json::Value>(text)
}

/// What a record states of its origin: transaction version, block height and
/// event type tag.
pub type RecordView = (i64, i64, Seq<char>);

/// What a decode failure states: the version of the transaction and the tag
/// of the event that could not be decoded.
pub type FailureView = (i64, Seq<char>);

/// One decoded event, tagged with the transaction it came from.
#[derive(Debug)]
pub struct EventModel {
    pub transaction_version: i64,
    pub block_height: i64,
    pub type_str: String,
    pub data: serde_json::Value,
}

impl View for EventModel {
    type V = RecordView;

    open spec fn view(&self) -> RecordView {
        (self.transaction_version, self.block_height, self.type_str@)
    }
}

/// The only way a batch fails: a recognized event whose payload does not decode.
#[derive(Debug, Clone, PartialEq, Eq)]
pub enum ExtractError {
    DecodeFailure { transaction_version: i64, type_str: String },
}

impl View for ExtractError {
    type V = FailureView;

    open spec fn view(&self) -> FailureView {
        match self {
            ExtractError::DecodeFailure { transaction_version, type_str } => (
                *transaction_version,
                type_str@,
            ),
        }
    }
}

/// The record that a decodable raw event yields.
pub open spec fn record_of(e: RawEvent, version: i64, block_height: i64) -> RecordView {
    (version, block_height, e.type_str@)
}

/// The records that one raw event yields, or the failure it causes.
pub open spec fn spec_build(e: RawEvent, version: i64, block_height: i64) -> Result<
    Seq<RecordView>,
    FailureView,
> {
    if json_decodes(e.data@) {
        Ok(seq![record_of(e, version, block_height)])
    } else {
        Err((version, e.type_str@))
    }
}

/// The view of a list of records.
pub open spec fn records_view(ms: Seq<EventModel>) -> Seq<RecordView> {
    ms.map_values(|m: EventModel| m@)
}

/// The view of the outcome of building records.
pub open spec fn outcome_view(r: Result<Vec<EventModel>, ExtractError>) -> Result<
    Seq<RecordView>,
    FailureView,
> {
    match r {
        Ok(ms) => Ok(records_view(ms@)),
        Err(e) => Err(e@),
    }
}

impl EventModel {
    /// Decodes one raw event of the transaction `version` in block
    /// `block_height`, yielding its records.
    pub fn from_event(e: &RawEvent, version: i64, block_height: i64) -> (r: Result<
        Vec<EventModel>,
        ExtractError,
    >)
        ensures
            outcome_view(r) == spec_build(*e, version, block_height),
    {
        match decode_json(e.data.as_str()) {
            Ok(data) => {
                let m = EventModel {
                    transaction_version: version,
                    block_height,
                    type_str: e.type_str.clone(),
                    data,
                };
                let r = vec![m];
                proof {
                    assert(records_view(r@) =~= seq![record_of(*e, version, block_height)]);
                }
                Ok(r)
            },
            Err(_) => Err(
                ExtractError::DecodeFailure {
                    transaction_version: version,
                    type_str: e.type_str.clone(),
                },
            ),
        }
    }
}

} // verus!
