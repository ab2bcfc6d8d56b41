//! Read-only view of the transactions that feed the extractor.

use vstd::prelude::*;

verus! {

/// One event as emitted on chain: its type tag and its JSON-encoded payload.
#[derive(Debug, Clone, PartialEq, Eq)]
pub struct RawEvent {
    pub type_str: String,
    pub data: String,
}

/// Payload of a transaction submitted by a user.
#[derive(Debug, Clone, PartialEq, Eq)]
pub struct UserTransaction {
    pub events: Vec<RawEvent>,
}

/// The kinds of transaction payload. Only user transactions carry events of
/// interest to the extractor.
#[derive(Debug, Clone, PartialEq, Eq)]
pub enum TxnData {
    BlockMetadata,
    Genesis,
    StateCheckpoint,
    User(UserTransaction),
    Validator,
    BlockEpilogue,
}

/// A committed transaction: its version, the height of its block, and its
/// payload, which may be absent.
#[derive(Debug, Clone, PartialEq, Eq)]
pub struct Transaction {
    pub version: u64,
    pub block_height: u64,
    pub txn_data: Option<TxnData>,
}

impl Transaction {
    /// The raw events of the transaction: those of a user payload, and none
    /// for any other payload kind or for an absent payload.
    pub open spec fn spec_raw_events(self) -> Seq<RawEvent> {
        match self.txn_data {
            Some(TxnData::User(u)) => u.events@,
            _ => Seq::empty(),
        }
    }

    /// The version as the signed integer that output records carry.
    pub open spec fn spec_version(self) -> i64 {
        self.version as i64
    }

    /// The block height as the signed integer that output records carry.
    pub open spec fn spec_block_height(self) -> i64 {
        self.block_height as i64
    }

    /// Whether the transaction has no usable payload.
    pub open spec fn spec_payload_missing(self) -> bool {
        self.txn_data is None
    }

    pub fn raw_events(&self) -> (r: &[RawEvent])
        ensures
            r@ == self.spec_raw_events(),
    {
        match &self.txn_data {
            Some(TxnData::User(u)) => u.events.as_slice(),
            _ => &[],
        }
    }

    pub fn signed_version(&self) -> (r: i64)
        ensures
            r == self.spec_version(),
    {
        #[verifier::truncate]
        let r = self.version as i64;
        r
    }

    pub fn signed_block_height(&self) -> (r: i64)
        ensures
            r == self.spec_block_height(),
    {
        #[verifier::truncate]
        let r = self.block_height as i64;
        r
    }

    pub fn payload_missing(&self) -> (r: bool)
        ensures
            r == self.spec_payload_missing(),
    {
        self.txn_data.is_none()
    }
}

} // verus!
