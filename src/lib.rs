//! Extraction of recognized on-chain events from ordered transaction batches.

pub mod extractor;
pub mod laws;
pub mod model;
pub mod registry;
pub mod transaction;

pub use extractor::{gather, extract_transaction, missing_payload_versions, EventsExtractor, TransactionContext};
pub use model::{EventModel, ExtractError};
pub use registry::{is_recognized, recognized_tags, Events};
pub use transaction::{RawEvent, Transaction, TxnData, UserTransaction};
