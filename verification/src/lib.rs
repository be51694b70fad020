//! Core of a procurement portal: the supplier approval lifecycle, a request
//! catalog with deduplicated ERP ingestion, an offer ledger with a
//! compare-and-set winner selection, and the notification intents that those
//! workflow steps produce for a best-effort dispatcher.

pub mod config;
pub mod crypto;
pub mod datetime;
pub mod errors;
pub mod notify;
pub mod offer;
pub mod portal;
pub mod request;
pub mod supplier;
