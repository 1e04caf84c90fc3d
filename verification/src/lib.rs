//! A tamper-evident audit log: every event is hashed when it is recorded, the
//! hash is anchored on a ledger, and a stored record can later be checked
//! against what the ledger holds.
//!
//! The modules follow the flow of an event through the service:
//!
//! * [`models`] holds the record, the requests and the replies;
//! * [`digest`] computes the content hash of an event;
//! * [`numerals`] writes numbers in decimal;
//! * [`query`] composes the filtered, paginated listing of records;
//! * [`db`] is the record store;
//! * [`solana`] holds the ledger's tag convention and a stand-in client;
//! * [`anchoring`] is the worker that anchors one record;
//! * [`handlers`] holds the decisions of the service's operations.

pub mod anchoring;
pub mod db;
pub mod digest;
pub mod handlers;
pub mod models;
pub mod numerals;
pub mod query;
pub mod solana;
