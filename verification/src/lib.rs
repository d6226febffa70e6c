//! Recurring-payment primitives for a programmable ledger: fixed-interval
//! subscription billing, peer-to-peer recurring transfer agreements, and
//! continuous token streaming.
//!
//! The library is the settlement core alone.  Every operation is a pure
//! state transition: it takes the persisted records, the caller and the
//! current block time as plain values, and returns the updated records
//! together with the value-transfer instructions to emit.  The host that
//! drives a real ledger performs the storage reads and writes, message
//! de/serialisation and cross-contract queries, and hands the results in.
//!
//! Accounts and asset denominations are identified by numeric ids, amounts
//! are unsigned 128-bit integers, and times are seconds.

pub mod admin;
pub mod agreements;
pub mod fees;
pub mod jobs;
pub mod pagination;
pub mod streams;
pub mod subscriptions;
pub mod table;
