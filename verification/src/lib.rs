//! A transactional key-value store over the redb storage engine.
//!
//! A [`Datastore`] owns the engine handle and begins transactions. A
//! [`Transaction`] wraps exactly one engine transaction, read-only or
//! read-write, and offers point reads, writes, compare-and-swap and ordered
//! range scans on byte keys and byte values.
//!
//! The contracts are stated over [`model::State`], the abstract state of a
//! transaction; [`laws`] proves what holds of the operations together.
pub mod err;
pub mod order;
pub mod model;
pub mod laws;
pub mod engine;
pub mod scan;
pub mod kvs;

pub use err::Error;
pub use kvs::{Datastore, Key, Transaction, TransactionType, Val};
