//! The errors that the store reports.
use vstd::prelude::*;

verus! {

/// Why an operation of the store failed.
#[derive(Debug, PartialEq, Eq)]
pub enum Error {
    /// The engine could not open or create the store; holds its message.
    StoreUnavailable(String),
    /// The transaction was already committed or cancelled.
    TransactionFinished,
    /// A write was asked of a read-only transaction.
    TransactionReadonly,
    /// `put` found an entry under the key.
    KeyAlreadyExists,
    /// `putc` or `delc` found something other than the expected value.
    ConditionNotMet,
    /// The engine failed below this layer; holds its message.
    EngineFailure(String),
}

} // verus!
