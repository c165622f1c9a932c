//! The mathematical model of a transaction: what it holds and what each
//! operation makes of it when the engine does its part.
use vstd::prelude::*;
use crate::err::Error;
use crate::order::{in_range, lex_lt};

verus! {

/// A key or a value as the contracts see it.
pub type Bytes = Seq<u8>;

/// The table as one transaction sees it.
pub type Store = Map<Seq<u8>, Seq<u8>>;

/// One entry of a scan: key, then value.
pub type Entry = (Seq<u8>, Seq<u8>);

/// The value that `store` holds under `key`, if any.
pub open spec fn lookup(store: Store, key: Bytes) -> Option<Bytes> {
    if store.dom().contains(key) {
        Some(store[key])
    } else {
        None
    }
}

/// A value that was read, or its absence, as the contracts see it.
pub open spec fn bytes_of(found: Option<Vec<u8>>) -> Option<Bytes> {
    match found {
        Some(val) => Some(val@),
        None => None,
    }
}

/// A stored entry as the contracts see it.
pub open spec fn entry_view(e: (Vec<u8>, Vec<u8>)) -> Entry {
    (e.0@, e.1@)
}

/// Stored entries as the contracts see them.
pub open spec fn entries_view(entries: Seq<(Vec<u8>, Vec<u8>)>) -> Seq<Entry> {
    entries.map_values(|e: (Vec<u8>, Vec<u8>)| entry_view(e))
}

/// The abstract state of a transaction.
pub struct State {
    /// Committed or cancelled.
    pub closed: bool,
    /// Begun as a write transaction. Fixed for the transaction's lifetime.
    pub writable: bool,
    /// The table as this transaction sees it; empty once closed.
    pub store: Store,
    /// The engine has said that it committed this transaction's writes.
    pub committed: bool,
    /// The engine has said that it rolled this transaction's writes back.
    pub rolled_back: bool,
}

impl State {
    /// The error that refuses a read, if any: only a closed transaction
    /// refuses.
    pub open spec fn read_error(self) -> Option<Error> {
        if self.closed {
            Some(Error::TransactionFinished)
        } else {
            None
        }
    }

    /// The error that refuses a write, if any. Closedness is tested before
    /// the mode.
    pub open spec fn write_error(self) -> Option<Error> {
        if self.closed {
            Some(Error::TransactionFinished)
        } else if !self.writable {
            Some(Error::TransactionReadonly)
        } else {
            None
        }
    }

    /// The value stored under `key`, if any.
    pub open spec fn lookup(self, key: Bytes) -> Option<Bytes> {
        lookup(self.store, key)
    }

    /// This state with another store.
    pub open spec fn with_store(self, store: Store) -> State {
        State { store, ..self }
    }

    /// This state once closed, with no word of the engine on its writes.
    pub open spec fn shut(self) -> State {
        State { closed: true, store: Map::empty(), ..self }
    }

    /// This state once closed by a commit that the engine confirmed.
    pub open spec fn shut_committed(self) -> State {
        State { committed: true, ..self.shut() }
    }

    /// This state once closed by a cancel: rolled back by the engine where
    /// the transaction could write, and simply let go where it could not.
    pub open spec fn shut_cancelled(self) -> State {
        State { rolled_back: self.writable, ..self.shut() }
    }

    /// Whether an entry exists under `key`.
    pub open spec fn exi(self, key: Bytes) -> Result<bool, Error> {
        match self.read_error() {
            Some(e) => Err(e),
            None => Ok(self.store.dom().contains(key)),
        }
    }

    /// The value under `key`.
    pub open spec fn get(self, key: Bytes) -> Result<Option<Bytes>, Error> {
        match self.read_error() {
            Some(e) => Err(e),
            None => Ok(self.lookup(key)),
        }
    }

    /// Insert or overwrite: the state after, and the result.
    pub open spec fn set(self, key: Bytes, val: Bytes) -> (State, Result<(), Error>) {
        match self.write_error() {
            Some(e) => (self, Err(e)),
            None => (self.with_store(self.store.insert(key, val)), Ok(())),
        }
    }

    /// Insert only where no entry exists: the state after, and the result.
    pub open spec fn put(self, key: Bytes, val: Bytes) -> (State, Result<(), Error>) {
        match self.write_error() {
            Some(e) => (self, Err(e)),
            None => if self.store.dom().contains(key) {
                (self, Err(Error::KeyAlreadyExists))
            } else {
                (self.with_store(self.store.insert(key, val)), Ok(()))
            },
        }
    }

    /// Insert or overwrite where the current value, or its absence, is the
    /// expected one: the state after, and the result.
    pub open spec fn putc(self, key: Bytes, val: Bytes, chk: Option<Bytes>) -> (
        State,
        Result<(), Error>,
    ) {
        match self.write_error() {
            Some(e) => (self, Err(e)),
            None => if self.lookup(key) == chk {
                (self.with_store(self.store.insert(key, val)), Ok(()))
            } else {
                (self, Err(Error::ConditionNotMet))
            },
        }
    }

    /// Delete, where an absent key is no error: the state after, and the
    /// result.
    pub open spec fn del(self, key: Bytes) -> (State, Result<(), Error>) {
        match self.write_error() {
            Some(e) => (self, Err(e)),
            None => (self.with_store(self.store.remove(key)), Ok(())),
        }
    }

    /// Delete where the current value, or its absence, is the expected one:
    /// the state after, and the result.
    pub open spec fn delc(self, key: Bytes, chk: Option<Bytes>) -> (State, Result<(), Error>) {
        match self.write_error() {
            Some(e) => (self, Err(e)),
            None => if self.lookup(key) == chk {
                (self.with_store(self.store.remove(key)), Ok(()))
            } else {
                (self, Err(Error::ConditionNotMet))
            },
        }
    }

    /// Commit: refused on a closed and on a read-only transaction, which it
    /// leaves as they are; any other it closes, its writes committed by
    /// the engine.
    pub open spec fn commit(self) -> (State, Result<(), Error>) {
        match self.write_error() {
            Some(e) => (self, Err(e)),
            None => (self.shut_committed(), Ok(())),
        }
    }

    /// Cancel: refused on a closed transaction only; any other it closes,
    /// its writes rolled back by the engine where it could write.
    pub open spec fn cancel(self) -> (State, Result<(), Error>) {
        match self.read_error() {
            Some(e) => (self, Err(e)),
            None => (self.shut_cancelled(), Ok(())),
        }
    }
}

/// The keys of `out` are strictly ascending.
pub open spec fn ascending(out: Seq<Entry>) -> bool {
    forall|i: int, j: int|
        0 <= i < j < out.len() ==> lex_lt(#[trigger] out[i].0, #[trigger] out[j].0)
}

/// Every entry of `out` is an entry of `store`.
pub open spec fn drawn_from(out: Seq<Entry>, store: Store) -> bool {
    forall|i: int| 0 <= i < out.len() ==> store.contains_pair(#[trigger] out[i].0, out[i].1)
}

/// `key` is the key of some entry of `out`.
pub open spec fn has_key(out: Seq<Entry>, key: Bytes) -> bool {
    exists|i: int| 0 <= i < out.len() && #[trigger] out[i].0 == key
}

/// Every key of `out` sorts before `key`.
pub open spec fn all_before(out: Seq<Entry>, key: Bytes) -> bool {
    forall|i: int| 0 <= i < out.len() ==> lex_lt(#[trigger] out[i].0, key)
}

/// `entries` lists `store` over the range from `beg` to `end`: entries of
/// the store in strictly ascending key order that leave out no key of the
/// range. Keys outside the range may occur.
pub open spec fn listing(store: Store, beg: Bytes, end: Bytes, entries: Seq<Entry>) -> bool {
    &&& drawn_from(entries, store)
    &&& ascending(entries)
    &&& forall|key: Bytes| #[trigger]
        store.dom().contains(key) && in_range(key, beg, end) ==> has_key(entries, key)
}

/// `out` is what a scan of the range from `beg` to `end` under `limit`
/// returns on `store`: entries of the store within the range, in strictly
/// ascending key order, at most `limit` of them, and the smallest ones: a
/// key of the range that is missing sorts after a full result.
pub open spec fn is_scan(store: Store, beg: Bytes, end: Bytes, limit: nat, out: Seq<Entry>) -> bool {
    &&& out.len() <= limit
    &&& drawn_from(out, store)
    &&& forall|i: int| 0 <= i < out.len() ==> in_range(#[trigger] out[i].0, beg, end)
    &&& ascending(out)
    &&& forall|key: Bytes| #[trigger]
        store.dom().contains(key) && in_range(key, beg, end) ==> has_key(out, key) || (out.len()
            == limit && all_before(out, key))
}

} // verus!
