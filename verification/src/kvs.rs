//! The datastore and its transactions.
use vstd::prelude::*;
use vstd::pervasive::unreached;
use vstd::string::to_string_from_display_ensures;
use std::fmt::Display;
use std::ops::Range;
use std::sync::Arc;
use crate::engine;
use crate::engine::{read_table, write_table, Committed, ReadFailure, RolledBack};
use crate::err::Error;
use crate::model::{bytes_of, entries_view, is_scan, listing, lookup, Bytes, State, Store};
use crate::scan::{clip, lemma_clip_of_listing};

verus! {

/// A key: any bytes, ordered lexicographically.
pub type Key = Vec<u8>;

/// A value: any bytes.
pub type Val = Vec<u8>;

/// The name of the one table that holds every key, for reads and writes
/// alike.
pub const TABLE: &'static str = "surreal_db";

/// The table has a name, as the engine asks of every table.
proof fn lemma_table_is_named()
    ensures
        TABLE@.len() > 0,
{
    reveal_strlit("surreal_db");
}

/// `detail` is the text that some failure of the kind `E` displays as.
pub open spec fn displayed_by<E: Display>(detail: String) -> bool {
    exists|cause: E| to_string_from_display_ensures::<E>(&cause, detail)
}

/// Surfaces an engine failure: a success passes through, a failure becomes
/// [`Error::EngineFailure`] with the engine's message, which is the text
/// that the failure displays as.
pub fn surface<T, E: Display>(done: Result<T, E>) -> (r: Result<T, Error>)
    ensures
        match done {
            Ok(v) => r == Ok::<T, Error>(v),
            Err(e) => r matches Err(Error::EngineFailure(detail))
                && to_string_from_display_ensures::<E>(&e, detail) && displayed_by::<E>(detail),
        },
{
    match done {
        Ok(v) => Ok(v),
        Err(e) => Err(Error::EngineFailure(e.to_string())),
    }
}

/// Surfaces a failure to open the store: a success passes through, a
/// failure becomes [`Error::StoreUnavailable`] with the engine's message,
/// which is the text that the failure displays as.
pub fn unavailable<T, E: Display>(done: Result<T, E>) -> (r: Result<T, Error>)
    ensures
        match done {
            Ok(v) => r == Ok::<T, Error>(v),
            Err(e) => r matches Err(Error::StoreUnavailable(detail))
                && to_string_from_display_ensures::<E>(&e, detail) && displayed_by::<E>(detail),
        },
{
    match done {
        Ok(v) => Ok(v),
        Err(e) => Err(Error::StoreUnavailable(e.to_string())),
    }
}

/// The test that `put` makes of what it found under the key: only a vacant
/// key may be filled.
pub fn check_vacant(found: &Option<Val>) -> (r: Result<(), Error>)
    ensures
        r == if found is None {
            Ok::<(), Error>(())
        } else {
            Err::<(), Error>(Error::KeyAlreadyExists)
        },
{
    match found {
        None => Ok(()),
        Some(_) => Err(Error::KeyAlreadyExists),
    }
}

/// The test that `putc` and `delc` make of what they found under the key:
/// it must be the expected value byte for byte, or absent where absence is
/// expected.
pub fn check_expected(found: &Option<Val>, chk: &Option<Val>) -> (r: Result<(), Error>)
    ensures
        r == if bytes_of(*found) == bytes_of(*chk) {
            Ok::<(), Error>(())
        } else {
            Err::<(), Error>(Error::ConditionNotMet)
        },
{
    let met = match (found, chk) {
        (Some(v), Some(w)) => {
            let same = v == w;
            proof {
                if same {
                    assert(v@ =~= w@);
                }
            }
            same
        },
        (None, None) => true,
        _ => false,
    };
    if met {
        Ok(())
    } else {
        Err(Error::ConditionNotMet)
    }
}

/// The engine transaction that a [`Transaction`] wraps.
pub enum TransactionType {
    /// A snapshot that can only be read.
    Read(redb::ReadTransaction),
    /// The database's one transaction that can write.
    Write(redb::WriteTransaction),
}

impl TransactionType {
    /// The table as this engine transaction sees it.
    pub open spec fn store(self) -> Store {
        match self {
            TransactionType::Read(tx) => read_table(tx, TABLE@),
            TransactionType::Write(tx) => write_table(tx, TABLE@),
        }
    }

    /// Reads the value under `key` by the engine call of this kind. A read
    /// transaction that finds no table finds no value.
    fn get(&self, key: &[u8]) -> (r: Result<Option<Val>, Error>)
        ensures
            match r {
                Ok(found) => bytes_of(found) == lookup(self.store(), key@),
                Err(e) => e matches Error::EngineFailure(detail) && displayed_by::<
                    redb::TableError,
                >(detail),
            },
    {
        proof {
            lemma_table_is_named();
        }
        match self {
            TransactionType::Read(tx) => match engine::read_get(tx, TABLE, key) {
                Ok(found) => Ok(found),
                Err(ReadFailure::NoTable) => Ok(None),
                Err(ReadFailure::Engine(e)) => surface(Err(e)),
            },
            TransactionType::Write(tx) => surface(engine::write_get(tx, TABLE, key)),
        }
    }

    /// Lists the table over a range by the engine call of this kind. A read
    /// transaction that finds no table lists nothing.
    fn range(&self, beg: &[u8], end: &[u8]) -> (r: Result<Vec<(Key, Val)>, Error>)
        ensures
            match r {
                Ok(entries) => listing(self.store(), beg@, end@, entries_view(entries@)),
                Err(e) => e matches Error::EngineFailure(detail) && displayed_by::<
                    redb::TableError,
                >(detail),
            },
    {
        proof {
            lemma_table_is_named();
        }
        match self {
            TransactionType::Read(tx) => match engine::read_range(tx, TABLE, beg, end) {
                Ok(entries) => Ok(entries),
                Err(ReadFailure::NoTable) => {
                    let nothing: Vec<(Key, Val)> = Vec::new();
                    proof {
                        assert(entries_view(nothing@) =~= Seq::empty());
                    }
                    Ok(nothing)
                },
                Err(ReadFailure::Engine(e)) => surface(Err(e)),
            },
            TransactionType::Write(tx) => surface(engine::write_range(tx, TABLE, beg, end)),
        }
    }
}

/// The store: owns the engine handle and begins transactions. Clones share
/// the one handle.
pub struct Datastore {
    db: Arc<redb::Database>,
}

impl Clone for Datastore {
    fn clone(&self) -> (r: Self)
        ensures
            r.engine() == self.engine(),
    {
        Datastore { db: engine::share(&self.db) }
    }
}

impl Datastore {
    /// The engine handle that this store owns.
    pub closed spec fn engine(&self) -> redb::Database {
        *self.db
    }

    /// Open a new database
    ///
    /// Opens the file at `path`, creating it where there is none. Whether
    /// that succeeds is the engine's to say; a failure is always
    /// [`Error::StoreUnavailable`] and holds what the engine said of it.
    pub fn new(path: &str) -> (r: Result<Datastore, Error>)
        ensures
            r matches Err(e) ==> e matches Error::StoreUnavailable(detail) && displayed_by::<
                redb::DatabaseError,
            >(detail),
    {
        match unavailable(engine::create(path)) {
            Ok(db) => Ok(Datastore { db: Arc::new(db) }),
            Err(e) => Err(e),
        }
    }

    /// Start a new transaction
    ///
    /// The transaction is open, read-write where `write` is set and
    /// read-only where it is not, and keeps this store's engine handle; the
    /// second flag is accepted and ignored. What the transaction sees is
    /// what the engine hands out: a read transaction a snapshot of what was
    /// committed before, a write transaction the latest state. The engine
    /// lets one write transaction live at a time, and this call waits for
    /// an earlier one to end. A failure is always [`Error::EngineFailure`]
    /// and holds what the engine said of it.
    pub fn transaction(&self, write: bool, _lock: bool) -> (r: Result<Transaction, Error>)
        ensures
            match r {
                Ok(tx) => {
                    &&& !tx@.closed
                    &&& tx@.writable == write
                    &&& !tx@.committed
                    &&& !tx@.rolled_back
                    &&& tx.engine() == self.engine()
                },
                Err(e) => e matches Error::EngineFailure(detail) && displayed_by::<
                    redb::TransactionError,
                >(detail),
            },
    {
        let tx = if write {
            match surface(engine::begin_write(&self.db)) {
                Ok(tx) => TransactionType::Write(tx),
                Err(e) => {
                    return Err(e);
                },
            }
        } else {
            match surface(engine::begin_read(&self.db)) {
                Ok(tx) => TransactionType::Read(tx),
                Err(e) => {
                    return Err(e);
                },
            }
        };
        Ok(
            Transaction {
                rw: write,
                tx: Some(tx),
                done: None,
                undone: None,
                _db: engine::share(&self.db),
            },
        )
    }
}

/// One transaction on the store: open until it is committed or cancelled,
/// read-only or read-write for its whole life.
///
/// Its view is the [`State`] that the contracts speak of. A transaction
/// that is dropped while open is rolled back by the engine.
pub struct Transaction {
    // Is the transaction read+write?
    rw: bool,
    // The engine transaction. The transaction is open while this is held,
    // and closed once it was handed back to the engine
    tx: Option<TransactionType>,
    // What the engine answered to the commit, once it has confirmed it
    done: Option<Committed>,
    // What the engine answered to the rollback, once it has confirmed it
    undone: Option<RolledBack>,
    // Keeps the engine alive for as long as its transaction
    _db: Arc<redb::Database>,
}

impl View for Transaction {
    type V = State;

    closed spec fn view(&self) -> State {
        State {
            closed: self.tx is None,
            writable: self.rw,
            store: match self.tx {
                Some(tx) => tx.store(),
                None => Map::empty(),
            },
            committed: self.done is Some,
            rolled_back: self.undone is Some,
        }
    }
}

impl Transaction {
    /// The engine transaction is of the kind that the mode flag says, and
    /// while it is held the engine has confirmed neither end.
    #[verifier::type_invariant]
    spec fn kind_matches_mode(self) -> bool {
        self.tx matches Some(tx) ==> {
            &&& self.rw <==> tx is Write
            &&& self.done is None
            &&& self.undone is None
        }
    }

    /// The engine handle that this transaction keeps: that of the store
    /// that began it.
    pub closed spec fn engine(&self) -> redb::Database {
        *self._db
    }

    /// Takes the engine's write transaction out of an open read-write
    /// transaction, to be put back when the engine has worked on it.
    fn take_writer(&mut self) -> (tx: redb::WriteTransaction)
        requires
            old(self).tx is Some,
            old(self).rw,
        ensures
            old(self).tx == Some(TransactionType::Write(tx)),
            *final(self) == (Transaction { tx: None, ..*old(self) }),
            final(self).done is None,
            final(self).undone is None,
    {
        proof {
            use_type_invariant(&*self);
        }
        let mut slot: Option<TransactionType> = None;
        std::mem::swap(&mut slot, &mut self.tx);
        match slot {
            Some(TransactionType::Write(tx)) => tx,
            _ => unreached(),
        }
    }

    /// Check if closed
    ///
    /// A pure observer, for use at any time, also after the transaction was
    /// closed.
    pub fn closed(&self) -> (r: bool)
        ensures
            r == self@.closed,
    {
        self.tx.is_none()
    }

    /// Insert or update a key in the database
    ///
    /// Refused with `TransactionFinished` on a closed transaction, and
    /// with `TransactionReadonly` on an open read-only one; neither changes
    /// anything. Otherwise `key` holds `val` afterwards and nothing else
    /// has changed, unless the engine failed: then nothing is known of the
    /// store, and the error holds what the engine said.
    pub fn set(&mut self, key: Key, val: Val) -> (r: Result<(), Error>)
        ensures
            final(self).engine() == old(self).engine(),
            match r {
                Err(Error::EngineFailure(detail)) => {
                    &&& displayed_by::<redb::TableError>(detail)
                    &&& old(self)@.write_error() is None
                    &&& final(self)@ == old(self)@.with_store(final(self)@.store)
                },
                _ => (final(self)@, r) == old(self)@.set(key@, val@),
            },
    {
        // Check to see if transaction is closed
        if self.closed() {
            return Err(Error::TransactionFinished);
        }
        // Check to see if transaction is writable
        if !self.rw {
            return Err(Error::TransactionReadonly);
        }
        proof {
            lemma_table_is_named();
        }
        // Set the key
        let mut tx = self.take_writer();
        let done = surface(engine::write_insert(&mut tx, TABLE, key.as_slice(), val.as_slice()));
        self.tx = Some(TransactionType::Write(tx));
        done
    }

    /// Cancel a transaction
    ///
    /// Refused with `TransactionFinished` on a closed transaction.
    /// Otherwise the transaction is closed: a read-only one is let go,
    /// which cannot fail, and a read-write one is handed to the engine's
    /// rollback. Success on a read-write transaction means that the engine
    /// has confirmed the rollback. A failure that the engine reports of it
    /// is passed on, and the transaction is closed all the same.
    pub fn cancel(&mut self) -> (r: Result<(), Error>)
        ensures
            final(self).engine() == old(self).engine(),
            match r {
                Err(Error::EngineFailure(detail)) => {
                    &&& displayed_by::<redb::StorageError>(detail)
                    &&& old(self)@.write_error() is None
                    &&& final(self)@ == old(self)@.shut()
                },
                _ => (final(self)@, r) == old(self)@.cancel(),
            },
    {
        proof {
            use_type_invariant(&*self);
        }
        // Mark this transaction as done
        let mut slot: Option<TransactionType> = None;
        std::mem::swap(&mut slot, &mut self.tx);
        // Cancel this transaction
        match slot {
            None => Err(Error::TransactionFinished),
            Some(TransactionType::Read(_)) => Ok(()),
            Some(TransactionType::Write(tx)) => match surface(engine::abort(tx)) {
                Ok(undone) => {
                    self.undone = Some(undone);
                    Ok(())
                },
                Err(e) => Err(e),
            },
        }
    }

    /// Commit a transaction
    ///
    /// Refused with `TransactionFinished` on a closed transaction, and
    /// with `TransactionReadonly` on an open read-only one, which stays
    /// open. Otherwise the writes are handed to the engine's commit and the
    /// transaction is closed, whether the engine succeeds or fails; nothing
    /// is tried again. Success means that the engine has confirmed the
    /// commit.
    pub fn commit(&mut self) -> (r: Result<(), Error>)
        ensures
            final(self).engine() == old(self).engine(),
            match r {
                Err(Error::EngineFailure(detail)) => {
                    &&& displayed_by::<redb::CommitError>(detail)
                    &&& old(self)@.write_error() is None
                    &&& final(self)@ == old(self)@.shut()
                },
                _ => (final(self)@, r) == old(self)@.commit(),
            },
    {
        // Check to see if transaction is closed
        if self.closed() {
            return Err(Error::TransactionFinished);
        }
        // Check to see if transaction is writable
        if !self.rw {
            return Err(Error::TransactionReadonly);
        }
        // Mark this transaction as done, and commit it
        let tx = self.take_writer();
        match surface(engine::commit(tx)) {
            Ok(done) => {
                self.done = Some(done);
                Ok(())
            },
            Err(e) => Err(e),
        }
    }

    /// Check if a key exists
    ///
    /// Changes nothing. Refused with `TransactionFinished` on a closed
    /// transaction.
    pub fn exi(&mut self, key: Key) -> (r: Result<bool, Error>)
        ensures
            *final(self) == *old(self),
            match r {
                Err(Error::EngineFailure(detail)) => displayed_by::<redb::TableError>(detail)
                    && !old(self)@.closed,
                _ => r == old(self)@.exi(key@),
            },
    {
        match &self.tx {
            // Check to see if transaction is closed
            None => Err(Error::TransactionFinished),
            Some(tx) => match tx.get(key.as_slice()) {
                Ok(found) => Ok(found.is_some()),
                Err(e) => Err(e),
            },
        }
    }

    /// Fetch a key from the database
    ///
    /// Changes nothing. Refused with `TransactionFinished` on a closed
    /// transaction.
    pub fn get(&mut self, key: Key) -> (r: Result<Option<Val>, Error>)
        ensures
            *final(self) == *old(self),
            match r {
                Ok(found) => old(self)@.get(key@) == Ok::<Option<Bytes>, Error>(bytes_of(found)),
                Err(Error::EngineFailure(detail)) => displayed_by::<redb::TableError>(detail)
                    && !old(self)@.closed,
                Err(e) => old(self)@.get(key@) == Err::<Option<Bytes>, Error>(e),
            },
    {
        match &self.tx {
            // Check to see if transaction is closed
            None => Err(Error::TransactionFinished),
            Some(tx) => tx.get(key.as_slice()),
        }
    }

    /// Insert a key if it doesn't exist in the database
    ///
    /// Refused like `set`. Fails with `KeyAlreadyExists`, changing nothing,
    /// where an entry exists under `key`. An engine failure changes nothing
    /// either where an entry existed.
    pub fn put(&mut self, key: Key, val: Val) -> (r: Result<(), Error>)
        ensures
            final(self).engine() == old(self).engine(),
            match r {
                Err(Error::EngineFailure(detail)) => {
                    &&& displayed_by::<redb::TableError>(detail)
                    &&& old(self)@.write_error() is None
                    &&& final(self)@ == old(self)@.with_store(final(self)@.store)
                    &&& old(self)@.put(key@, val@).1 is Err ==> final(self)@ == old(self)@
                },
                _ => (final(self)@, r) == old(self)@.put(key@, val@),
            },
    {
        // Check to see if transaction is closed
        if self.closed() {
            return Err(Error::TransactionFinished);
        }
        // Check to see if transaction is writable
        if !self.rw {
            return Err(Error::TransactionReadonly);
        }
        proof {
            lemma_table_is_named();
        }
        // Get the transaction
        let mut tx = self.take_writer();
        // Set the key if empty
        let done = match surface(engine::write_get(&tx, TABLE, key.as_slice())) {
            Ok(found) => match check_vacant(&found) {
                Ok(()) => surface(
                    engine::write_insert(&mut tx, TABLE, key.as_slice(), val.as_slice()),
                ),
                Err(e) => Err(e),
            },
            Err(e) => Err(e),
        };
        self.tx = Some(TransactionType::Write(tx));
        done
    }

    /// Insert a key only if it matches a check value
    ///
    /// Refused like `set`. Writes `val` under `key` where the value stored
    /// there is `chk` byte for byte, or where nothing is stored and `chk`
    /// is `None`. In every other case it fails with `ConditionNotMet` and
    /// changes nothing. An engine failure changes nothing either where the
    /// condition was not met.
    pub fn putc(&mut self, key: Key, val: Val, chk: Option<Val>) -> (r: Result<(), Error>)
        ensures
            final(self).engine() == old(self).engine(),
            match r {
                Err(Error::EngineFailure(detail)) => {
                    &&& displayed_by::<redb::TableError>(detail)
                    &&& old(self)@.write_error() is None
                    &&& final(self)@ == old(self)@.with_store(final(self)@.store)
                    &&& old(self)@.putc(key@, val@, bytes_of(chk)).1 is Err ==> final(self)@ == old(
                        self,
                    )@
                },
                _ => (final(self)@, r) == old(self)@.putc(key@, val@, bytes_of(chk)),
            },
    {
        // Check to see if transaction is closed
        if self.closed() {
            return Err(Error::TransactionFinished);
        }
        // Check to see if transaction is writable
        if !self.rw {
            return Err(Error::TransactionReadonly);
        }
        proof {
            lemma_table_is_named();
        }
        // Get the transaction
        let mut tx = self.take_writer();
        // Set the key if valid
        let done = match surface(engine::write_get(&tx, TABLE, key.as_slice())) {
            Ok(found) => match check_expected(&found, &chk) {
                Ok(()) => surface(
                    engine::write_insert(&mut tx, TABLE, key.as_slice(), val.as_slice()),
                ),
                Err(e) => Err(e),
            },
            Err(e) => Err(e),
        };
        self.tx = Some(TransactionType::Write(tx));
        done
    }

    /// Delete a key
    ///
    /// Refused like `set`. Afterwards no entry is left under `key`; that
    /// there was none before is no error.
    pub fn del(&mut self, key: Key) -> (r: Result<(), Error>)
        ensures
            final(self).engine() == old(self).engine(),
            match r {
                Err(Error::EngineFailure(detail)) => {
                    &&& displayed_by::<redb::TableError>(detail)
                    &&& old(self)@.write_error() is None
                    &&& final(self)@ == old(self)@.with_store(final(self)@.store)
                },
                _ => (final(self)@, r) == old(self)@.del(key@),
            },
    {
        // Check to see if transaction is closed
        if self.closed() {
            return Err(Error::TransactionFinished);
        }
        // Check to see if transaction is writable
        if !self.rw {
            return Err(Error::TransactionReadonly);
        }
        proof {
            lemma_table_is_named();
        }
        // Remove the key
        let mut tx = self.take_writer();
        let done = surface(engine::write_remove(&mut tx, TABLE, key.as_slice()));
        self.tx = Some(TransactionType::Write(tx));
        done
    }

    /// Delete a key only if it matches a check value
    ///
    /// Refused like `set`. Compares like `putc`, and removes the entry where
    /// `putc` would write; in every other case it fails with
    /// `ConditionNotMet` and the entry stays.
    pub fn delc(&mut self, key: Key, chk: Option<Val>) -> (r: Result<(), Error>)
        ensures
            final(self).engine() == old(self).engine(),
            match r {
                Err(Error::EngineFailure(detail)) => {
                    &&& displayed_by::<redb::TableError>(detail)
                    &&& old(self)@.write_error() is None
                    &&& final(self)@ == old(self)@.with_store(final(self)@.store)
                    &&& old(self)@.delc(key@, bytes_of(chk)).1 is Err ==> final(self)@ == old(
                        self,
                    )@
                },
                _ => (final(self)@, r) == old(self)@.delc(key@, bytes_of(chk)),
            },
    {
        // Check to see if transaction is closed
        if self.closed() {
            return Err(Error::TransactionFinished);
        }
        // Check to see if transaction is writable
        if !self.rw {
            return Err(Error::TransactionReadonly);
        }
        proof {
            lemma_table_is_named();
        }
        // Get the transaction
        let mut tx = self.take_writer();
        // Delete the key if valid
        let done = match surface(engine::write_get(&tx, TABLE, key.as_slice())) {
            Ok(found) => match check_expected(&found, &chk) {
                Ok(()) => surface(engine::write_remove(&mut tx, TABLE, key.as_slice())),
                Err(e) => Err(e),
            },
            Err(e) => Err(e),
        };
        self.tx = Some(TransactionType::Write(tx));
        done
    }

    /// Retrieve a range of keys from the databases
    ///
    /// Changes nothing. Refused with `TransactionFinished` on a closed
    /// transaction. Otherwise the result holds the entries whose key is at
    /// least `rng.start` and less than `rng.end`, in ascending key order,
    /// and of those the first `limit`. What the engine lists is filtered
    /// against the range once more here. A read-write transaction sees its
    /// own writes, also the uncommitted ones; a read-only one sees its
    /// snapshot.
    pub fn scan(&mut self, rng: Range<Key>, limit: u32) -> (r: Result<Vec<(Key, Val)>, Error>)
        ensures
            *final(self) == *old(self),
            match r {
                Ok(out) => !old(self)@.closed && is_scan(
                    old(self)@.store,
                    rng.start@,
                    rng.end@,
                    limit as nat,
                    entries_view(out@),
                ),
                Err(Error::EngineFailure(detail)) => displayed_by::<redb::TableError>(detail)
                    && !old(self)@.closed,
                Err(e) => old(self)@.read_error() == Some(e),
            },
    {
        match &self.tx {
            // Check to see if transaction is closed
            None => Err(Error::TransactionFinished),
            Some(tx) => {
                // Set the key range
                let beg = rng.start.as_slice();
                let end = rng.end.as_slice();
                match tx.range(beg, end) {
                    Ok(entries) => {
                        proof {
                            lemma_clip_of_listing(
                                tx.store(),
                                beg@,
                                end@,
                                limit as nat,
                                entries_view(entries@),
                            );
                        }
                        // Check the scan limit, and the keys
                        Ok(clip(&entries, beg, end, limit))
                    },
                    Err(e) => Err(e),
                }
            },
        }
    }
}

} // verus!
