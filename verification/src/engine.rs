//! The boundary to the redb storage engine.
//!
//! Everything here is believed, not proved: the engine's types are opaque,
//! and each function states what the engine's source shows of one call.
//! A table handle lives only within one function here: it is opened, used
//! once and dropped, so none is ever open twice. Which table that is, the
//! caller says: every function that opens one takes its name.
use vstd::prelude::*;
use redb::{ReadableDatabase, ReadableTable, StorageError, TableDefinition, TableError};
use std::sync::Arc;
use crate::model::{bytes_of, entries_view, listing, lookup};

verus! {

/// The engine handle.
#[verifier::external_type_specification]
#[verifier::external_body]
pub struct ExDatabase(redb::Database);

/// A read transaction of the engine: a snapshot of the committed data.
#[verifier::external_type_specification]
#[verifier::external_body]
pub struct ExReadTransaction(redb::ReadTransaction);

/// A write transaction of the engine.
#[verifier::external_type_specification]
#[verifier::external_body]
pub struct ExWriteTransaction(redb::WriteTransaction);

/// Why the engine could not open a database.
#[verifier::external_type_specification]
#[verifier::external_body]
pub struct ExDatabaseError(redb::DatabaseError);

/// Why the engine could not begin a transaction.
#[verifier::external_type_specification]
#[verifier::external_body]
pub struct ExTransactionError(redb::TransactionError);

/// Why the engine could not open the table or work on it.
#[verifier::external_type_specification]
#[verifier::external_body]
pub struct ExTableError(redb::TableError);

/// Why the engine could not commit.
#[verifier::external_type_specification]
#[verifier::external_body]
pub struct ExCommitError(redb::CommitError);

/// A failure of the engine's storage.
#[verifier::external_type_specification]
#[verifier::external_body]
pub struct ExStorageError(redb::StorageError);

/// The entries of the table named `table` as a read transaction sees them.
/// A table that does not exist holds no entries.
pub uninterp spec fn read_table(tx: redb::ReadTransaction, table: Seq<char>) -> Map<
    Seq<u8>,
    Seq<u8>,
>;

/// The entries of the table named `table` as a write transaction sees
/// them, its own pending writes included.
pub uninterp spec fn write_table(tx: redb::WriteTransaction, table: Seq<char>) -> Map<
    Seq<u8>,
    Seq<u8>,
>;

/// Why a read transaction could not read the table.
pub enum ReadFailure {
    /// The table does not exist in what the transaction sees.
    NoTable,
    /// Any other failure that the engine reports.
    Engine(redb::TableError),
}

/// The word of the engine that it committed a write transaction. Only
/// [`commit`] makes one.
pub struct Committed {
    sealed: (),
}

/// The word of the engine that it rolled a write transaction back. Only
/// [`abort`] makes one.
pub struct RolledBack {
    sealed: (),
}

/// `Arc::clone`: one more handle to the same database.
#[verifier::external_body]
pub(crate) fn share(db: &Arc<redb::Database>) -> (r: Arc<redb::Database>)
    ensures
        r == *db,
{
    Arc::clone(db)
}

/// `Database::create`: opens the file at `path` as a database and
/// initialises it when it is missing or empty. Nothing is claimed of the
/// outcome.
#[verifier::external_body]
pub(crate) fn create(path: &str) -> (r: Result<redb::Database, redb::DatabaseError>) {
    redb::Database::create(path)
}

/// `Database::begin_read`: a snapshot of what was committed before the
/// call. Nothing is claimed of what it holds.
#[verifier::external_body]
pub(crate) fn begin_read(db: &redb::Database) -> (r: Result<
    redb::ReadTransaction,
    redb::TransactionError,
>) {
    db.begin_read()
}

/// `Database::begin_write`: the database's one write transaction. The call
/// waits until any earlier write transaction has ended. Nothing is claimed
/// of what the transaction holds.
#[verifier::external_body]
pub(crate) fn begin_write(db: &redb::Database) -> (r: Result<
    redb::WriteTransaction,
    redb::TransactionError,
>) {
    db.begin_write()
}

/// `ReadTransaction::open_table`, then `ReadOnlyTable::get`: the value
/// stored under `key`, if any. That the table does not exist is told apart
/// from the engine's other failures; it then holds no entry.
#[verifier::external_body]
pub(crate) fn read_get(tx: &redb::ReadTransaction, table: &str, key: &[u8]) -> (r: Result<
    Option<Vec<u8>>,
    ReadFailure,
>)
    requires
        table@.len() > 0,
    ensures
        match r {
            Ok(found) => bytes_of(found) == lookup(read_table(*tx, table@), key@),
            Err(ReadFailure::NoTable) => lookup(read_table(*tx, table@), key@) is None,
            Err(ReadFailure::Engine(_)) => true,
        },
{
    let opened = match tx.open_table(TableDefinition::<&[u8], &[u8]>::new(table)) {
        Ok(opened) => opened,
        Err(TableError::TableDoesNotExist(_)) => return Err(ReadFailure::NoTable),
        Err(e) => return Err(ReadFailure::Engine(e)),
    };
    match opened.get(key) {
        Ok(found) => Ok(found.map(|guard| guard.value().to_vec())),
        Err(e) => Err(ReadFailure::Engine(e.into())),
    }
}

/// `ReadTransaction::open_table`, then `ReadOnlyTable::range`, walked from
/// the front to its end or to the first error: the entries of the table in
/// ascending key order, every key from `beg` up to but without `end` among
/// them. That no other key comes back is not claimed. That the table does
/// not exist is told apart from the engine's other failures; it then holds
/// no entry of the range.
#[verifier::external_body]
pub(crate) fn read_range(tx: &redb::ReadTransaction, table: &str, beg: &[u8], end: &[u8]) -> (r:
    Result<Vec<(Vec<u8>, Vec<u8>)>, ReadFailure>)
    requires
        table@.len() > 0,
    ensures
        match r {
            Ok(entries) => listing(read_table(*tx, table@), beg@, end@, entries_view(entries@)),
            Err(ReadFailure::NoTable) => listing(
                read_table(*tx, table@),
                beg@,
                end@,
                Seq::empty(),
            ),
            Err(ReadFailure::Engine(_)) => true,
        },
{
    let fail = |e: StorageError| ReadFailure::Engine(e.into());
    let opened = match tx.open_table(TableDefinition::<&[u8], &[u8]>::new(table)) {
        Ok(opened) => opened,
        Err(TableError::TableDoesNotExist(_)) => return Err(ReadFailure::NoTable),
        Err(e) => return Err(ReadFailure::Engine(e)),
    };
    let mut entries = Vec::new();
    for item in opened.range::<&[u8]>(beg..end).map_err(fail)? {
        let (key, val) = item.map_err(fail)?;
        entries.push((key.value().to_vec(), val.value().to_vec()));
    }
    Ok(entries)
}

/// `WriteTransaction::open_table`, then `Table::get`: the value stored
/// under `key`, if any. Opening creates a missing table, which leaves it
/// with what it held: nothing.
#[verifier::external_body]
pub(crate) fn write_get(tx: &redb::WriteTransaction, table: &str, key: &[u8]) -> (r: Result<
    Option<Vec<u8>>,
    redb::TableError,
>)
    requires
        table@.len() > 0,
    ensures
        r matches Ok(found) ==> bytes_of(found) == lookup(write_table(*tx, table@), key@),
{
    let opened = tx.open_table(TableDefinition::<&[u8], &[u8]>::new(table))?;
    let found = ReadableTable::get(&opened, key)?;
    Ok(found.map(|guard| guard.value().to_vec()))
}

/// `WriteTransaction::open_table`, then `Table::range`, walked from the
/// front to its end or to the first error: as `read_range`, on the table as
/// the write transaction sees it.
#[verifier::external_body]
pub(crate) fn write_range(tx: &redb::WriteTransaction, table: &str, beg: &[u8], end: &[u8]) -> (r:
    Result<Vec<(Vec<u8>, Vec<u8>)>, redb::TableError>)
    requires
        table@.len() > 0,
    ensures
        r matches Ok(entries) ==> listing(
            write_table(*tx, table@),
            beg@,
            end@,
            entries_view(entries@),
        ),
{
    let opened = tx.open_table(TableDefinition::<&[u8], &[u8]>::new(table))?;
    let mut entries = Vec::new();
    for item in ReadableTable::range::<&[u8]>(&opened, beg..end)? {
        let (key, val) = item?;
        entries.push((key.value().to_vec(), val.value().to_vec()));
    }
    Ok(entries)
}

/// `WriteTransaction::open_table`, then `Table::insert`: on success `key`
/// maps to `val` and every other entry is as before. Nothing is claimed of
/// the table after a failure.
#[verifier::external_body]
pub(crate) fn write_insert(
    tx: &mut redb::WriteTransaction,
    table: &str,
    key: &[u8],
    val: &[u8],
) -> (r: Result<(), redb::TableError>)
    requires
        table@.len() > 0,
    ensures
        r is Ok ==> write_table(*final(tx), table@) == write_table(*old(tx), table@).insert(
            key@,
            val@,
        ),
{
    let mut opened = tx.open_table(TableDefinition::<&[u8], &[u8]>::new(table))?;
    opened.insert(key, val)?;
    Ok(())
}

/// `WriteTransaction::open_table`, then `Table::remove`: on success no
/// entry is left under `key` and every other entry is as before. Nothing is
/// claimed of the table after a failure.
#[verifier::external_body]
pub(crate) fn write_remove(tx: &mut redb::WriteTransaction, table: &str, key: &[u8]) -> (r: Result<
    (),
    redb::TableError,
>)
    requires
        table@.len() > 0,
    ensures
        r is Ok ==> write_table(*final(tx), table@) == write_table(*old(tx), table@).remove(key@),
{
    let mut opened = tx.open_table(TableDefinition::<&[u8], &[u8]>::new(table))?;
    opened.remove(key)?;
    Ok(())
}

/// `WriteTransaction::commit`: makes the transaction's writes visible to
/// later transactions. Whether it succeeds is the engine's to say; a
/// success comes with the engine's word of it.
#[verifier::external_body]
pub(crate) fn commit(tx: redb::WriteTransaction) -> (r: Result<Committed, redb::CommitError>) {
    tx.commit().map(|()| Committed { sealed: () })
}

/// `WriteTransaction::abort`: rolls the transaction's writes back. Whether
/// it succeeds is the engine's to say; a success comes with the engine's
/// word of it.
#[verifier::external_body]
pub(crate) fn abort(tx: redb::WriteTransaction) -> (r: Result<RolledBack, redb::StorageError>) {
    tx.abort().map(|()| RolledBack { sealed: () })
}

} // verus!
