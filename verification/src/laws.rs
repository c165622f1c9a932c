//! What holds of the operations taken together, proved of the model that
//! their contracts are stated over.
use vstd::prelude::*;
use crate::err::Error;
use crate::model::{all_before, ascending, has_key, is_scan, Bytes, Entry, State, Store};
use crate::order::{in_range, lemma_lt_asymmetric, lemma_lt_irreflexive, lemma_lt_total, lex_lt};

verus! {

/// Within an open read-write transaction, a key that was set reads back as
/// the value it was set to.
pub proof fn lemma_set_then_get(s: State, key: Bytes, val: Bytes)
    requires
        !s.closed,
        s.writable,
    ensures
        s.set(key, val).1 is Ok,
        s.set(key, val).0.get(key) == Ok::<Option<Bytes>, Error>(Some(val)),
{
}

/// After a `put` that succeeded, a second `put` under the same key is
/// refused with `KeyAlreadyExists` and the first value stays.
pub proof fn lemma_put_twice(s: State, key: Bytes, first: Bytes, second: Bytes)
    requires
        s.put(key, first).1 is Ok,
    ensures
        s.put(key, first).0.put(key, second) == (
            s.put(key, first).0,
            Err::<(), Error>(Error::KeyAlreadyExists),
        ),
        s.put(key, first).0.lookup(key) == Some(first),
{
}

/// In an open read-write transaction, `putc` succeeds exactly where what is
/// stored under the key is what was expected: that value byte for byte, or
/// nothing where nothing was expected. It then stores the new value. In
/// every other case it fails with `ConditionNotMet` and changes nothing.
pub proof fn lemma_putc_compares(s: State, key: Bytes, val: Bytes, chk: Option<Bytes>)
    requires
        !s.closed,
        s.writable,
    ensures
        s.putc(key, val, chk).1 is Ok <==> s.lookup(key) == chk,
        s.lookup(key) == chk ==> s.putc(key, val, chk).0.store == s.store.insert(key, val),
        s.lookup(key) != chk ==> s.putc(key, val, chk) == (
            s,
            Err::<(), Error>(Error::ConditionNotMet),
        ),
        chk is None ==> (s.putc(key, val, chk).1 is Ok <==> !s.store.dom().contains(key)),
        chk matches Some(expected) ==> (s.putc(key, val, chk).1 is Ok <==> s.store.contains_pair(
            key,
            expected,
        )),
{
}

/// In an open read-write transaction, deleting an absent key succeeds and
/// leaves the store as it was.
pub proof fn lemma_del_absent(s: State, key: Bytes)
    requires
        !s.closed,
        s.writable,
        !s.store.dom().contains(key),
    ensures
        s.del(key) == (s, Ok::<(), Error>(())),
{
    assert(s.store.remove(key) =~= s.store);
}

/// In an open read-write transaction, `delc` removes the key exactly where
/// what is stored under it is what was expected. In every other case it
/// fails with `ConditionNotMet` and the entry stays.
pub proof fn lemma_delc_compares(s: State, key: Bytes, chk: Option<Bytes>)
    requires
        !s.closed,
        s.writable,
    ensures
        s.delc(key, chk).1 is Ok <==> s.lookup(key) == chk,
        s.lookup(key) == chk ==> s.delc(key, chk).0.store == s.store.remove(key) && s.delc(
            key,
            chk,
        ).0.lookup(key) is None,
        s.lookup(key) != chk ==> s.delc(key, chk) == (
            s,
            Err::<(), Error>(Error::ConditionNotMet),
        ),
        chk matches Some(expected) ==> (s.delc(key, chk).1 is Ok <==> s.store.contains_pair(
            key,
            expected,
        )),
{
}

/// A scan returns at most `limit` entries, each within the range, in
/// strictly ascending key order.
pub proof fn lemma_scan_bounds(store: Store, beg: Bytes, end: Bytes, limit: nat, out: Seq<Entry>)
    requires
        is_scan(store, beg, end, limit, out),
    ensures
        out.len() <= limit,
        forall|i: int|
            0 <= i < out.len() ==> store.contains_pair(#[trigger] out[i].0, out[i].1) && in_range(
                out[i].0,
                beg,
                end,
            ),
        ascending(out),
{
}

/// Two scans of one store agree up to the shorter one's length.
proof fn lemma_scans_agree(
    store: Store,
    beg: Bytes,
    end: Bytes,
    limit: nat,
    a: Seq<Entry>,
    b: Seq<Entry>,
    n: int,
)
    requires
        is_scan(store, beg, end, limit, a),
        is_scan(store, beg, end, limit, b),
        0 <= n <= a.len(),
        n <= b.len(),
    ensures
        forall|i: int| 0 <= i < n ==> a[i] == b[i],
    decreases n,
{
    if n > 0 {
        lemma_scans_agree(store, beg, end, limit, a, b, n - 1);
        let i = n - 1;
        let ka = a[i].0;
        let kb = b[i].0;
        assert(store.contains_pair(ka, a[i].1) && store.contains_pair(kb, b[i].1));
        lemma_lt_total(ka, kb);
        if lex_lt(ka, kb) {
            lemma_missing_is_later(store, beg, end, limit, b, a, i);
        } else if lex_lt(kb, ka) {
            lemma_missing_is_later(store, beg, end, limit, a, b, i);
        }
    }
}

/// Where two scans agree below `i`, the key that one holds at `i` does not
/// sort before the key that the other holds there.
proof fn lemma_missing_is_later(
    store: Store,
    beg: Bytes,
    end: Bytes,
    limit: nat,
    a: Seq<Entry>,
    b: Seq<Entry>,
    i: int,
)
    requires
        is_scan(store, beg, end, limit, a),
        is_scan(store, beg, end, limit, b),
        0 <= i < a.len(),
        i < b.len(),
        forall|j: int| 0 <= j < i ==> a[j] == b[j],
    ensures
        !lex_lt(b[i].0, a[i].0),
{
    let key = b[i].0;
    if lex_lt(key, a[i].0) {
        assert(store.contains_pair(key, b[i].1) && in_range(key, beg, end));
        assert(store.dom().contains(key) && in_range(key, beg, end));
        lemma_lt_asymmetric(key, a[i].0);
        lemma_lt_irreflexive(key);
        if has_key(a, key) {
            let m = choose|m: int| 0 <= m < a.len() && #[trigger] a[m].0 == key;
            if m < i {
                assert(b[m] == a[m]);
                assert(lex_lt(b[m].0, b[i].0));
            } else if m > i {
                assert(lex_lt(a[i].0, a[m].0));
            }
        } else {
            assert(all_before(a, key));
            assert(lex_lt(a[i].0, key));
        }
    }
}

/// A scan is determined by the store, the range and the limit: two results
/// that both are the scan are the same.
pub proof fn lemma_scan_unique(
    store: Store,
    beg: Bytes,
    end: Bytes,
    limit: nat,
    a: Seq<Entry>,
    b: Seq<Entry>,
)
    requires
        is_scan(store, beg, end, limit, a),
        is_scan(store, beg, end, limit, b),
    ensures
        a == b,
{
    let n = if a.len() <= b.len() { a.len() as int } else { b.len() as int };
    lemma_scans_agree(store, beg, end, limit, a, b, n);
    if a.len() <= b.len() {
        lemma_scans_end_together(store, beg, end, limit, a, b);
    } else {
        lemma_scans_end_together(store, beg, end, limit, b, a);
    }
    assert(a =~= b);
}

/// Two scans that agree as far as the shorter goes are of one length.
proof fn lemma_scans_end_together(
    store: Store,
    beg: Bytes,
    end: Bytes,
    limit: nat,
    a: Seq<Entry>,
    b: Seq<Entry>,
)
    requires
        is_scan(store, beg, end, limit, a),
        is_scan(store, beg, end, limit, b),
        a.len() <= b.len(),
        forall|i: int| 0 <= i < a.len() ==> a[i] == b[i],
    ensures
        a.len() == b.len(),
{
    if a.len() < b.len() {
        let n = a.len() as int;
        let key = b[n].0;
        assert(store.contains_pair(key, b[n].1) && in_range(key, beg, end));
        assert(store.dom().contains(key) && in_range(key, beg, end));
        lemma_lt_irreflexive(key);
        if has_key(a, key) {
            let m = choose|m: int| 0 <= m < a.len() && #[trigger] a[m].0 == key;
            assert(b[m] == a[m]);
            assert(lex_lt(b[m].0, b[n].0));
        }
    }
}

/// A scan does not depend on the order in which entries were written: the
/// stores that two orders of the same two writes leave have the same scan.
pub proof fn lemma_scan_ignores_write_order(
    s: State,
    k1: Bytes,
    v1: Bytes,
    k2: Bytes,
    v2: Bytes,
    beg: Bytes,
    end: Bytes,
    limit: nat,
    a: Seq<Entry>,
    b: Seq<Entry>,
)
    requires
        k1 != k2,
        is_scan(s.set(k1, v1).0.set(k2, v2).0.store, beg, end, limit, a),
        is_scan(s.set(k2, v2).0.set(k1, v1).0.store, beg, end, limit, b),
    ensures
        a == b,
{
    if s.write_error() is None {
        assert(s.store.insert(k1, v1).insert(k2, v2) =~= s.store.insert(k2, v2).insert(k1, v1));
    }
    lemma_scan_unique(s.set(k1, v1).0.set(k2, v2).0.store, beg, end, limit, a, b);
}

/// Commit closes the transaction that it accepts, and a closed transaction
/// refuses every operation with `TransactionFinished` and stays as it is.
pub proof fn lemma_finished_after_commit(
    s: State,
    key: Bytes,
    val: Bytes,
    chk: Option<Bytes>,
)
    requires
        s.commit().1 is Ok,
    ensures
        refuses_all(s.commit().0, key, val, chk),
{
}

/// Cancel closes the transaction that it accepts, and a closed transaction
/// refuses every operation with `TransactionFinished` and stays as it is.
pub proof fn lemma_finished_after_cancel(
    s: State,
    key: Bytes,
    val: Bytes,
    chk: Option<Bytes>,
)
    requires
        s.cancel().1 is Ok,
    ensures
        refuses_all(s.cancel().0, key, val, chk),
{
}

/// Every operation on `s` fails with `TransactionFinished` and leaves `s`
/// as it is.
pub open spec fn refuses_all(s: State, key: Bytes, val: Bytes, chk: Option<Bytes>) -> bool {
    let refused = (s, Err::<(), Error>(Error::TransactionFinished));
    &&& s.closed
    &&& s.read_error() == Some(Error::TransactionFinished)
    &&& s.exi(key) == Err::<bool, Error>(Error::TransactionFinished)
    &&& s.get(key) == Err::<Option<Bytes>, Error>(Error::TransactionFinished)
    &&& s.set(key, val) == refused
    &&& s.put(key, val) == refused
    &&& s.putc(key, val, chk) == refused
    &&& s.del(key) == refused
    &&& s.delc(key, chk) == refused
    &&& s.commit() == refused
    &&& s.cancel() == refused
}

/// A commit that succeeds leaves the transaction committed by the engine,
/// a cancel that succeeds leaves a read-write transaction rolled back by
/// the engine, and no other operation touches either mark.
pub proof fn lemma_only_the_engine_ends(s: State, key: Bytes, val: Bytes, chk: Option<Bytes>)
    ensures
        s.commit().1 is Ok ==> s.commit().0.committed && s.commit().0.rolled_back == s.rolled_back,
        s.cancel().1 is Ok ==> s.cancel().0.rolled_back == s.writable && s.cancel().0.committed
            == s.committed,
        s.commit().1 is Err ==> s.commit().0 == s,
        s.cancel().1 is Err ==> s.cancel().0 == s,
        s.set(key, val).0.committed == s.committed && s.set(key, val).0.rolled_back
            == s.rolled_back,
        s.put(key, val).0.committed == s.committed && s.put(key, val).0.rolled_back
            == s.rolled_back,
        s.putc(key, val, chk).0.committed == s.committed && s.putc(key, val, chk).0.rolled_back
            == s.rolled_back,
        s.del(key).0.committed == s.committed && s.del(key).0.rolled_back == s.rolled_back,
        s.delc(key, chk).0.committed == s.committed && s.delc(key, chk).0.rolled_back
            == s.rolled_back,
{
}

/// No operation changes the mode of a transaction.
pub proof fn lemma_mode_is_fixed(s: State, key: Bytes, val: Bytes, chk: Option<Bytes>)
    ensures
        s.set(key, val).0.writable == s.writable,
        s.put(key, val).0.writable == s.writable,
        s.putc(key, val, chk).0.writable == s.writable,
        s.del(key).0.writable == s.writable,
        s.delc(key, chk).0.writable == s.writable,
        s.commit().0.writable == s.writable,
        s.cancel().0.writable == s.writable,
{
}

/// A read-only transaction accepts no write: each fails with
/// `TransactionReadonly` while the transaction is open, and changes nothing.
pub proof fn lemma_readonly_refuses_writes(s: State, key: Bytes, val: Bytes, chk: Option<Bytes>)
    requires
        !s.closed,
        !s.writable,
    ensures
        s.set(key, val) == (s, Err::<(), Error>(Error::TransactionReadonly)),
        s.put(key, val) == (s, Err::<(), Error>(Error::TransactionReadonly)),
        s.putc(key, val, chk) == (s, Err::<(), Error>(Error::TransactionReadonly)),
        s.del(key) == (s, Err::<(), Error>(Error::TransactionReadonly)),
        s.delc(key, chk) == (s, Err::<(), Error>(Error::TransactionReadonly)),
        s.commit() == (s, Err::<(), Error>(Error::TransactionReadonly)),
{
}

} // verus!
