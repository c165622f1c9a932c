//! Clipping what the engine lists to the range and the limit of a scan.
use vstd::prelude::*;
use crate::model::{
    all_before, ascending, entries_view, has_key, is_scan, listing, Bytes, Entry, Store,
};
use crate::order::{in_range, key_in_range, lex_lt};

verus! {

/// The entries of `entries` whose key lies in the range from `beg` to
/// `end`, in their order.
pub open spec fn within(entries: Seq<Entry>, beg: Bytes, end: Bytes) -> Seq<Entry> {
    entries.filter(|e: Entry| in_range(e.0, beg, end))
}

/// The first `limit` items of `items`, or all of them where they are fewer.
pub open spec fn capped<A>(items: Seq<A>, limit: nat) -> Seq<A> {
    if items.len() <= limit {
        items
    } else {
        items.take(limit as int)
    }
}

/// The first `limit` entries of `entries` whose key lies in the range from
/// `beg` to `end`.
pub open spec fn clipped(entries: Seq<Entry>, beg: Bytes, end: Bytes, limit: nat) -> Seq<Entry> {
    capped(within(entries, beg, end), limit)
}

/// Taking one more entry into account either appends it or changes nothing.
proof fn lemma_clipped_step(entries: Seq<Entry>, beg: Bytes, end: Bytes, limit: nat, n: int)
    requires
        0 <= n < entries.len(),
    ensures
        clipped(entries.take(n + 1), beg, end, limit) == if in_range(entries[n].0, beg, end)
            && clipped(entries.take(n), beg, end, limit).len() < limit {
            clipped(entries.take(n), beg, end, limit).push(entries[n])
        } else {
            clipped(entries.take(n), beg, end, limit)
        },
{
    reveal(Seq::filter);
    let more = entries.take(n + 1);
    assert(more.drop_last() =~= entries.take(n));
    assert(more.last() == entries[n]);
    let before = within(entries.take(n), beg, end);
    if in_range(entries[n].0, beg, end) {
        assert(within(more, beg, end) == before.push(entries[n]));
        if before.len() < limit {
            assert(capped(before.push(entries[n]), limit) =~= capped(before, limit).push(entries[n]));
        } else {
            assert(capped(before.push(entries[n]), limit) =~= capped(before, limit));
        }
    } else {
        assert(within(more, beg, end) == before);
    }
}

/// Filtering keeps ascending entries ascending and takes them from where
/// they came.
proof fn lemma_within_ascending(entries: Seq<Entry>, beg: Bytes, end: Bytes)
    requires
        ascending(entries),
    ensures
        ascending(within(entries, beg, end)),
        forall|i: int|
            0 <= i < within(entries, beg, end).len() ==> entries.contains(
                #[trigger] within(entries, beg, end)[i],
            ) && in_range(within(entries, beg, end)[i].0, beg, end),
        forall|i: int|
            0 <= i < entries.len() && in_range(entries[i].0, beg, end) ==> within(
                entries,
                beg,
                end,
            ).contains(#[trigger] entries[i]),
    decreases entries.len(),
{
    reveal(Seq::filter);
    if entries.len() > 0 {
        let init = entries.drop_last();
        lemma_within_ascending(init, beg, end);
        let kept = within(init, beg, end);
        let all = within(entries, beg, end);
        assert forall|i: int| 0 <= i < all.len() implies entries.contains(#[trigger] all[i])
            && in_range(all[i].0, beg, end) by {
            if i < kept.len() {
                let m = choose|m: int| 0 <= m < init.len() && init[m] == kept[i];
                assert(entries[m] == all[i]);
            } else {
                assert(entries[entries.len() - 1] == all[i]);
            }
        }
        assert forall|i: int|
            0 <= i < entries.len() && in_range(entries[i].0, beg, end) implies all.contains(
            #[trigger] entries[i],
        ) by {
            if i < init.len() {
                assert(init[i] == entries[i]);
                let m = choose|m: int| 0 <= m < kept.len() && kept[m] == init[i];
                assert(all[m] == entries[i]);
            } else {
                assert(all[all.len() - 1] == entries[i]);
            }
        }
        assert forall|i: int, j: int| 0 <= i < j < all.len() implies lex_lt(
            #[trigger] all[i].0,
            #[trigger] all[j].0,
        ) by {
            if j < kept.len() {
                assert(all[i] == kept[i] && all[j] == kept[j]);
            } else {
                let m = choose|m: int| 0 <= m < init.len() && init[m] == kept[i];
                assert(entries[m] == all[i]);
                assert(entries[entries.len() - 1] == all[j]);
            }
        }
    }
}

/// Clipping a listing of `store` over a range gives the scan of that range.
pub proof fn lemma_clip_of_listing(
    store: Store,
    beg: Bytes,
    end: Bytes,
    limit: nat,
    listed: Seq<Entry>,
)
    requires
        listing(store, beg, end, listed),
    ensures
        is_scan(store, beg, end, limit, clipped(listed, beg, end, limit)),
{
    lemma_within_ascending(listed, beg, end);
    let all = within(listed, beg, end);
    let out = clipped(listed, beg, end, limit);
    assert forall|i: int| 0 <= i < out.len() implies store.contains_pair(
        #[trigger] out[i].0,
        out[i].1,
    ) && in_range(out[i].0, beg, end) by {
        assert(out[i] == all[i]);
        let m = choose|m: int| 0 <= m < listed.len() && listed[m] == all[i];
        assert(store.contains_pair(listed[m].0, listed[m].1));
    }
    assert forall|i: int, j: int| 0 <= i < j < out.len() implies lex_lt(
        #[trigger] out[i].0,
        #[trigger] out[j].0,
    ) by {
        assert(out[i] == all[i] && out[j] == all[j]);
    }
    assert forall|key: Bytes| #[trigger]
        store.dom().contains(key) && in_range(key, beg, end) implies has_key(out, key) || (
    out.len() == limit && all_before(out, key)) by {
        let m = choose|m: int| 0 <= m < listed.len() && #[trigger] listed[m].0 == key;
        assert(all.contains(listed[m]));
        let j = choose|j: int| 0 <= j < all.len() && all[j] == listed[m];
        if j < out.len() {
            assert(out[j].0 == key);
        } else {
            assert forall|i: int| 0 <= i < out.len() implies lex_lt(#[trigger] out[i].0, key) by {
                assert(out[i] == all[i]);
                assert(lex_lt(all[i].0, all[j].0));
            }
        }
    }
}

/// Keeps the entries whose key lies in the range from `beg` to `end`, in
/// their order, and of those the first `limit`.
pub fn clip(entries: &Vec<(Vec<u8>, Vec<u8>)>, beg: &[u8], end: &[u8], limit: u32) -> (out: Vec<
    (Vec<u8>, Vec<u8>),
>)
    ensures
        entries_view(out@) == clipped(entries_view(entries@), beg@, end@, limit as nat),
{
    let mut out: Vec<(Vec<u8>, Vec<u8>)> = Vec::new();
    let mut i: usize = 0;
    proof {
        reveal(Seq::filter);
        assert(entries_view(entries@).take(0) =~= Seq::<Entry>::empty());
        assert(entries_view(out@) =~= Seq::<Entry>::empty());
    }
    while i < entries.len()
        invariant
            i <= entries.len(),
            entries_view(out@) == clipped(
                entries_view(entries@).take(i as int),
                beg@,
                end@,
                limit as nat,
            ),
        decreases entries.len() - i,
    {
        let ghost before = out@;
        proof {
            lemma_clipped_step(entries_view(entries@), beg@, end@, limit as nat, i as int);
        }
        if out.len() < limit as usize && key_in_range(entries[i].0.as_slice(), beg, end) {
            let key = entries[i].0.clone();
            let val = entries[i].1.clone();
            proof {
                assert(key@ =~= entries[i as int].0@);
                assert(val@ =~= entries[i as int].1@);
            }
            out.push((key, val));
            proof {
                assert(entries_view(out@) =~= entries_view(before).push(
                    entries_view(entries@)[i as int],
                ));
            }
        }
        i += 1;
    }
    proof {
        assert(entries_view(entries@).take(i as int) =~= entries_view(entries@));
    }
    out
}

} // verus!
