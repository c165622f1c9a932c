//! The order of keys: byte strings compared lexicographically.
use vstd::prelude::*;

verus! {

/// `a` and `b` hold the same bytes at every index below `n`.
pub open spec fn agree_upto(a: Seq<u8>, b: Seq<u8>, n: int) -> bool {
    &&& 0 <= n <= a.len()
    &&& n <= b.len()
    &&& forall|i: int| 0 <= i < n ==> a[i] == b[i]
}

/// Index `n` settles the order in favour of `a`: the two agree below `n`,
/// and there `a` ends while `b` goes on, or `a` holds the smaller byte.
pub open spec fn precedes_at(a: Seq<u8>, b: Seq<u8>, n: int) -> bool {
    &&& agree_upto(a, b, n)
    &&& n < b.len()
    &&& n < a.len() ==> a[n] < b[n]
}

/// `a` sorts strictly before `b`: `a` is a proper prefix of `b`, or at the
/// first index where the two differ `a` holds the smaller byte.
pub open spec fn lex_lt(a: Seq<u8>, b: Seq<u8>) -> bool {
    exists|n: int| precedes_at(a, b, n)
}

/// `a` sorts before `b` or is `b`.
pub open spec fn lex_le(a: Seq<u8>, b: Seq<u8>) -> bool {
    a == b || lex_lt(a, b)
}

/// `key` lies in the half-open range from `beg` to `end`.
pub open spec fn in_range(key: Seq<u8>, beg: Seq<u8>, end: Seq<u8>) -> bool {
    lex_le(beg, key) && lex_lt(key, end)
}

/// No key sorts before itself.
pub proof fn lemma_lt_irreflexive(a: Seq<u8>)
    ensures
        !lex_lt(a, a),
{
}

/// Of two keys at most one sorts before the other.
pub proof fn lemma_lt_asymmetric(a: Seq<u8>, b: Seq<u8>)
    ensures
        !(lex_lt(a, b) && lex_lt(b, a)),
{
    if lex_lt(a, b) && lex_lt(b, a) {
        let n = choose|n: int| precedes_at(a, b, n);
        let m = choose|m: int| precedes_at(b, a, m);
        if n < m {
            assert(b[n] == a[n]);
        } else if m < n {
            assert(a[m] == b[m]);
        }
    }
}

/// The order is transitive.
pub proof fn lemma_lt_transitive(a: Seq<u8>, b: Seq<u8>, c: Seq<u8>)
    requires
        lex_lt(a, b),
        lex_lt(b, c),
    ensures
        lex_lt(a, c),
{
    let n = choose|n: int| precedes_at(a, b, n);
    let m = choose|m: int| precedes_at(b, c, m);
    let first = if n <= m { n } else { m };
    assert(precedes_at(a, c, first));
}

/// Two keys that agree below `n` are equal or one sorts before the other.
proof fn lemma_total_from(a: Seq<u8>, b: Seq<u8>, n: int)
    requires
        agree_upto(a, b, n),
    ensures
        a == b || lex_lt(a, b) || lex_lt(b, a),
    decreases a.len() - n,
{
    if n == a.len() || n == b.len() {
        if a.len() == b.len() {
            assert(a =~= b);
        } else if n == a.len() {
            assert(precedes_at(a, b, n));
        } else {
            assert(precedes_at(b, a, n));
        }
    } else if a[n] == b[n] {
        assert(agree_upto(a, b, n + 1));
        lemma_total_from(a, b, n + 1);
    } else if a[n] < b[n] {
        assert(precedes_at(a, b, n));
    } else {
        assert(precedes_at(b, a, n));
    }
}

/// The order is total: two keys are equal or one sorts before the other.
pub proof fn lemma_lt_total(a: Seq<u8>, b: Seq<u8>)
    ensures
        a == b || lex_lt(a, b) || lex_lt(b, a),
{
    assert(agree_upto(a, b, 0));
    lemma_total_from(a, b, 0);
}

/// `a <= b` holds exactly when `b` does not sort before `a`.
pub proof fn lemma_le_is_not_gt(a: Seq<u8>, b: Seq<u8>)
    ensures
        lex_le(a, b) <==> !lex_lt(b, a),
{
    lemma_lt_total(a, b);
    lemma_lt_asymmetric(a, b);
    lemma_lt_irreflexive(a);
}

/// Whether `a` sorts strictly before `b`.
pub fn key_lt(a: &[u8], b: &[u8]) -> (r: bool)
    ensures
        r == lex_lt(a@, b@),
{
    let mut i: usize = 0;
    while i < a.len() && i < b.len()
        invariant
            agree_upto(a@, b@, i as int),
        decreases a.len() - i,
    {
        if a[i] != b[i] {
            let less = a[i] < b[i];
            proof {
                if less {
                    assert(precedes_at(a@, b@, i as int));
                } else {
                    assert(precedes_at(b@, a@, i as int));
                    lemma_lt_asymmetric(a@, b@);
                }
            }
            return less;
        }
        i += 1;
    }
    let less = i < b.len();
    proof {
        if less {
            assert(precedes_at(a@, b@, i as int));
        } else if i < a.len() {
            assert(precedes_at(b@, a@, i as int));
            lemma_lt_asymmetric(a@, b@);
        } else {
            assert(a@ =~= b@);
            lemma_lt_irreflexive(a@);
        }
    }
    less
}

/// Whether `key` lies in the half-open range from `beg` to `end`.
pub fn key_in_range(key: &[u8], beg: &[u8], end: &[u8]) -> (r: bool)
    ensures
        r == in_range(key@, beg@, end@),
{
    proof {
        lemma_le_is_not_gt(beg@, key@);
    }
    !key_lt(key, beg) && key_lt(key, end)
}

} // verus!
