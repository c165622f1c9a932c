use redb_kvs::kvs::{check_expected, check_vacant, surface, unavailable};
use redb_kvs::order::{key_in_range, key_lt};
use redb_kvs::scan::clip;
use redb_kvs::Error;

fn e(key: &str, val: &str) -> (Vec<u8>, Vec<u8>) {
    (key.as_bytes().to_vec(), val.as_bytes().to_vec())
}

#[test]
fn key_lt_compares_the_first_differing_byte() {
    assert!(key_lt(b"a", b"b"));
    assert!(!key_lt(b"b", b"a"));
    assert!(key_lt(b"ab", b"ac"));
    assert!(key_lt(b"abz", b"ac"));
    assert!(!key_lt(b"ac", b"abz"));
    assert!(key_lt(&[0x00], &[0xff]));
    assert!(key_lt(&[0x7f], &[0x80]));
    assert!(!key_lt(&[0x80], &[0x7f]));
}

#[test]
fn key_lt_puts_a_prefix_first() {
    assert!(key_lt(b"", b"a"));
    assert!(key_lt(b"a", b"aa"));
    assert!(key_lt(b"a", &[b'a', 0x00]));
    assert!(!key_lt(b"aa", b"a"));
    assert!(!key_lt(b"a", b""));
}

#[test]
fn key_lt_is_strict() {
    assert!(!key_lt(b"", b""));
    assert!(!key_lt(b"a", b"a"));
    assert!(!key_lt(b"abc", b"abc"));
}

#[test]
fn key_lt_agrees_with_the_order_of_slices() {
    let keys: [&[u8]; 8] = [b"", b"a", b"aa", b"ab", b"b", &[0x00], &[0xff], &[0xff, 0x00]];
    for a in keys {
        for b in keys {
            assert_eq!(key_lt(a, b), a < b);
        }
    }
}

#[test]
fn key_in_range_is_half_open() {
    assert!(key_in_range(b"a", b"a", b"c"));
    assert!(key_in_range(b"b", b"a", b"c"));
    assert!(key_in_range(b"bzzz", b"a", b"c"));
    assert!(!key_in_range(b"c", b"a", b"c"));
    assert!(!key_in_range(b"", b"a", b"c"));
    assert!(!key_in_range(b"d", b"a", b"c"));
    assert!(!key_in_range(b"a", b"a", b"a"));
    assert!(!key_in_range(b"b", b"c", b"a"));
}

#[test]
fn clip_drops_what_lies_outside_the_range() {
    let listed = vec![e("a", "1"), e("b", "2"), e("c", "3"), e("d", "4"), e("e", "5")];
    assert_eq!(clip(&listed, b"b", b"d", 10), vec![e("b", "2"), e("c", "3")]);
    assert_eq!(clip(&listed, b"", b"z", 10), listed);
    assert_eq!(clip(&listed, b"f", b"z", 10), vec![]);
    assert_eq!(clip(&listed, b"d", b"b", 10), vec![]);
}

#[test]
fn clip_counts_only_what_it_keeps() {
    let listed = vec![e("a", "1"), e("b", "2"), e("c", "3"), e("d", "4"), e("e", "5")];
    assert_eq!(clip(&listed, b"b", b"z", 2), vec![e("b", "2"), e("c", "3")]);
    assert_eq!(clip(&listed, b"b", b"z", 0), vec![]);
    assert_eq!(clip(&listed, b"b", b"z", 4), vec![e("b", "2"), e("c", "3"), e("d", "4"), e("e", "5")]);
    assert_eq!(clip(&listed, b"b", b"z", u32::MAX).len(), 4);
    assert_eq!(clip(&Vec::new(), b"b", b"z", 3), vec![]);
}

#[test]
fn clip_keeps_the_order_it_is_given() {
    let listed = vec![e("c", "3"), e("z", "0"), e("a", "1"), e("b", "2")];
    assert_eq!(clip(&listed, b"a", b"d", 2), vec![e("c", "3"), e("a", "1")]);
}

#[test]
fn check_vacant_refuses_an_occupied_key() {
    assert_eq!(check_vacant(&None), Ok(()));
    assert_eq!(check_vacant(&Some(b"1".to_vec())), Err(Error::KeyAlreadyExists));
    assert_eq!(check_vacant(&Some(Vec::new())), Err(Error::KeyAlreadyExists));
}

#[test]
fn check_expected_compares_byte_for_byte() {
    assert_eq!(check_expected(&None, &None), Ok(()));
    assert_eq!(check_expected(&Some(b"v".to_vec()), &Some(b"v".to_vec())), Ok(()));
    assert_eq!(check_expected(&Some(Vec::new()), &Some(Vec::new())), Ok(()));
    assert_eq!(check_expected(&Some(b"v".to_vec()), &Some(b"w".to_vec())), Err(Error::ConditionNotMet));
    assert_eq!(check_expected(&Some(b"v".to_vec()), &Some(b"vv".to_vec())), Err(Error::ConditionNotMet));
    assert_eq!(check_expected(&Some(b"v".to_vec()), &None), Err(Error::ConditionNotMet));
    assert_eq!(check_expected(&None, &Some(b"v".to_vec())), Err(Error::ConditionNotMet));
    assert_eq!(check_expected(&Some(Vec::new()), &None), Err(Error::ConditionNotMet));
    assert_eq!(check_expected(&None, &Some(Vec::new())), Err(Error::ConditionNotMet));
}

#[test]
fn surface_keeps_the_engine_message() {
    assert_eq!(surface::<u8, redb::StorageError>(Ok(7)), Ok(7));
    let failed = surface::<u8, redb::StorageError>(Err(redb::StorageError::Corrupted("page 3".to_string())));
    assert_eq!(failed, Err(Error::EngineFailure("DB corrupted: page 3".to_string())));
    let failed = surface::<(), redb::CommitError>(Err(redb::CommitError::TransactionPoisoned));
    match failed {
        Err(Error::EngineFailure(detail)) => assert!(!detail.is_empty()),
        other => panic!("wrong outcome: {:?}", other),
    }
}

#[test]
fn unavailable_keeps_the_engine_message() {
    assert_eq!(unavailable::<u8, redb::DatabaseError>(Ok(7)), Ok(7));
    let failed = unavailable::<u8, redb::DatabaseError>(Err(redb::DatabaseError::DatabaseAlreadyOpen));
    assert_eq!(
        failed,
        Err(Error::StoreUnavailable("Database already open. Cannot acquire lock.".to_string()))
    );
}

// A small generator of byte strings over a narrow alphabet, so that equal
// keys, prefixes and near misses all occur.
fn next(seed: &mut u64) -> u64 {
    *seed = seed.wrapping_mul(6364136223846793005).wrapping_add(1442695040888963407);
    *seed >> 33
}

fn some_key(seed: &mut u64) -> Vec<u8> {
    let len = next(seed) % 4;
    (0..len).map(|_| [0x00, 0x01, 0x7f, 0x80, 0xff][(next(seed) % 5) as usize]).collect()
}

#[test]
fn key_lt_agrees_with_the_order_of_slices_on_many_keys() {
    let mut seed = 7;
    for _ in 0..5000 {
        let a = some_key(&mut seed);
        let b = some_key(&mut seed);
        assert_eq!(key_lt(&a, &b), a < b);
        assert_eq!(key_lt(&b, &a), b < a);
    }
}

#[test]
fn clip_agrees_with_filter_and_take_on_many_lists() {
    let mut seed = 11;
    for _ in 0..2000 {
        let n = next(&mut seed) % 8;
        let listed: Vec<(Vec<u8>, Vec<u8>)> =
            (0..n).map(|i| (some_key(&mut seed), vec![i as u8])).collect();
        let beg = some_key(&mut seed);
        let end = some_key(&mut seed);
        let limit = (next(&mut seed) % 6) as u32;
        let expected: Vec<(Vec<u8>, Vec<u8>)> = listed
            .iter()
            .filter(|(key, _)| key.as_slice() >= beg.as_slice() && key.as_slice() < end.as_slice())
            .take(limit as usize)
            .cloned()
            .collect();
        assert_eq!(clip(&listed, &beg, &end, limit), expected);
    }
}
