use dark_perps::cache::{AccountCache, CiphertextCache, PositionCache};
use dark_perps::error::LedgerError;
use dark_perps::refkey::{key_is_sentinel, keys_equal, sentinel_key};
use dark_perps::users::{create_user, Position};

fn key(b: u8) -> [u8; 32] {
    let mut k = [0u8; 32];
    k[31] = b;
    k
}

fn position(direction: bool, notional: u64) -> Position {
    Position {
        id: 999,
        direction,
        notional,
        entry_price: 7,
        leverage: key(1),
        initial_margin: key(2),
        liqudation_price: key(3),
    }
}

#[test]
fn sentinel_key_is_all_zero() {
    assert!(key_is_sentinel(&sentinel_key()));
    assert!(!key_is_sentinel(&key(1)));
    let mut k = [0u8; 32];
    k[0] = 1;
    assert!(!key_is_sentinel(&k));
}

#[test]
fn keys_compare_bytewise() {
    assert!(keys_equal(&key(5), &key(5)));
    assert!(!keys_equal(&key(5), &key(6)));
}

#[test]
fn insert_on_occupied_key_fails_and_keeps_value() {
    let mut c: CiphertextCache<u64> = CiphertextCache::new();
    assert!(c.add_ciphertext(key(1), 10, 100));
    assert!(!c.add_ciphertext(key(1), 20, 555));
    let e = c.get_ciphertext(key(1)).unwrap();
    assert_eq!(e.ciphertext, 100);
    assert_eq!(e.owner, 10);
    assert_eq!(e.key, key(1));
}

#[test]
fn update_never_creates_a_key() {
    let mut c: CiphertextCache<u64> = CiphertextCache::new();
    assert!(!c.update_ciphertext(key(4), 1, 5));
    assert!(c.get_ciphertext(key(4)).is_none());
    assert!(c.add_ciphertext(key(4), 1, 5));
    assert!(c.update_ciphertext(key(4), 2, 6));
    let e = c.get_ciphertext(key(4)).unwrap();
    assert_eq!(e.ciphertext, 6);
    assert_eq!(e.owner, 2);
}

#[test]
fn missing_ciphertext_reads_as_none() {
    let mut c: CiphertextCache<u64> = CiphertextCache::new();
    assert!(c.add_ciphertext(key(1), 1, 1));
    assert!(c.add_ciphertext(key(2), 1, 2));
    assert!(c.get_ciphertext(key(3)).is_none());
    assert_eq!(c.get_ciphertext(key(2)).unwrap().ciphertext, 2);
}

#[test]
fn fresh_user_is_unfunded() {
    let u = create_user(42);
    assert_eq!(u.id, 42);
    assert!(u.positions.is_empty());
    assert!(key_is_sentinel(&u.balance));
}

#[test]
fn add_user_is_idempotent() {
    let mut a = AccountCache::new();
    assert!(a.add_user(create_user(1)));
    assert!(!a.add_user(create_user(1)));
    assert!(a.user_exists(1));
    assert!(!a.user_exists(2));
    assert_eq!(a.get_all_users().len(), 1);
}

#[test]
fn balance_key_updates() {
    let mut a = AccountCache::new();
    assert!(a.add_user(create_user(1)));
    assert_eq!(a.update_balance(1, key(9)), Ok(()));
    assert_eq!(*a.get_balance(1).unwrap(), key(9));
    assert_eq!(a.update_balance(2, key(9)), Err(LedgerError::ReferenceNotFound));
    assert!(a.get_balance(2).is_none());
}

#[test]
fn account_positions_append_in_order() {
    let mut a = AccountCache::new();
    assert!(a.add_user(create_user(1)));
    assert_eq!(a.add_position(1, position(true, 10)), Ok(()));
    assert_eq!(a.add_position(1, position(false, 20)), Ok(()));
    assert_eq!(a.add_position(3, position(false, 20)), Err(LedgerError::ReferenceNotFound));
    let u = a.get_user(1).unwrap();
    assert_eq!(u.positions.len(), 2);
    assert_eq!(u.positions[0].notional, 10);
    assert_eq!(u.positions[1].notional, 20);
}

#[test]
fn position_ids_are_issued_by_the_book() {
    let mut b = PositionCache::new();
    assert_eq!(b.add_position(position(true, 10)), 0);
    assert_eq!(b.add_position(position(false, 20)), 1);
    assert_eq!(b.add_position(position(true, 30)), 2);
    assert_eq!(b.len(), 3);
    assert_eq!(b.get_position(2, true).unwrap().notional, 30);
    assert_eq!(b.get_position(2, true).unwrap().id, 2);
    assert_eq!(b.get_position(1, false).unwrap().notional, 20);
    assert!(b.get_position(1, true).is_none());
    assert!(b.get_position(999, true).is_none());
}
