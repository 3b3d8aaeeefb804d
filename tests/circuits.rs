use dark_perps::circuits::{
    compute_opening_fee, deposit_circuit, funding_rate_long_pay_short_circuit,
    health_check_long_circuit, open_position_circuit, view_balance, AppState, Health,
};
use dark_perps::engine::{ClearEngine, HomomorphicEngine};
use dark_perps::error::LedgerError;
use dark_perps::users::Position;

fn key(b: u8) -> [u8; 32] {
    let mut k = [0u8; 32];
    k[0] = b;
    k
}

fn ready() -> AppState<ClearEngine> {
    let mut s: AppState<ClearEngine> = AppState::new();
    assert!(s.install_engine(ClearEngine::new()));
    s
}

/// An account funded with `amount`, and margin and leverage stored.
fn funded(amount: u64, margin: u64, leverage: u64) -> AppState<ClearEngine> {
    let mut s = ready();
    assert!(s.create_account(1));
    assert_eq!(deposit_circuit(&mut s, 1, amount, key(1)), Ok(()));
    assert_eq!(s.store_encrypted(1, margin, key(2)), Ok(()));
    assert_eq!(s.store_encrypted(1, leverage, key(3)), Ok(()));
    s
}

fn open(s: &mut AppState<ClearEngine>, notional: u64, margin: u64, leverage: u64) -> Result<u128, LedgerError> {
    open_position_circuit(s, 1, 500, true, notional, leverage, margin, key(2), key(3), key(4))
}

#[test]
fn clear_engine_round_trip() {
    let e = ClearEngine::new();
    for v in [0u64, 1, 150, u64::MAX] {
        assert_eq!(e.decrypt(&e.encrypt(v)), v);
    }
}

#[test]
fn clear_engine_homomorphism() {
    let e = ClearEngine::new();
    let a = e.encrypt(100);
    let b = e.encrypt(50);
    assert_eq!(e.decrypt(&e.add(&a, &b)), 150);
    assert_eq!(e.decrypt(&e.sub(&a, &b)), 50);
    let (product, over) = e.overflowing_mul(&a, &b);
    assert_eq!(e.decrypt(&product), 5000);
    assert!(!e.decrypt_flag(&over));
    let big = e.encrypt(1u64 << 32);
    let (wrapped, over) = e.overflowing_mul(&big, &big);
    assert_eq!(e.decrypt(&wrapped), 0);
    assert!(e.decrypt_flag(&over));
    assert!(e.decrypt_flag(&e.flag_and(&e.flag_not(&over), &e.ge(&a, &b))) == false);
    assert_eq!(e.decrypt(&e.sub(&b, &a)), 50u64.wrapping_sub(100));
    assert!(e.decrypt_flag(&e.ge(&a, &b)));
    assert!(!e.decrypt_flag(&e.ge(&b, &a)));
    assert!(e.decrypt_flag(&e.eq(&a, &e.encrypt(100))));
}

#[test]
fn opening_fee_rounds_up() {
    assert_eq!(compute_opening_fee(1000), 10);
    assert_eq!(compute_opening_fee(1001), 11);
    assert_eq!(compute_opening_fee(0), 0);
    assert_eq!(compute_opening_fee(1), 1);
    assert_eq!(compute_opening_fee(u64::MAX), 184467440737095517);
}

#[test]
fn engine_is_installed_once() {
    let mut s: AppState<ClearEngine> = AppState::new();
    assert!(!s.has_engine());
    assert!(s.install_engine(ClearEngine::new()));
    assert!(!s.install_engine(ClearEngine::new()));
    assert!(s.has_engine());
}

#[test]
fn circuits_fail_without_engine() {
    let mut s: AppState<ClearEngine> = AppState::new();
    assert!(s.create_account(1));
    assert_eq!(deposit_circuit(&mut s, 1, 5, key(1)), Err(LedgerError::EncryptionContextUnset));
    assert_eq!(view_balance(&s, 1), Err(LedgerError::EncryptionContextUnset));
    assert_eq!(s.store_encrypted(1, 5, key(1)), Err(LedgerError::EncryptionContextUnset));
    assert!(s.ciphertext_cache().get_ciphertext(key(1)).is_none());
}

#[test]
fn deposit_into_missing_account() {
    let mut s = ready();
    assert_eq!(deposit_circuit(&mut s, 7, 5, key(1)), Err(LedgerError::ReferenceNotFound));
    assert!(s.ciphertext_cache().get_ciphertext(key(1)).is_none());
}

#[test]
fn first_deposit_on_occupied_key() {
    let mut s = ready();
    assert!(s.create_account(1));
    assert_eq!(s.store_encrypted(2, 77, key(1)), Ok(()));
    assert_eq!(deposit_circuit(&mut s, 1, 5, key(1)), Err(LedgerError::DuplicateKey));
    assert_eq!(deposit_circuit(&mut s, 1, 5, [0u8; 32]), Err(LedgerError::DuplicateKey));
    assert_eq!(view_balance(&s, 1), Err(LedgerError::ReferenceNotFound));
    assert_eq!(s.ciphertext_cache().get_ciphertext(key(1)).unwrap().ciphertext, 77);
}

#[test]
fn deposit_key_stability() {
    let mut s = ready();
    assert!(s.create_account(1));
    assert_eq!(deposit_circuit(&mut s, 1, 100, key(1)), Ok(()));
    assert_eq!(deposit_circuit(&mut s, 1, 50, key(2)), Ok(()));
    assert_eq!(*s.user_cache().get_balance(1).unwrap(), key(1));
    assert_eq!(view_balance(&s, 1), Ok(150));
    assert!(s.ciphertext_cache().get_ciphertext(key(2)).is_none());
}

#[test]
fn unit_deposits_sum_exactly() {
    let mut s = ready();
    assert!(s.create_account(1));
    let n: u64 = 64;
    for i in 0..n {
        assert_eq!(deposit_circuit(&mut s, 1, 1, key((i % 250) as u8 + 1)), Ok(()));
    }
    assert_eq!(view_balance(&s, 1), Ok(n));
}

#[test]
fn open_position_accepted() {
    let mut s = funded(5000, 100, 10);
    let id = open(&mut s, 1000, 100, 10).unwrap();
    assert_eq!(id, 0);
    assert_eq!(view_balance(&s, 1), Ok(4900));
    assert_eq!(s.position_cache().len(), 1);
    let booked = *s.position_cache().get_position(0, true).unwrap();
    let held = s.user_cache().get_user(1).unwrap().positions[0];
    assert_eq!(booked.id, held.id);
    assert_eq!(booked.notional, 1000);
    assert_eq!(held.notional, 1000);
    assert_eq!(booked.entry_price, 500);
    assert_eq!(booked.leverage, key(3));
    assert_eq!(booked.initial_margin, key(2));
    assert_eq!(booked.liqudation_price, key(4));
    assert_eq!(held.liqudation_price, key(4));
}

#[test]
fn open_position_rejected_on_mismatch() {
    let mut s = funded(5000, 100, 5);
    assert_eq!(open(&mut s, 1000, 100, 5), Err(LedgerError::ValidationFailed));
    assert_eq!(view_balance(&s, 1), Ok(5000));
    assert_eq!(s.position_cache().len(), 0);
    assert!(s.user_cache().get_user(1).unwrap().positions.is_empty());
    assert!(s.ciphertext_cache().get_ciphertext(key(4)).is_none());
}

#[test]
fn open_position_reference_failures() {
    let mut s = ready();
    assert!(s.create_account(1));
    assert_eq!(open(&mut s, 1000, 100, 10), Err(LedgerError::ReferenceNotFound));
    assert_eq!(deposit_circuit(&mut s, 1, 5000, key(1)), Ok(()));
    assert_eq!(open(&mut s, 1000, 100, 10), Err(LedgerError::ReferenceNotFound));
    assert_eq!(s.store_encrypted(1, 100, key(2)), Ok(()));
    assert_eq!(s.store_encrypted(1, 10, key(3)), Ok(()));
    assert_eq!(s.store_encrypted(1, 1, key(4)), Ok(()));
    assert_eq!(open(&mut s, 1000, 100, 10), Err(LedgerError::DuplicateKey));
    assert_eq!(s.position_cache().len(), 0);
    assert_eq!(view_balance(&s, 1), Ok(5000));
}

#[test]
fn liquidation_price_formula() {
    let mut s = funded(5000, 100, 10);
    assert_eq!(open(&mut s, 1000, 100, 10), Ok(0));
    let liq = s.ciphertext_cache().get_ciphertext(key(4)).unwrap();
    assert_eq!(liq.ciphertext, 890);
    assert_eq!(liq.owner, 1);
}

#[test]
fn health_check_boundary() {
    let mut s = funded(5000, 100, 10);
    assert_eq!(open(&mut s, 1000, 100, 10), Ok(0));
    let p = *s.position_cache().get_position(0, true).unwrap();
    assert_eq!(health_check_long_circuit(&s, &p, 890), Ok(Health::Solvent));
    assert_eq!(health_check_long_circuit(&s, &p, 889), Ok(Health::Insolvent));
    assert_eq!(health_check_long_circuit(&s, &p, 10_000), Ok(Health::Solvent));
    let dangling = Position { liqudation_price: key(200), ..p };
    assert_eq!(health_check_long_circuit(&s, &dangling, 890), Err(LedgerError::ReferenceNotFound));
}

#[test]
fn funding_shifts_liquidation_price() {
    let mut s = funded(5000, 100, 10);
    assert_eq!(open(&mut s, 1000, 100, 10), Ok(0));
    let p = *s.position_cache().get_position(0, true).unwrap();
    assert_eq!(funding_rate_long_pay_short_circuit(&mut s, &p, 10), Ok(()));
    let liq = s.ciphertext_cache().get_ciphertext(key(4)).unwrap();
    assert_eq!(liq.ciphertext, 880);
    assert_eq!(liq.owner, 1);
    assert_eq!(health_check_long_circuit(&s, &p, 880), Ok(Health::Solvent));
    assert_eq!(health_check_long_circuit(&s, &p, 879), Ok(Health::Insolvent));
    let dangling = Position { liqudation_price: key(200), ..p };
    assert_eq!(funding_rate_long_pay_short_circuit(&mut s, &dangling, 1), Err(LedgerError::ReferenceNotFound));
}

#[test]
fn open_position_rejects_overflowing_product() {
    let big = 1u64 << 32;
    let mut s = funded(5000, big, big);
    assert_eq!(open(&mut s, 0, big, big), Err(LedgerError::ValidationFailed));
    assert_eq!(view_balance(&s, 1), Ok(5000));
    assert_eq!(s.position_cache().len(), 0);
    assert!(s.ciphertext_cache().get_ciphertext(key(4)).is_none());
}
