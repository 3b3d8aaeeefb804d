use dark_perps::circuits::AppState;
use dark_perps::engine::ClearEngine;
use dark_perps::error::LedgerError;
use dark_perps::handlers::{
    create_user_handler, deposit_handler, encrypt_handler, funding_rate_long_pay_short_handler,
    get_user_handler, health_check_long_handler, open_position_handler, view_balance_handler,
    EncryptRequest, FundingRateLPSRequest, HealthCheckRequest,
};
use dark_perps::refkey::key_is_sentinel;
use dark_perps::users::{
    CreateUserRequest, DepositRequest, GetUserRequest, OpenPositionRequestTEST, ViewBalanceRequest,
};

fn key(b: u8) -> [u8; 32] {
    let mut k = [0u8; 32];
    k[5] = b;
    k
}

fn ready() -> AppState<ClearEngine> {
    let mut s: AppState<ClearEngine> = AppState::new();
    assert!(s.install_engine(ClearEngine::new()));
    s
}

fn with_account(balance: u64) -> AppState<ClearEngine> {
    let mut s = ready();
    assert_eq!(create_user_handler(&mut s, CreateUserRequest { user_id: 1 }).0, 201);
    let (code, _) = deposit_handler(&mut s, DepositRequest { user_id: 1, amount: balance, key: key(1) });
    assert_eq!(code, 200);
    s
}

fn open_request(leverage: u64) -> OpenPositionRequestTEST {
    OpenPositionRequestTEST {
        user_id: 1,
        direction: true,
        entry_price: 500,
        notional: 1000,
        leverage,
        initial_margin: 100,
    }
}

#[test]
fn create_user_reports_conflict() {
    let mut s = ready();
    let (code, body) = create_user_handler(&mut s, CreateUserRequest { user_id: 3 });
    assert_eq!(code, 201);
    assert_eq!(body.user_id, 3);
    assert_eq!(body.message, "User created successfully");
    let (code, body) = create_user_handler(&mut s, CreateUserRequest { user_id: 3 });
    assert_eq!(code, 409);
    assert_eq!(body.message, "User already exists");
}

#[test]
fn get_user_of_unknown_account() {
    let s = ready();
    let (code, body) = get_user_handler(&s, GetUserRequest { user_id: 8 });
    assert_eq!(code, 404);
    assert_eq!(body.user_id, 8);
    assert!(body.positions.is_empty());
    assert!(key_is_sentinel(&body.balance));
}

#[test]
fn deposit_and_view_balance() {
    let mut s = with_account(100);
    let (code, body) = deposit_handler(&mut s, DepositRequest { user_id: 1, amount: 50, key: key(2) });
    assert_eq!(code, 200);
    assert_eq!(body.message, "Deposit successful");
    let (code, body) = view_balance_handler(&s, ViewBalanceRequest { user_id: 1 });
    assert_eq!(code, 200);
    assert_eq!(body.plaintext, 150);
    let (_, user) = get_user_handler(&s, GetUserRequest { user_id: 1 });
    assert_eq!(user.balance, key(1));
}

#[test]
fn deposit_failures_map_to_statuses() {
    let mut s = ready();
    let (code, body) = deposit_handler(&mut s, DepositRequest { user_id: 9, amount: 5, key: key(1) });
    assert_eq!(code, 404);
    assert_eq!(body.message, "ReferenceNotFound");
    let mut unset: AppState<ClearEngine> = AppState::new();
    let (code, body) = deposit_handler(&mut unset, DepositRequest { user_id: 9, amount: 5, key: key(1) });
    assert_eq!(code, 503);
    assert_eq!(body.message, "EncryptionContextUnset");
    let (code, body) = view_balance_handler(&s, ViewBalanceRequest { user_id: 9 });
    assert_eq!(code, 404);
    assert_eq!(body.plaintext, 0);
}

#[test]
fn error_statuses_and_names() {
    assert_eq!(LedgerError::ReferenceNotFound.status_code(), 404);
    assert_eq!(LedgerError::DuplicateKey.status_code(), 409);
    assert_eq!(LedgerError::ValidationFailed.status_code(), 400);
    assert_eq!(LedgerError::EncryptionContextUnset.status_code(), 503);
    assert_eq!(LedgerError::DuplicateKey.describe(), "DuplicateKey");
    assert_eq!(LedgerError::ValidationFailed.describe(), "ValidationFailed");
}

#[test]
fn encrypt_stores_under_returned_key() {
    let mut s = ready();
    let (code, body) = encrypt_handler(&mut s, EncryptRequest { user_id: 4, amount: 321 });
    assert_eq!(code, 200);
    let stored = s.ciphertext_cache().get_ciphertext(body.ciphertext).unwrap();
    assert_eq!(stored.ciphertext, 321);
    assert_eq!(stored.owner, 4);
    let (code2, body2) = encrypt_handler(&mut s, EncryptRequest { user_id: 4, amount: 1 });
    assert_eq!(code2, 200);
    assert_ne!(body.ciphertext, body2.ciphertext);
}

#[test]
fn open_position_through_handler() {
    let mut s = with_account(5000);
    let (code, body) = open_position_handler(&mut s, open_request(10));
    assert_eq!(code, 200);
    assert_eq!(body.message, "Position opened successfully");
    assert_eq!(view_balance_handler(&s, ViewBalanceRequest { user_id: 1 }).1.plaintext, 4900);
    let (_, user) = get_user_handler(&s, GetUserRequest { user_id: 1 });
    assert_eq!(user.positions.len(), 1);
    let p = user.positions[0];
    assert_eq!(s.ciphertext_cache().get_ciphertext(p.liqudation_price).unwrap().ciphertext, 890);
    assert_eq!(s.ciphertext_cache().get_ciphertext(p.leverage).unwrap().ciphertext, 10);
    assert_eq!(s.ciphertext_cache().get_ciphertext(p.initial_margin).unwrap().ciphertext, 100);
}

#[test]
fn open_position_handler_rejects_mismatch() {
    let mut s = with_account(5000);
    let (code, body) = open_position_handler(&mut s, open_request(5));
    assert_eq!(code, 400);
    assert_eq!(body.message, "ValidationFailed");
    assert_eq!(view_balance_handler(&s, ViewBalanceRequest { user_id: 1 }).1.plaintext, 5000);
    assert_eq!(s.position_cache().len(), 0);
    let mut empty = ready();
    assert_eq!(open_position_handler(&mut empty, open_request(10)).0, 404);
}

#[test]
fn health_and_funding_through_handlers() {
    let mut s = with_account(5000);
    assert_eq!(open_position_handler(&mut s, open_request(10)).0, 200);
    let (code, body) = health_check_long_handler(&s, HealthCheckRequest { position_id: 0, mark_price: 890 });
    assert_eq!((code, body.status.as_str()), (200, "Solvent"));
    let (code, body) = health_check_long_handler(&s, HealthCheckRequest { position_id: 0, mark_price: 889 });
    assert_eq!((code, body.status.as_str()), (400, "Insolvent"));
    let (code, _) = health_check_long_handler(&s, HealthCheckRequest { position_id: 5, mark_price: 1 });
    assert_eq!(code, 404);
    let (code, body) = funding_rate_long_pay_short_handler(&mut s, FundingRateLPSRequest { position_id: 0, delta_percent: 3 });
    assert_eq!((code, body.status.as_str()), (200, "Success"));
    let (code, _) = health_check_long_handler(&s, HealthCheckRequest { position_id: 0, mark_price: 860 });
    assert_eq!(code, 200);
    let (code, _) = health_check_long_handler(&s, HealthCheckRequest { position_id: 0, mark_price: 859 });
    assert_eq!(code, 400);
    let (code, body) = funding_rate_long_pay_short_handler(&mut s, FundingRateLPSRequest { position_id: 0, delta_percent: u64::MAX });
    assert_eq!((code, body.status.as_str()), (400, "ValidationFailed"));
    let (code, _) = funding_rate_long_pay_short_handler(&mut s, FundingRateLPSRequest { position_id: 9, delta_percent: 1 });
    assert_eq!(code, 404);
}

#[test]
fn open_position_handler_rejects_overflow() {
    let mut s = with_account(5000);
    let req = OpenPositionRequestTEST {
        user_id: 1,
        direction: true,
        entry_price: 1,
        notional: 0,
        leverage: 1u64 << 32,
        initial_margin: 1u64 << 32,
    };
    let (code, body) = open_position_handler(&mut s, req);
    assert_eq!(code, 400);
    assert_eq!(body.message, "ValidationFailed");
    assert_eq!(view_balance_handler(&s, ViewBalanceRequest { user_id: 1 }).1.plaintext, 5000);
}
