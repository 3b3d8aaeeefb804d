//! Request handling: each handler runs one circuit on a request and shapes
//! its outcome into a status code and a response body.
use crate::circuits::{
    balance_result, deposit_circuit, deposit_outcome, funding_outcome, liquidation_price,
    open_position_circuit,
    funding_rate_long_pay_short_circuit, health_check_long_circuit, health_result, view_balance,
    store_outcome, AppState, Health,
};
use crate::engine::HomomorphicEngine;
use crate::tfhe_engine::{encodable, encoding, TfheEngine};
use crate::error::{code_of, message_of, status_result, LedgerError};
use crate::refkey::{is_sentinel, RefKey};
use crate::users::{
    CreateUserRequest, CreateUserResponse, DepositRequest, DepositResponse, GetUserRequest,
    GetUserResponse, OpenPositionRequestTEST, OpenPositionResponse, Position, UserView,
    ViewBalanceRequest, ViewBalanceResponse,
};
use vstd::wrapping::u64_specs::wrapping_sub;
use vstd::prelude::*;

verus! {

pub struct EncryptRequest {
    pub user_id: u128,
    pub amount: u64,
}

pub struct EncryptResponse {
    /// The reference under which the ciphertext was stored.
    pub ciphertext: RefKey,
}

pub struct GetCiphertextResponse {
    /// The stored ciphertext in bincode's encoding; empty on failure.
    pub ciphertext: Vec<u8>,
}

pub struct HealthCheckRequest {
    pub position_id: u128,
    pub mark_price: u64,
}

pub struct HealthCheckResponse {
    pub status: String,
}

pub struct FundingRateLPSRequest {
    pub position_id: u128,
    /// The funding rate, in percent of the notional.
    pub delta_percent: u64,
}

pub struct FundingRateLPSResponse {
    pub status: String,
}

/// Relies on `rand::random::<[u8; 32]>`: bytes from the thread's generator.
/// Nothing is promised of them; a collision with a stored key is reported
/// by the store as `DuplicateKey`.
#[verifier::external_body]
fn fresh_key() -> (r: RefKey) {
    rand::random()
}

/// Registers account `user_id`: 201 when created, 409 when it exists.
pub fn create_user_handler<E: HomomorphicEngine>(
    state: &mut AppState<E>,
    req: CreateUserRequest,
) -> (r: (u16, CreateUserResponse))
    requires
        old(state).wf(),
    ensures
        final(state).wf(),
        r.1.user_id == req.user_id,
        !old(state).accounts().contains_key(req.user_id) ==> {
            &&& r.0 == 201
            &&& r.1.message@ == "User created successfully"@
            &&& final(state).accounts() == old(state).accounts().insert(
                req.user_id,
                UserView {
                    id: req.user_id,
                    positions: Seq::empty(),
                    balance: final(state).balance_key(req.user_id),
                },
            )
            &&& is_sentinel(final(state).balance_key(req.user_id))
        },
        old(state).accounts().contains_key(req.user_id) ==> {
            &&& r.0 == 409
            &&& r.1.message@ == "User already exists"@
            &&& final(state).accounts() == old(state).accounts()
        },
        final(state).engine() == old(state).engine(),
        final(state).ciphertexts() == old(state).ciphertexts(),
        final(state).book() == old(state).book(),
{
    if state.create_account(req.user_id) {
        (201, CreateUserResponse { user_id: req.user_id, message: "User created successfully".to_string() })
    } else {
        (409, CreateUserResponse { user_id: req.user_id, message: "User already exists".to_string() })
    }
}

/// Account `user_id`'s positions and balance reference: 200, or 404 with
/// no positions and the sentinel key when the account is unknown.
pub fn get_user_handler<E: HomomorphicEngine>(state: &AppState<E>, req: GetUserRequest) -> (r: (
    u16,
    GetUserResponse,
))
    ensures
        r.1.user_id == req.user_id,
        state.accounts().contains_key(req.user_id) ==> r.0 == 200 && r.1.positions@
            == state.accounts()[req.user_id].positions && r.1.balance == state.balance_key(
            req.user_id,
        ),
        !state.accounts().contains_key(req.user_id) ==> r.0 == LedgerError::ReferenceNotFound.spec_status()
            && r.1.positions@ == Seq::<Position>::empty() && is_sentinel(r.1.balance),
{
    match state.user_cache().get_user(req.user_id) {
        Some(user) => {
            let mut positions: Vec<Position> = Vec::new();
            let mut i: usize = 0;
            while i < user.positions.len()
                invariant
                    0 <= i <= user.positions@.len(),
                    positions@ == user.positions@.subrange(0, i as int),
                decreases user.positions@.len() - i,
            {
                positions.push(user.positions[i]);
                i = i + 1;
                assert(positions@ =~= user.positions@.subrange(0, i as int));
            }
            assert(positions@ =~= user.positions@);
            (200, GetUserResponse { user_id: req.user_id, positions, balance: user.balance })
        },
        None => (
            LedgerError::ReferenceNotFound.status_code(),
            GetUserResponse {
                user_id: req.user_id,
                positions: Vec::new(),
                balance: crate::refkey::sentinel_key(),
            },
        ),
    }
}

/// Runs a deposit; 200 on success, else the failure's status.
pub fn deposit_handler<E: HomomorphicEngine>(state: &mut AppState<E>, req: DepositRequest) -> (r: (
    u16,
    DepositResponse,
))
    requires
        old(state).wf(),
    ensures
        final(state).wf(),
        deposit_outcome(
            *old(state),
            *final(state),
            req.user_id,
            req.amount,
            req.key,
            status_result(r.0),
        ),
        r.0 == code_of(status_result(r.0)),
        r.1.message@ == message_of(status_result(r.0), "Deposit successful"@),
{
    match deposit_circuit(state, req.user_id, req.amount, req.key) {
        Ok(()) => (200, DepositResponse { message: "Deposit successful".to_string() }),
        Err(e) => (e.status_code(), DepositResponse { message: e.describe() }),
    }
}

/// Decrypts an account's balance; 200 with the value, else the failure's
/// status and 0.
pub fn view_balance_handler<E: HomomorphicEngine>(
    state: &AppState<E>,
    req: ViewBalanceRequest,
) -> (r: (u16, ViewBalanceResponse))
    requires
        state.wf(),
    ensures
        r.0 == code_of(balance_result(*state, req.user_id)),
        r.1.plaintext == match balance_result(*state, req.user_id) {
            Ok(v) => v,
            Err(_) => 0,
        },
{
    match view_balance(state, req.user_id) {
        Ok(v) => (200, ViewBalanceResponse { plaintext: v }),
        Err(e) => (e.status_code(), ViewBalanceResponse { plaintext: 0 }),
    }
}

/// Encrypts an amount for a user and stores it under a fresh random key,
/// which the response carries.
pub fn encrypt_handler<E: HomomorphicEngine>(state: &mut AppState<E>, req: EncryptRequest) -> (r: (
    u16,
    EncryptResponse,
))
    requires
        old(state).wf(),
    ensures
        final(state).wf(),
        store_outcome(
            *old(state),
            *final(state),
            req.user_id,
            req.amount,
            r.1.ciphertext,
            status_result(r.0),
        ),
        r.0 == code_of(status_result(r.0)),
{
    let key = fresh_key();
    match state.store_encrypted(req.user_id, req.amount, key) {
        Ok(()) => (200, EncryptResponse { ciphertext: key }),
        Err(e) => (e.status_code(), EncryptResponse { ciphertext: key }),
    }
}

/// How a health check answers: 200 "Solvent", 400 "Insolvent", or the
/// failure's status and name.
pub open spec fn health_response(r: Result<Health, LedgerError>) -> (u16, Seq<char>) {
    match r {
        Ok(Health::Solvent) => (200, "Solvent"@),
        Ok(Health::Insolvent) => (400, "Insolvent"@),
        Err(e) => (e.spec_status(), e.spec_name()@),
    }
}

/// Checks the long position `position_id` at the mark price.
pub fn health_check_long_handler<E: HomomorphicEngine>(
    state: &AppState<E>,
    req: HealthCheckRequest,
) -> (r: (u16, HealthCheckResponse))
    requires
        state.wf(),
    ensures
        (forall|i: int|
            0 <= i < state.book().longs().len() ==> #[trigger] state.book().longs()[i].id
                != req.position_id) ==> r.0 == 404 && r.1.status@ == "ReferenceNotFound"@,
        forall|i: int|
            0 <= i < state.book().longs().len() && #[trigger] state.book().longs()[i].id
                == req.position_id ==> (r.0, r.1.status@) == health_response(
                health_result(*state, state.book().longs()[i], req.mark_price),
            ),
{
    let book = state.position_cache();
    let position = match book.get_position(req.position_id, true) {
        Some(p) => *p,
        None => {
            assert(book.side(true) == book.longs());
            return (404, HealthCheckResponse { status: LedgerError::ReferenceNotFound.describe() });
        },
    };
    let ghost j = choose|j: int|
        0 <= j < book.side(true).len() && book.side(true)[j] == position && position.id
            == req.position_id;
    assert(forall|i: int|
        0 <= i < book.longs().len() && #[trigger] book.longs()[i].id == req.position_id ==> i
            == j) by {
        assert(book.side(true) == book.longs());
    }
    match health_check_long_circuit(state, &position, req.mark_price) {
        Ok(Health::Solvent) => (200, HealthCheckResponse { status: "Solvent".to_string() }),
        Ok(Health::Insolvent) => (400, HealthCheckResponse { status: "Insolvent".to_string() }),
        Err(e) => (e.status_code(), HealthCheckResponse { status: e.describe() }),
    }
}

/// The funding amount for a rate in percent: notional × rate / 100.
pub open spec fn funding_delta(notional: u64, delta_percent: u64) -> int {
    (notional as int * delta_percent as int) / 100
}

/// Applies funding to the long position `position_id`. The amount is
/// `notional × delta_percent / 100`; one that does not fit in 64 bits is
/// rejected with 400.
pub fn funding_rate_long_pay_short_handler<E: HomomorphicEngine>(
    state: &mut AppState<E>,
    req: FundingRateLPSRequest,
) -> (r: (u16, FundingRateLPSResponse))
    requires
        old(state).wf(),
    ensures
        final(state).wf(),
        (forall|i: int|
            0 <= i < old(state).book().longs().len() ==> #[trigger] old(state).book().longs()[i].id
                != req.position_id) ==> r.0 == 404 && r.1.status@ == "ReferenceNotFound"@
            && *final(state) == *old(state),
        forall|i: int|
            0 <= i < old(state).book().longs().len() && #[trigger] old(state).book().longs()[i].id
                == req.position_id ==> {
                let p = old(state).book().longs()[i];
                let d = funding_delta(p.notional, req.delta_percent);
                &&& d > u64::MAX ==> r.0 == 400 && r.1.status@ == "ValidationFailed"@
                    && *final(state) == *old(state)
                &&& d <= u64::MAX ==> {
                    &&& funding_outcome(*old(state), *final(state), p, d as u64, status_result(r.0))
                    &&& r.0 == code_of(status_result(r.0))
                    &&& r.1.status@ == message_of(status_result(r.0), "Success"@)
                }
            },
{
    let book = state.position_cache();
    let position = match book.get_position(req.position_id, true) {
        Some(p) => *p,
        None => {
            assert(book.side(true) == book.longs());
            return (404, FundingRateLPSResponse { status: LedgerError::ReferenceNotFound.describe() });
        },
    };
    let ghost j = choose|j: int|
        0 <= j < book.side(true).len() && book.side(true)[j] == position && position.id
            == req.position_id;
    assert(forall|i: int|
        0 <= i < book.longs().len() && #[trigger] book.longs()[i].id == req.position_id ==> i
            == j) by {
        assert(book.side(true) == book.longs());
    }
    proof {
        let a = position.notional as int;
        let b = req.delta_percent as int;
        assert(a * b <= 0xffff_ffff_ffff_ffff * 0xffff_ffff_ffff_ffff) by (nonlinear_arith)
            requires
                0 <= a <= 0xffff_ffff_ffff_ffff,
                0 <= b <= 0xffff_ffff_ffff_ffff,
        ;
    }
    let scaled: u128 = position.notional as u128 * req.delta_percent as u128;
    let delta: u128 = scaled / 100;
    if delta > u64::MAX as u128 {
        return (400, FundingRateLPSResponse { status: LedgerError::ValidationFailed.describe() });
    }
    match funding_rate_long_pay_short_circuit(state, &position, delta as u64) {
        Ok(()) => (200, FundingRateLPSResponse { status: "Success".to_string() }),
        Err(e) => (e.status_code(), FundingRateLPSResponse { status: e.describe() }),
    }
}

/// Whether account `user_id` exists and its balance is stored.
pub open spec fn funded<E: HomomorphicEngine>(state: AppState<E>, user_id: u128) -> bool {
    &&& state.accounts().contains_key(user_id)
    &&& !is_sentinel(state.balance_key(user_id))
    &&& state.ciphertexts().contains_key(state.balance_key(user_id))
}

/// `p` is the position that an accepted `req` opened, going from `s` to `t`.
pub open spec fn opened_as<E: HomomorphicEngine>(
    s: AppState<E>,
    t: AppState<E>,
    req: OpenPositionRequestTEST,
    p: Position,
) -> bool {
    &&& p.id == s.book().count() as u128
    &&& p.direction == req.direction
    &&& p.notional == req.notional
    &&& p.entry_price == req.entry_price
    &&& t.book().count() == s.book().count() + 1
    &&& t.book().side(req.direction) == s.book().side(req.direction).push(p)
    &&& t.book().side(!req.direction) == s.book().side(!req.direction)
    &&& t.accounts() == s.accounts().insert(
        req.user_id,
        UserView {
            positions: s.accounts()[req.user_id].positions.push(p),
            ..s.accounts()[req.user_id]
        },
    )
    &&& t.plain_at(p.leverage) == req.leverage
    &&& t.plain_at(p.initial_margin) == req.initial_margin
    &&& t.plain_at(p.liqudation_price) == liquidation_price(
        req.notional,
        req.initial_margin,
    )
    &&& t.plain_at(s.balance_key(req.user_id)) == wrapping_sub(
        s.plain_at(s.balance_key(req.user_id)),
        req.initial_margin,
    )
}

/// Opens a position from leverage and margin given in the clear: both are
/// encrypted and stored under fresh random keys, then the open-position
/// circuit runs with the liquidation price going under a third fresh key.
/// 200 on success, else the failure's status. A notional that is not
/// margin × leverage is turned away with 400 before anything is stored.
/// Any other failure leaves accounts and book untouched; inputs stored
/// before a key collision stay, like any stored value.
pub fn open_position_handler<E: HomomorphicEngine>(
    state: &mut AppState<E>,
    req: OpenPositionRequestTEST,
) -> (r: (u16, OpenPositionResponse))
    requires
        old(state).wf(),
    ensures
        final(state).wf(),
        final(state).engine() == old(state).engine(),
        r.0 == code_of(status_result(r.0)),
        r.1.message@ == message_of(status_result(r.0), "Position opened successfully"@),
        old(state).engine() is None ==> r.0 == 503 && *final(state) == *old(state),
        old(state).engine() is Some && !funded(*old(state), req.user_id) ==> r.0 == 404 && *final(state)
            == *old(state),
        old(state).engine() is Some && funded(*old(state), req.user_id) && req.notional as int
            != req.initial_margin as int * req.leverage as int ==> r.0 == 400 && *final(state)
            == *old(state),
        old(state).engine() is Some && funded(*old(state), req.user_id) && req.notional as int
            == req.initial_margin as int * req.leverage as int ==> r.0 == 200 || r.0 == 409,
        r.0 != 200 ==> final(state).accounts() == old(state).accounts() && final(state).book() == old(
            state,
        ).book(),
        r.0 == 200 ==> exists|p: Position| opened_as(*old(state), *final(state), req, p),
{
    if !state.has_engine() {
        return (503, OpenPositionResponse { message: LedgerError::EncryptionContextUnset.describe() });
    }
    let balance = match state.user_cache().get_balance(req.user_id) {
        Some(b) => *b,
        None => {
            return (404, OpenPositionResponse { message: LedgerError::ReferenceNotFound.describe() });
        },
    };
    if crate::refkey::key_is_sentinel(&balance) || state.ciphertext_cache().get_ciphertext(
        balance,
    ).is_none() {
        return (404, OpenPositionResponse { message: LedgerError::ReferenceNotFound.describe() });
    }
    if req.initial_margin.checked_mul(req.leverage) != Some(req.notional) {
        return (400, OpenPositionResponse { message: LedgerError::ValidationFailed.describe() });
    }
    let ghost s0 = *state;
    let leverage_key = fresh_key();
    if let Err(e) = state.store_encrypted(req.user_id, req.leverage, leverage_key) {
        return (e.status_code(), OpenPositionResponse { message: e.describe() });
    }
    let ghost s1 = *state;
    let initial_margin_key = fresh_key();
    if let Err(e) = state.store_encrypted(req.user_id, req.initial_margin, initial_margin_key) {
        return (e.status_code(), OpenPositionResponse { message: e.describe() });
    }
    let ghost s2 = *state;
    let (leverage_ciphertext, initial_margin_ciphertext) = match (
        state.encrypt_value(req.leverage),
        state.encrypt_value(req.initial_margin),
    ) {
        (Some(l), Some(m)) => (l, m),
        _ => {
            return (503, OpenPositionResponse { message: LedgerError::EncryptionContextUnset.describe() });
        },
    };
    let liqudation_price_key = fresh_key();
    proof {
        assert(s1.ciphertexts()[balance] == s0.ciphertexts()[balance]);
        assert(s2.ciphertexts()[balance] == s1.ciphertexts()[balance]);
        assert(s2.ciphertexts()[leverage_key] == s1.ciphertexts()[leverage_key]);
        assert(s2.ciphertexts().contains_key(leverage_key));
    }
    let opened = open_position_circuit(
        state,
        req.user_id,
        req.entry_price,
        req.direction,
        req.notional,
        leverage_ciphertext,
        initial_margin_ciphertext,
        initial_margin_key,
        leverage_key,
        liqudation_price_key,
    );
    match opened {
        Ok(id) => {
            proof {
                let t = state.ciphertexts();
                let p = Position {
                    id,
                    direction: req.direction,
                    notional: req.notional,
                    entry_price: req.entry_price,
                    leverage: leverage_key,
                    initial_margin: initial_margin_key,
                    liqudation_price: liqudation_price_key,
                };
                assert(t.remove(liqudation_price_key).remove(balance)[leverage_key] == t[leverage_key]);
                assert(t[leverage_key] == s2.ciphertexts()[leverage_key]);
                assert(t.remove(liqudation_price_key).remove(balance)[initial_margin_key]
                    == t[initial_margin_key]);
                assert(t[initial_margin_key] == s2.ciphertexts()[initial_margin_key]);
                assert(s2.accounts() == s0.accounts());
                assert(s2.book() == s0.book());
                assert(s2.plain_at(balance) == s0.plain_at(balance));
                assert(state.plain_at(leverage_key) == req.leverage);
                assert(state.plain_at(initial_margin_key) == req.initial_margin);
                assert(state.book().side(req.direction) == s0.book().side(req.direction).push(p));
                assert(opened_as(s0, *state, req, p));
            }
            (200, OpenPositionResponse { message: "Position opened successfully".to_string() })
        },
        Err(e) => (e.status_code(), OpenPositionResponse { message: e.describe() }),
    }
}

/// The ciphertext stored under `key`, encoded: 200, 404 when the key is
/// unknown, 500 when the encoder fails.
pub fn get_ciphertext_handler(state: &AppState<TfheEngine>, key: RefKey) -> (r: (
    u16,
    GetCiphertextResponse,
))
    requires
        state.wf(),
    ensures
        !state.ciphertexts().contains_key(key) ==> r.0 == 404 && r.1.ciphertext@ == Seq::<
            u8,
        >::empty(),
        state.ciphertexts().contains_key(key) && encodable(
            state.ciphertexts()[key].ciphertext.word(),
        ) ==> r.0 == 200 && r.1.ciphertext@ == encoding(
            state.ciphertexts()[key].ciphertext.word(),
        ),
        state.ciphertexts().contains_key(key) && !encodable(
            state.ciphertexts()[key].ciphertext.word(),
        ) ==> r.0 == 500 && r.1.ciphertext@ == Seq::<u8>::empty(),
{
    match state.ciphertext_cache().get_ciphertext(key) {
        Some(entry) => match entry.ciphertext.to_bytes() {
            Some(bytes) => (200, GetCiphertextResponse { ciphertext: bytes }),
            None => (500, GetCiphertextResponse { ciphertext: Vec::new() }),
        },
        None => (404, GetCiphertextResponse { ciphertext: Vec::new() }),
    }
}

} // verus!
