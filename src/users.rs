//! Accounts and the positions they hold.
use crate::refkey::{is_sentinel, sentinel_key, RefKey};
use vstd::prelude::*;

verus! {

/// An open position. `notional` and `entry_price` are public; leverage,
/// initial margin and liquidation price are references into the
/// ciphertext store.
#[derive(Clone, Copy, Debug)]
pub struct Position {
    pub id: u128,
    /// `true` for a long position.
    pub direction: bool,
    pub notional: u64,
    pub entry_price: u64,
    pub leverage: RefKey,
    pub initial_margin: RefKey,
    pub liqudation_price: RefKey,
}

/// An account: its id, the reference of its encrypted balance (the
/// sentinel while never funded), and its positions in opening order.
pub struct User {
    pub id: u128,
    pub positions: Vec<Position>,
    pub balance: RefKey,
}

/// What an account holds, with its positions as a sequence.
pub struct UserView {
    pub id: u128,
    pub positions: Seq<Position>,
    pub balance: RefKey,
}

impl View for User {
    type V = UserView;

    open spec fn view(&self) -> UserView {
        UserView { id: self.id, positions: self.positions@, balance: self.balance }
    }
}

/// A fresh account: never funded, without positions.
pub fn create_user(id: u128) -> (r: User)
    ensures
        r@ == (UserView { id, positions: Seq::empty(), balance: r.balance }),
        is_sentinel(r.balance),
{
    User { id, positions: Vec::new(), balance: sentinel_key() }
}

pub struct CreateUserRequest {
    pub user_id: u128,
}

pub struct GetUserRequest {
    pub user_id: u128,
}

pub struct CreateUserResponse {
    pub user_id: u128,
    pub message: String,
}

pub struct GetUserResponse {
    pub user_id: u128,
    pub positions: Vec<Position>,
    pub balance: RefKey,
}

pub struct DepositRequest {
    pub user_id: u128,
    pub amount: u64,
    pub key: RefKey,
}

pub struct DepositResponse {
    pub message: String,
}

pub struct ViewBalanceRequest {
    pub user_id: u128,
}

pub struct ViewBalanceResponse {
    pub plaintext: u64,
}

/// An opening whose leverage and margin are already stored encrypted, named
/// by their references.
pub struct OpenPositionRequest {
    pub user_id: u128,
    pub direction: bool,
    pub notional: u64,
    pub leverage: RefKey,
    pub initial_margin: RefKey,
}

/// An opening with leverage and margin given in the clear; they are
/// encrypted and stored before the circuit runs.
pub struct OpenPositionRequestTEST {
    pub user_id: u128,
    pub direction: bool,
    pub entry_price: u64,
    pub notional: u64,
    pub leverage: u64,
    pub initial_margin: u64,
}

pub struct OpenPositionResponse {
    pub message: String,
}

} // verus!
