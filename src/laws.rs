//! Properties that relate several operations, proved from their contracts.
use crate::circuits::{
    deposit_outcome, funding_outcome, open_position_outcome, opening_fee, AppState,
};
use crate::users::Position;
use crate::engine::HomomorphicEngine;
use crate::error::LedgerError;
use crate::refkey::{is_sentinel, RefKey};
use vstd::prelude::*;
use vstd::wrapping::u64_specs::{wrapping_add, wrapping_sub};

verus! {

/// Homomorphic addition: when `a + b` fits in 64 bits, the sum of an
/// encryption of `a` and an encryption of `b` decrypts to `a + b`.
pub proof fn lemma_homomorphic_add<E: HomomorphicEngine>(
    e: E,
    ca: E::Cipher,
    cb: E::Cipher,
    sum: E::Cipher,
    a: u64,
    b: u64,
)
    requires
        e.plain(&ca) == a,
        e.plain(&cb) == b,
        e.plain(&sum) == wrapping_add(e.plain(&ca), e.plain(&cb)),
        a + b <= u64::MAX,
    ensures
        e.plain(&sum) == a + b,
{
}

/// Homomorphic subtraction: when `b <= a`, the difference of an encryption
/// of `a` and an encryption of `b` decrypts to `a - b`.
pub proof fn lemma_homomorphic_sub<E: HomomorphicEngine>(
    e: E,
    ca: E::Cipher,
    cb: E::Cipher,
    diff: E::Cipher,
    a: u64,
    b: u64,
)
    requires
        e.plain(&ca) == a,
        e.plain(&cb) == b,
        e.plain(&diff) == wrapping_sub(e.plain(&ca), e.plain(&cb)),
        b <= a,
    ensures
        e.plain(&diff) == a - b,
{
}

/// Two deposits into a never-funded account both succeed when the first
/// proposed key is free; the balance stays under the first key, and it
/// decrypts to the sum of the two amounts.
pub proof fn lemma_deposit_key_stability<E: HomomorphicEngine>(
    s0: AppState<E>,
    s1: AppState<E>,
    s2: AppState<E>,
    user_id: u128,
    a1: u64,
    k1: RefKey,
    r1: Result<(), LedgerError>,
    a2: u64,
    k2: RefKey,
    r2: Result<(), LedgerError>,
)
    requires
        s0.engine() is Some,
        s0.accounts().contains_key(user_id),
        is_sentinel(s0.balance_key(user_id)),
        !is_sentinel(k1),
        !s0.ciphertexts().contains_key(k1),
        deposit_outcome(s0, s1, user_id, a1, k1, r1),
        deposit_outcome(s1, s2, user_id, a2, k2, r2),
    ensures
        r1 is Ok,
        r2 is Ok,
        s2.balance_key(user_id) == k1,
        s2.plain_at(k1) == wrapping_add(a1, a2),
        a1 + a2 <= u64::MAX ==> s2.plain_at(k1) == a1 + a2,
{
    assert(s1.accounts().contains_key(user_id));
    assert(s1.balance_key(user_id) == k1);
}

/// The state reached after `i` successful deposits of 1 into an account
/// that was funded by the first of them.
spec fn funded_with<E: HomomorphicEngine>(s: AppState<E>, user_id: u128, key: RefKey, i: nat) -> bool {
    &&& s.engine() is Some
    &&& s.accounts().contains_key(user_id)
    &&& s.balance_key(user_id) == key
    &&& !is_sentinel(key)
    &&& s.ciphertexts().contains_key(key)
    &&& s.plain_at(key) == i
}

proof fn lemma_deposits_prefix<E: HomomorphicEngine>(
    states: Seq<AppState<E>>,
    keys: Seq<RefKey>,
    results: Seq<Result<(), LedgerError>>,
    user_id: u128,
    i: nat,
)
    requires
        states.len() == keys.len() + 1,
        results.len() == keys.len(),
        1 <= i <= keys.len(),
        keys.len() <= u64::MAX,
        states[0].engine() is Some,
        states[0].accounts().contains_key(user_id),
        is_sentinel(states[0].balance_key(user_id)),
        !is_sentinel(keys[0]),
        !states[0].ciphertexts().contains_key(keys[0]),
        forall|j: int|
            0 <= j < keys.len() ==> deposit_outcome(
                #[trigger] states[j],
                states[j + 1],
                user_id,
                1,
                keys[j],
                results[j],
            ),
    ensures
        funded_with(states[i as int], user_id, keys[0], i),
        forall|j: int| 0 <= j < i ==> #[trigger] results[j] is Ok,
    decreases i,
{
    assert(deposit_outcome(states[0], states[1], user_id, 1, keys[0], results[0]));
    if i > 1 {
        lemma_deposits_prefix(states, keys, results, user_id, (i - 1) as nat);
        let j = i - 1;
        assert(deposit_outcome(states[j], states[j + 1], user_id, 1, keys[j], results[j]));
    }
}

/// `n` deposits of 1 into a never-funded account, applied one after
/// another, all succeed when the first proposed key is free, and leave a
/// balance that decrypts to exactly `n`.
pub proof fn lemma_unit_deposits<E: HomomorphicEngine>(
    states: Seq<AppState<E>>,
    keys: Seq<RefKey>,
    results: Seq<Result<(), LedgerError>>,
    user_id: u128,
)
    requires
        states.len() == keys.len() + 1,
        results.len() == keys.len(),
        1 <= keys.len() <= u64::MAX,
        states[0].engine() is Some,
        states[0].accounts().contains_key(user_id),
        is_sentinel(states[0].balance_key(user_id)),
        !is_sentinel(keys[0]),
        !states[0].ciphertexts().contains_key(keys[0]),
        forall|j: int|
            0 <= j < keys.len() ==> deposit_outcome(
                #[trigger] states[j],
                states[j + 1],
                user_id,
                1,
                keys[j],
                results[j],
            ),
    ensures
        forall|j: int| 0 <= j < results.len() ==> #[trigger] results[j] is Ok,
        states.last().balance_key(user_id) == keys[0],
        states.last().plain_at(keys[0]) == keys.len(),
{
    lemma_deposits_prefix(states, keys, results, user_id, keys.len());
}

/// An opening whose references resolve, whose liquidation key is free and
/// whose notional is exactly margin × leverage is accepted. The margin is
/// subtracted from the balance in place under the same key, and the stored
/// liquidation price is notional − fee − margin, both exactly when no
/// subtraction goes below zero.
pub proof fn lemma_open_position_accepted<E: HomomorphicEngine>(
    s: AppState<E>,
    t: AppState<E>,
    user_id: u128,
    entry_price: u64,
    direction: bool,
    notional: u64,
    lev: E::Cipher,
    margin: E::Cipher,
    margin_key: RefKey,
    lev_key: RefKey,
    liq_key: RefKey,
    r: Result<u128, LedgerError>,
)
    requires
        s.engine() is Some,
        s.accounts().contains_key(user_id),
        !is_sentinel(s.balance_key(user_id)),
        s.ciphertexts().contains_key(s.balance_key(user_id)),
        s.ciphertexts().contains_key(margin_key),
        s.ciphertexts().contains_key(lev_key),
        !is_sentinel(liq_key),
        !s.ciphertexts().contains_key(liq_key),
        notional as int == s.engine().unwrap().plain(&margin) as int * s.engine().unwrap().plain(
            &lev,
        ) as int,
        open_position_outcome(
            s,
            t,
            user_id,
            entry_price,
            direction,
            notional,
            lev,
            margin,
            margin_key,
            lev_key,
            liq_key,
            r,
        ),
    ensures
        r is Ok,
        t.balance_key(user_id) == s.balance_key(user_id),
        t.accounts()[user_id].positions.last() == (Position {
            id: r->Ok_0,
            direction,
            notional,
            entry_price,
            leverage: lev_key,
            initial_margin: margin_key,
            liqudation_price: liq_key,
        }),
        ({
            let m = s.engine().unwrap().plain(&margin);
            &&& m <= s.plain_at(s.balance_key(user_id)) ==> t.plain_at(s.balance_key(user_id))
                == s.plain_at(s.balance_key(user_id)) - m
            &&& opening_fee(notional) + m <= notional ==> t.plain_at(liq_key) == notional
                - opening_fee(notional) - m
        }),
{
    let p = Position {
        id: r->Ok_0,
        direction,
        notional,
        entry_price,
        leverage: lev_key,
        initial_margin: margin_key,
        liqudation_price: liq_key,
    };
    assert(t.accounts()[user_id].positions == s.accounts()[user_id].positions.push(p));
}

/// A deposit into a funded account succeeds, keeps the balance key, and
/// leaves a balance that decrypts to exactly `b + amount` when that fits.
pub proof fn lemma_deposit_adds<E: HomomorphicEngine>(
    s: AppState<E>,
    t: AppState<E>,
    user_id: u128,
    amount: u64,
    key: RefKey,
    r: Result<(), LedgerError>,
)
    requires
        s.engine() is Some,
        s.accounts().contains_key(user_id),
        !is_sentinel(s.balance_key(user_id)),
        s.ciphertexts().contains_key(s.balance_key(user_id)),
        s.plain_at(s.balance_key(user_id)) + amount <= u64::MAX,
        deposit_outcome(s, t, user_id, amount, key, r),
    ensures
        r is Ok,
        t.balance_key(user_id) == s.balance_key(user_id),
        t.plain_at(s.balance_key(user_id)) == s.plain_at(s.balance_key(user_id)) + amount,
{
}

/// Funding on a position whose liquidation price resolves succeeds and
/// leaves it decrypting to exactly `L - delta` when `delta <= L`.
pub proof fn lemma_funding_subtracts<E: HomomorphicEngine>(
    s: AppState<E>,
    t: AppState<E>,
    position: Position,
    delta: u64,
    r: Result<(), LedgerError>,
)
    requires
        s.engine() is Some,
        s.ciphertexts().contains_key(position.liqudation_price),
        delta <= s.plain_at(position.liqudation_price),
        funding_outcome(s, t, position, delta, r),
    ensures
        r is Ok,
        t.plain_at(position.liqudation_price) == s.plain_at(position.liqudation_price) - delta,
{
}

} // verus!
