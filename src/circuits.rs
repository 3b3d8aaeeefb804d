//! The circuits: workflows that combine the three stores with homomorphic
//! evaluation. Each runs on exclusive access to the state, so a workflow
//! is atomic with respect to every other one; each failure is detected
//! before the first write, so a failed call leaves the state as it was.
use crate::cache::{AccountCache, Ciphertext, CiphertextCache, PositionCache};
use crate::engine::HomomorphicEngine;
use crate::error::LedgerError;
use crate::refkey::{is_sentinel, key_is_sentinel, RefKey};
use crate::users::{Position, UserView};
use vstd::prelude::*;
use vstd::arithmetic::div_mod::lemma_small_mod;
use vstd::wrapping::u64_specs::{wrapping_add, wrapping_sub};

verus! {

/// The ledger's state: the three stores and the evaluation capability.
pub struct AppState<E: HomomorphicEngine> {
    user_cache: AccountCache,
    ciphertext_cache: CiphertextCache<E::Cipher>,
    position_cache: PositionCache,
    engine: Option<E>,
}

/// Solvency of a long position at a mark price.
#[derive(Clone, Copy, Debug, PartialEq, Eq, Structural)]
pub enum Health {
    Solvent,
    Insolvent,
}

/// The three references of `p` resolve in `c`.
pub open spec fn resolves<C>(c: Map<RefKey, Ciphertext<C>>, p: Position) -> bool {
    &&& c.contains_key(p.leverage)
    &&& c.contains_key(p.initial_margin)
    &&& c.contains_key(p.liqudation_price)
}

/// Consistency survives a step that keeps accounts and book and only adds
/// references.
proof fn lemma_consistent_when_keys_grow<E: HomomorphicEngine>(s: AppState<E>, t: AppState<E>)
    requires
        s.consistent(),
        t.accounts() == s.accounts(),
        t.book() == s.book(),
        forall|k: RefKey| #[trigger] s.ciphertexts().contains_key(k) ==> t.ciphertexts().contains_key(k),
    ensures
        t.consistent(),
{
    let a = t.accounts();
    assert forall|id: u128, i: int|
        a.contains_key(id) && 0 <= i < a[id].positions.len() implies resolves(
        t.ciphertexts(),
        #[trigger] a[id].positions[i],
    ) && t.book().side(a[id].positions[i].direction).contains(a[id].positions[i]) by {
        assert(resolves(s.ciphertexts(), a[id].positions[i]));
    }
    assert forall|d: bool, j: int| 0 <= j < t.book().side(d).len() implies resolves(
        t.ciphertexts(),
        #[trigger] t.book().side(d)[j],
    ) by {
        assert(resolves(s.ciphertexts(), s.book().side(d)[j]));
    }
}

/// Consistency survives funding an account's balance under a key that
/// resolves.
proof fn lemma_consistent_after_funding<E: HomomorphicEngine>(
    s: AppState<E>,
    t: AppState<E>,
    user_id: u128,
    key: RefKey,
)
    requires
        s.consistent(),
        s.accounts().contains_key(user_id),
        t.accounts() == s.accounts().insert(user_id, UserView { balance: key, ..s.accounts()[user_id] }),
        t.book() == s.book(),
        t.ciphertexts().contains_key(key),
        forall|k: RefKey| #[trigger] s.ciphertexts().contains_key(k) ==> t.ciphertexts().contains_key(k),
    ensures
        t.consistent(),
{
    let a = t.accounts();
    assert forall|id: u128|
        #[trigger] a.contains_key(id) && !is_sentinel(a[id].balance)
        implies t.ciphertexts().contains_key(a[id].balance) by {
        if id != user_id {
            assert(s.accounts().contains_key(id));
        }
    }
    assert forall|id: u128, i: int|
        a.contains_key(id) && 0 <= i < a[id].positions.len() implies resolves(
        t.ciphertexts(),
        #[trigger] a[id].positions[i],
    ) && t.book().side(a[id].positions[i].direction).contains(a[id].positions[i]) by {
        assert(s.accounts().contains_key(id));
        assert(a[id].positions[i] == s.accounts()[id].positions[i]);
        assert(resolves(s.ciphertexts(), a[id].positions[i]));
    }
    assert forall|d: bool, j: int| 0 <= j < t.book().side(d).len() implies resolves(
        t.ciphertexts(),
        #[trigger] t.book().side(d)[j],
    ) by {
        assert(resolves(s.ciphertexts(), s.book().side(d)[j]));
    }
}

/// Consistency survives opening `p` for `user_id`: `p` is appended to the
/// account and to the book, and its references resolve afterwards.
proof fn lemma_consistent_after_open<E: HomomorphicEngine>(
    s: AppState<E>,
    t: AppState<E>,
    user_id: u128,
    p: Position,
)
    requires
        s.consistent(),
        s.accounts().contains_key(user_id),
        t.accounts() == s.accounts().insert(
            user_id,
            UserView { positions: s.accounts()[user_id].positions.push(p), ..s.accounts()[user_id] },
        ),
        t.book().side(p.direction) == s.book().side(p.direction).push(p),
        t.book().side(!p.direction) == s.book().side(!p.direction),
        resolves(t.ciphertexts(), p),
        forall|k: RefKey| #[trigger] s.ciphertexts().contains_key(k) ==> t.ciphertexts().contains_key(k),
    ensures
        t.consistent(),
{
    let a = t.accounts();
    assert forall|d: bool, j: int| 0 <= j < t.book().side(d).len() implies resolves(
        t.ciphertexts(),
        #[trigger] t.book().side(d)[j],
    ) by {
        if d == p.direction && j == s.book().side(d).len() {
        } else {
            assert(t.book().side(d)[j] == s.book().side(d)[j]);
            assert(resolves(s.ciphertexts(), s.book().side(d)[j]));
        }
    }
    assert forall|id: u128|
        #[trigger] a.contains_key(id) && !is_sentinel(a[id].balance)
        implies t.ciphertexts().contains_key(a[id].balance) by {
        assert(s.accounts().contains_key(id));
    }
    assert forall|id: u128, i: int|
        a.contains_key(id) && 0 <= i < a[id].positions.len() implies resolves(
        t.ciphertexts(),
        #[trigger] a[id].positions[i],
    ) && t.book().side(a[id].positions[i].direction).contains(a[id].positions[i]) by {
        let q = a[id].positions[i];
        if id == user_id && i == s.accounts()[id].positions.len() {
            assert(q == p);
            assert(t.book().side(p.direction)[s.book().side(p.direction).len() as int] == p);
        } else {
            assert(s.accounts().contains_key(id));
            assert(q == s.accounts()[id].positions[i]);
            assert(resolves(s.ciphertexts(), q));
            let j = choose|j: int|
                0 <= j < s.book().side(q.direction).len() && s.book().side(q.direction)[j] == q;
            assert(t.book().side(q.direction)[j] == q);
        }
    }
}

/// Ownership survives writing `k1` and `k2` with ciphertexts of the same
/// engine and leaving every other entry as it was.
proof fn lemma_owned_after_writes<E: HomomorphicEngine>(
    s: AppState<E>,
    t: AppState<E>,
    k1: RefKey,
    k2: RefKey,
)
    requires
        s.owned(),
        s.engine() is Some,
        t.engine() == s.engine(),
        t.ciphertexts().contains_key(k1),
        t.ciphertexts().contains_key(k2),
        s.engine().unwrap().owns(&t.ciphertexts()[k1].ciphertext),
        s.engine().unwrap().owns(&t.ciphertexts()[k2].ciphertext),
        t.ciphertexts().remove(k1).remove(k2) == s.ciphertexts().remove(k1).remove(k2),
    ensures
        t.owned(),
{
    let tc = t.ciphertexts();
    let sc = s.ciphertexts();
    assert forall|j: RefKey| #[trigger] tc.contains_key(j) implies t.engine() is Some
        && t.engine().unwrap().owns(&tc[j].ciphertext) by {
        if j != k1 && j != k2 {
            assert(tc.remove(k1).remove(k2).contains_key(j));
            assert(tc.remove(k1).remove(k2)[j] == tc[j]);
            assert(sc.remove(k1).remove(k2)[j] == sc[j]);
        }
    }
}

/// The public opening fee: one percent of the notional, rounded up.
pub open spec fn opening_fee(notional: u64) -> u64 {
    ((notional as int + 99) / 100) as u64
}

/// The liquidation price of a position opened with this notional and margin.
pub open spec fn liquidation_price(notional: u64, margin: u64) -> u64 {
    wrapping_sub(wrapping_sub(notional, opening_fee(notional)), margin)
}

/// Computes `opening_fee` without overflow.
pub fn compute_opening_fee(notional: u64) -> (r: u64)
    ensures
        r == opening_fee(notional),
        r <= notional,
{
    let q = notional / 100;
    if notional % 100 == 0 {
        q
    } else {
        q + 1
    }
}

impl<E: HomomorphicEngine> AppState<E> {
    /// The installed evaluation capability, if any.
    pub closed spec fn engine(&self) -> Option<E> {
        self.engine
    }

    /// The accounts, by id.
    pub closed spec fn accounts(&self) -> Map<u128, UserView> {
        self.user_cache@
    }

    /// The encrypted scalars, by reference key.
    pub closed spec fn ciphertexts(&self) -> Map<RefKey, Ciphertext<E::Cipher>> {
        self.ciphertext_cache@
    }

    /// The position book.
    pub closed spec fn book(&self) -> PositionCache {
        self.position_cache
    }

    pub closed spec fn wf(&self) -> bool {
        &&& self.user_cache.wf()
        &&& self.ciphertext_cache.wf()
        &&& self.position_cache.wf()
        &&& self.consistent()
        &&& self.owned()
    }

    /// Every stored ciphertext was made under the installed engine's key;
    /// before an engine is installed nothing is stored.
    pub open spec fn owned(&self) -> bool {
        forall|k: RefKey|
            #[trigger] self.ciphertexts().contains_key(k) ==> self.engine() is Some
                && self.engine().unwrap().owns(&self.ciphertexts()[k].ciphertext)
    }

    /// The stores agree: every non-sentinel balance reference resolves, and
    /// every position an account holds resolves and stands, field for
    /// field, in the book's partition of its direction; every booked
    /// position resolves too.
    pub open spec fn consistent(&self) -> bool {
        let a = self.accounts();
        let c = self.ciphertexts();
        let b = self.book();
        &&& forall|id: u128|
            #[trigger] a.contains_key(id) && !is_sentinel(a[id].balance) ==> c.contains_key(
                a[id].balance,
            )
        &&& forall|id: u128, i: int|
            a.contains_key(id) && 0 <= i < a[id].positions.len() ==> resolves(
                c,
                #[trigger] a[id].positions[i],
            ) && b.side(a[id].positions[i].direction).contains(a[id].positions[i])
        &&& forall|d: bool, j: int| 0 <= j < b.side(d).len() ==> resolves(c, #[trigger] b.side(d)[j])
    }

    /// A well-formed state is consistent, and what it stores belongs to
    /// its engine.
    pub proof fn lemma_wf_consistent(&self)
        requires
            self.wf(),
        ensures
            self.consistent(),
            self.owned(),
    {
    }

    /// The value stored under `k`, as the installed engine decrypts it.
    pub open spec fn plain_at(&self, k: RefKey) -> u64 {
        self.engine().unwrap().plain(&self.ciphertexts()[k].ciphertext)
    }

    /// The reference of account `user_id`'s balance.
    pub open spec fn balance_key(&self, user_id: u128) -> RefKey {
        self.accounts()[user_id].balance
    }

    /// The account store.
    pub fn user_cache(&self) -> (r: &AccountCache)
        ensures
            r@ == self.accounts(),
    {
        &self.user_cache
    }

    /// The ciphertext store.
    pub fn ciphertext_cache(&self) -> (r: &CiphertextCache<E::Cipher>)
        requires
            self.wf(),
        ensures
            r@ == self.ciphertexts(),
            r.wf(),
    {
        &self.ciphertext_cache
    }

    /// The position book.
    pub fn position_cache(&self) -> (r: &PositionCache)
        requires
            self.wf(),
        ensures
            *r == self.book(),
            r.wf(),
    {
        &self.position_cache
    }

    /// Empty stores, with no evaluation capability installed yet.
    pub fn new() -> (r: AppState<E>)
        ensures
            r.wf(),
            r.engine() is None,
            r.accounts() == Map::<u128, UserView>::empty(),
            r.ciphertexts() == Map::<RefKey, Ciphertext<E::Cipher>>::empty(),
            r.book().count() == 0,
    {
        AppState {
            user_cache: AccountCache::new(),
            ciphertext_cache: CiphertextCache::new(),
            position_cache: PositionCache::new(),
            engine: None,
        }
    }

    /// Installs the evaluation capability. It is installed once and never
    /// replaced: a second call fails and changes nothing.
    pub fn install_engine(&mut self, engine: E) -> (r: bool)
        ensures
            r == old(self).engine() is None,
            r ==> final(self).engine() == Some(engine),
            !r ==> final(self).engine() == old(self).engine(),
            final(self).accounts() == old(self).accounts(),
            final(self).ciphertexts() == old(self).ciphertexts(),
            final(self).book() == old(self).book(),
            old(self).wf() ==> final(self).wf(),
    {
        if self.engine.is_some() {
            false
        } else {
            self.engine = Some(engine);
            assert forall|k: RefKey| old(self).wf() implies !#[trigger] old(
                self,
            ).ciphertexts().contains_key(k) by {
                if old(self).ciphertexts().contains_key(k) {
                    assert(old(self).owned());
                }
            }
            assert(self.accounts() == old(self).accounts());
            assert(self.ciphertexts() == old(self).ciphertexts());
            assert(self.book() == old(self).book());
            true
        }
    }

    /// Whether the evaluation capability is installed.
    pub fn has_engine(&self) -> (r: bool)
        ensures
            r == self.engine() is Some,
    {
        self.engine.is_some()
    }
}

/// What `deposit_circuit(s, user_id, amount, key)` does, ending in `t`
/// with result `r`.
pub open spec fn deposit_outcome<E: HomomorphicEngine>(
    s: AppState<E>,
    t: AppState<E>,
    user_id: u128,
    amount: u64,
    key: RefKey,
    r: Result<(), LedgerError>,
) -> bool {
    let cts = s.ciphertexts();
    if s.engine() is None {
        r == Err::<(), LedgerError>(LedgerError::EncryptionContextUnset) && t == s
    } else if !s.accounts().contains_key(user_id) {
        r == Err::<(), LedgerError>(LedgerError::ReferenceNotFound) && t == s
    } else if is_sentinel(s.balance_key(user_id)) {
        // never funded: the amount is stored under the proposed key
        if is_sentinel(key) || cts.contains_key(key) {
            r == Err::<(), LedgerError>(LedgerError::DuplicateKey) && t == s
        } else {
            &&& r is Ok
            &&& t.engine() == s.engine()
            &&& t.book() == s.book()
            &&& t.accounts() == s.accounts().insert(
                user_id,
                UserView { balance: key, ..s.accounts()[user_id] },
            )
            &&& t.ciphertexts().contains_key(key)
            &&& t.ciphertexts().remove(key) == cts
            &&& t.ciphertexts()[key].key == key
            &&& t.ciphertexts()[key].owner == user_id
            &&& t.plain_at(key) == amount
        }
    } else {
        // funded: the amount is added in place under the same key
        let bal = s.balance_key(user_id);
        if !cts.contains_key(bal) {
            r == Err::<(), LedgerError>(LedgerError::ReferenceNotFound) && t == s
        } else {
            &&& r is Ok
            &&& t.engine() == s.engine()
            &&& t.book() == s.book()
            &&& t.accounts() == s.accounts()
            &&& t.ciphertexts().contains_key(bal)
            &&& t.ciphertexts().remove(bal) == cts.remove(bal)
            &&& t.ciphertexts()[bal].key == bal
            &&& t.ciphertexts()[bal].owner == user_id
            &&& t.plain_at(bal) == wrapping_add(s.plain_at(bal), amount)
        }
    }
}

/// Deposits `amount` into account `user_id`. A never-funded account gets
/// its balance stored under `key`; a funded one has the amount added to
/// its balance in place, and `key` is not used.
pub fn deposit_circuit<E: HomomorphicEngine>(
    state: &mut AppState<E>,
    user_id: u128,
    amount: u64,
    key: RefKey,
) -> (r: Result<(), LedgerError>)
    requires
        old(state).wf(),
    ensures
        final(state).wf(),
        deposit_outcome(*old(state), *final(state), user_id, amount, key, r),
{
    let engine = match &state.engine {
        Some(e) => e,
        None => {
            return Err(LedgerError::EncryptionContextUnset);
        },
    };
    let balance = match state.user_cache.get_balance(user_id) {
        Some(b) => *b,
        None => {
            return Err(LedgerError::ReferenceNotFound);
        },
    };
    if key_is_sentinel(&balance) {
        if key_is_sentinel(&key) || state.ciphertext_cache.get_ciphertext(key).is_some() {
            return Err(LedgerError::DuplicateKey);
        }
        let value = engine.encrypt(amount);
        let ghost c = value;
        let added = state.ciphertext_cache.add_ciphertext(key, user_id, value);
        assert(added);
        let set = state.user_cache.update_balance(user_id, key);
        assert(set is Ok);
        proof {
            let t = state.ciphertext_cache@;
            assert(t.remove(key) =~= old(state).ciphertexts());
            assert(t[key].ciphertext == c);
            assert forall|k: RefKey|
                #[trigger] old(state).ciphertexts().contains_key(k)
                implies t.contains_key(k) by {
                assert(t.remove(key).contains_key(k));
            }
            lemma_consistent_after_funding(*old(state), *state, user_id, key);
            assert(t.remove(key).remove(key) =~= old(state).ciphertexts().remove(key).remove(key));
            lemma_owned_after_writes(*old(state), *state, key, key);
        }
        Ok(())
    } else {
        let current = match state.ciphertext_cache.get_ciphertext(balance) {
            Some(c) => c,
            None => {
                return Err(LedgerError::ReferenceNotFound);
            },
        };
        let value = engine.encrypt(amount);
        let sum = engine.add(&current.ciphertext, &value);
        let ghost c = sum;
        let updated = state.ciphertext_cache.update_ciphertext(balance, user_id, sum);
        assert(updated);
        proof {
            let t = state.ciphertext_cache@;
            assert(t.remove(balance) =~= old(state).ciphertexts().remove(balance));
            assert(t[balance].ciphertext == c);
            assert forall|k: RefKey|
                #[trigger] old(state).ciphertexts().contains_key(k)
                implies t.contains_key(k) by {
                if k != balance {
                    assert(old(state).ciphertexts().remove(balance).contains_key(k));
                }
            }
            lemma_consistent_when_keys_grow(*old(state), *state);
            assert(t.remove(balance).remove(balance) =~= old(state).ciphertexts().remove(
                balance,
            ).remove(balance));
            lemma_owned_after_writes(*old(state), *state, balance, balance);
        }
        Ok(())
    }
}

/// What `open_position_circuit` does, ending in `t` with result `r`.
/// `lev` and `margin` are the ciphertexts handed in.
pub open spec fn open_position_outcome<E: HomomorphicEngine>(
    s: AppState<E>,
    t: AppState<E>,
    user_id: u128,
    entry_price: u64,
    direction: bool,
    notional: u64,
    lev: E::Cipher,
    margin: E::Cipher,
    margin_key: RefKey,
    lev_key: RefKey,
    liq_key: RefKey,
    r: Result<u128, LedgerError>,
) -> bool {
    let cts = s.ciphertexts();
    let e = s.engine().unwrap();
    if s.engine() is None {
        r == Err::<u128, LedgerError>(LedgerError::EncryptionContextUnset) && t == s
    } else if !s.accounts().contains_key(user_id) || is_sentinel(s.balance_key(user_id))
        || !cts.contains_key(s.balance_key(user_id)) || !cts.contains_key(margin_key)
        || !cts.contains_key(lev_key) {
        r == Err::<u128, LedgerError>(LedgerError::ReferenceNotFound) && t == s
    } else if is_sentinel(liq_key) || cts.contains_key(liq_key) {
        r == Err::<u128, LedgerError>(LedgerError::DuplicateKey) && t == s
    } else if notional as int != e.plain(&margin) as int * e.plain(&lev) as int {
        r == Err::<u128, LedgerError>(LedgerError::ValidationFailed) && t == s
    } else {
        let bal = s.balance_key(user_id);
        let id = s.book().count() as u128;
        let p = Position {
            id,
            direction,
            notional,
            entry_price,
            leverage: lev_key,
            initial_margin: margin_key,
            liqudation_price: liq_key,
        };
        &&& r == Ok::<u128, LedgerError>(id)
        &&& t.engine() == s.engine()
        &&& t.book().count() == s.book().count() + 1
        &&& t.book().side(direction) == s.book().side(direction).push(p)
        &&& t.book().side(!direction) == s.book().side(!direction)
        &&& t.accounts() == s.accounts().insert(
            user_id,
            UserView { positions: s.accounts()[user_id].positions.push(p), ..s.accounts()[user_id] },
        )
        &&& t.ciphertexts().contains_key(liq_key)
        &&& t.ciphertexts().contains_key(bal)
        &&& t.ciphertexts().remove(liq_key).remove(bal) == cts.remove(bal)
        &&& t.ciphertexts()[liq_key].key == liq_key
        &&& t.ciphertexts()[liq_key].owner == user_id
        &&& t.ciphertexts()[bal].key == bal
        &&& t.ciphertexts()[bal].owner == user_id
        &&& t.plain_at(liq_key) == liquidation_price(notional, e.plain(&margin))
        &&& t.plain_at(bal) == wrapping_sub(s.plain_at(bal), e.plain(&margin))
    }
}

/// Opens a position for account `user_id` with encrypted leverage and
/// margin. The opening is accepted only when `notional` equals margin times
/// leverage, checked homomorphically. An accepted opening stores the
/// encrypted liquidation price under `liqudation_price_key`, files the
/// position in the book under the next id, deducts the margin from the
/// balance in place and appends the position to the account. Returns the
/// new position's id.
pub fn open_position_circuit<E: HomomorphicEngine>(
    state: &mut AppState<E>,
    user_id: u128,
    entry_price: u64,
    direction: bool,
    notional: u64,
    leverage_ciphertext: E::Cipher,
    initial_margin_ciphertext: E::Cipher,
    initial_margin_key: RefKey,
    leverage_key: RefKey,
    liqudation_price_key: RefKey,
) -> (r: Result<u128, LedgerError>)
    requires
        old(state).wf(),
        old(state).engine() is Some ==> old(state).engine().unwrap().owns(&leverage_ciphertext)
            && old(state).engine().unwrap().owns(&initial_margin_ciphertext),
    ensures
        final(state).wf(),
        open_position_outcome(
            *old(state),
            *final(state),
            user_id,
            entry_price,
            direction,
            notional,
            leverage_ciphertext,
            initial_margin_ciphertext,
            initial_margin_key,
            leverage_key,
            liqudation_price_key,
            r,
        ),
{
    let engine = match &state.engine {
        Some(e) => e,
        None => {
            return Err(LedgerError::EncryptionContextUnset);
        },
    };
    let balance = match state.user_cache.get_balance(user_id) {
        Some(b) => *b,
        None => {
            return Err(LedgerError::ReferenceNotFound);
        },
    };
    if key_is_sentinel(&balance) {
        return Err(LedgerError::ReferenceNotFound);
    }
    let current = match state.ciphertext_cache.get_ciphertext(balance) {
        Some(c) => c,
        None => {
            return Err(LedgerError::ReferenceNotFound);
        },
    };
    if state.ciphertext_cache.get_ciphertext(initial_margin_key).is_none()
        || state.ciphertext_cache.get_ciphertext(leverage_key).is_none() {
        return Err(LedgerError::ReferenceNotFound);
    }
    if key_is_sentinel(&liqudation_price_key) || state.ciphertext_cache.get_ciphertext(
        liqudation_price_key,
    ).is_some() {
        return Err(LedgerError::DuplicateKey);
    }
    let opening_fee = compute_opening_fee(notional);
    let opening_fee_ciphertext = engine.encrypt(opening_fee);
    let notional_ciphertext = engine.encrypt(notional);
    let (product, overflowed) = engine.overflowing_mul(
        &initial_margin_ciphertext,
        &leverage_ciphertext,
    );
    let matches = engine.eq(&notional_ciphertext, &product);
    let fits = engine.flag_not(&overflowed);
    let valid_flag = engine.flag_and(&matches, &fits);
    proof {
        let m = engine.plain(&initial_margin_ciphertext);
        let l = engine.plain(&leverage_ciphertext);
        if m as int * l as int <= u64::MAX {
            lemma_small_mod((m as nat * l as nat) as nat, 0x1_0000_0000_0000_0000nat);
        }
    }
    if !engine.decrypt_flag(&valid_flag) {
        return Err(LedgerError::ValidationFailed);
    }
    let net = engine.sub(&notional_ciphertext, &opening_fee_ciphertext);
    let liquidation = engine.sub(&net, &initial_margin_ciphertext);
    let new_balance = engine.sub(&current.ciphertext, &initial_margin_ciphertext);
    let ghost liq_c = liquidation;
    let ghost bal_c = new_balance;

    let stored = state.ciphertext_cache.add_ciphertext(liqudation_price_key, user_id, liquidation);
    assert(stored);
    let id = state.position_cache.add_position(
        Position {
            id: 0,
            direction,
            notional,
            entry_price,
            leverage: leverage_key,
            initial_margin: initial_margin_key,
            liqudation_price: liqudation_price_key,
        },
    );
    let position = Position {
        id,
        direction,
        notional,
        entry_price,
        leverage: leverage_key,
        initial_margin: initial_margin_key,
        liqudation_price: liqudation_price_key,
    };
    let updated = state.ciphertext_cache.update_ciphertext(balance, user_id, new_balance);
    assert(updated);
    let appended = state.user_cache.add_position(user_id, position);
    assert(appended is Ok);
    proof {
        let t = state.ciphertext_cache@;
        let s = old(state).ciphertexts();
        assert(t.remove(liqudation_price_key).remove(balance) =~= s.remove(balance));
        assert(t[liqudation_price_key].ciphertext == liq_c);
        assert(t[balance].ciphertext == bal_c);
        assert forall|k: RefKey| #[trigger] s.contains_key(k) implies t.contains_key(k) by {
            if k != balance && k != liqudation_price_key {
                assert(s.remove(balance).contains_key(k));
                assert(t.remove(liqudation_price_key).remove(balance).contains_key(k));
            }
        }
        lemma_consistent_after_open(*old(state), *state, user_id, position);
        assert(t.remove(liqudation_price_key).remove(balance) =~= s.remove(
            liqudation_price_key,
        ).remove(balance));
        lemma_owned_after_writes(*old(state), *state, liqudation_price_key, balance);
    }
    Ok(id)
}

/// What `health_check_long_circuit(state, position, mark_price)` returns.
pub open spec fn health_result<E: HomomorphicEngine>(
    state: AppState<E>,
    position: Position,
    mark_price: u64,
) -> Result<Health, LedgerError> {
    if state.engine() is None {
        Err(LedgerError::EncryptionContextUnset)
    } else if !state.ciphertexts().contains_key(position.liqudation_price) {
        Err(LedgerError::ReferenceNotFound)
    } else if mark_price >= state.plain_at(position.liqudation_price) {
        Ok(Health::Solvent)
    } else {
        Ok(Health::Insolvent)
    }
}

/// Evaluates `mark_price >= liquidation price` homomorphically for a long
/// position; only the resulting boolean is decrypted.
pub fn health_check_long_circuit<E: HomomorphicEngine>(
    state: &AppState<E>,
    position: &Position,
    mark_price: u64,
) -> (r: Result<Health, LedgerError>)
    requires
        state.wf(),
    ensures
        r == health_result(*state, *position, mark_price),
{
    let engine = match &state.engine {
        Some(e) => e,
        None => {
            return Err(LedgerError::EncryptionContextUnset);
        },
    };
    let liquidation = match state.ciphertext_cache.get_ciphertext(position.liqudation_price) {
        Some(c) => c,
        None => {
            return Err(LedgerError::ReferenceNotFound);
        },
    };
    let mark_ciphertext = engine.encrypt(mark_price);
    let status = engine.ge(&mark_ciphertext, &liquidation.ciphertext);
    if engine.decrypt_flag(&status) {
        Ok(Health::Solvent)
    } else {
        Ok(Health::Insolvent)
    }
}

/// What `funding_rate_long_pay_short_circuit` does, ending in `t`.
pub open spec fn funding_outcome<E: HomomorphicEngine>(
    s: AppState<E>,
    t: AppState<E>,
    position: Position,
    delta: u64,
    r: Result<(), LedgerError>,
) -> bool {
    let k = position.liqudation_price;
    if s.engine() is None {
        r == Err::<(), LedgerError>(LedgerError::EncryptionContextUnset) && t == s
    } else if !s.ciphertexts().contains_key(k) {
        r == Err::<(), LedgerError>(LedgerError::ReferenceNotFound) && t == s
    } else {
        &&& r is Ok
        &&& t.engine() == s.engine()
        &&& t.accounts() == s.accounts()
        &&& t.book() == s.book()
        &&& t.ciphertexts().contains_key(k)
        &&& t.ciphertexts().remove(k) == s.ciphertexts().remove(k)
        &&& t.ciphertexts()[k].key == k
        &&& t.ciphertexts()[k].owner == s.ciphertexts()[k].owner
        &&& t.plain_at(k) == wrapping_sub(s.plain_at(k), delta)
    }
}

/// Funding paid by the long side: subtracts `delta` homomorphically from
/// the position's liquidation price, in place under the same key.
pub fn funding_rate_long_pay_short_circuit<E: HomomorphicEngine>(
    state: &mut AppState<E>,
    position: &Position,
    delta: u64,
) -> (r: Result<(), LedgerError>)
    requires
        old(state).wf(),
    ensures
        final(state).wf(),
        funding_outcome(*old(state), *final(state), *position, delta, r),
{
    let engine = match &state.engine {
        Some(e) => e,
        None => {
            return Err(LedgerError::EncryptionContextUnset);
        },
    };
    let key = position.liqudation_price;
    let current = match state.ciphertext_cache.get_ciphertext(key) {
        Some(c) => c,
        None => {
            return Err(LedgerError::ReferenceNotFound);
        },
    };
    let owner = current.owner;
    assert(state.ciphertexts().contains_key(key));
    let encrypted_delta = engine.encrypt(delta);
    let shifted = engine.sub(&current.ciphertext, &encrypted_delta);
    let ghost c = shifted;
    let updated = state.ciphertext_cache.update_ciphertext(key, owner, shifted);
    assert(updated);
    proof {
        let t = state.ciphertext_cache@;
        assert(t.remove(key) =~= old(state).ciphertexts().remove(key));
        assert(t[key].ciphertext == c);
        assert forall|k: RefKey|
            #[trigger] old(state).ciphertexts().contains_key(k)
            implies t.contains_key(k) by {
            if k != key {
                assert(old(state).ciphertexts().remove(key).contains_key(k));
            }
        }
        lemma_consistent_when_keys_grow(*old(state), *state);
        assert(t.remove(key).remove(key) =~= old(state).ciphertexts().remove(key).remove(key));
        lemma_owned_after_writes(*old(state), *state, key, key);
    }
    Ok(())
}

/// What `view_balance(state, user_id)` returns.
pub open spec fn balance_result<E: HomomorphicEngine>(state: AppState<E>, user_id: u128) -> Result<
    u64,
    LedgerError,
> {
    if state.engine() is None {
        Err(LedgerError::EncryptionContextUnset)
    } else if !state.accounts().contains_key(user_id) || is_sentinel(state.balance_key(user_id))
        || !state.ciphertexts().contains_key(state.balance_key(user_id)) {
        Err(LedgerError::ReferenceNotFound)
    } else {
        Ok(state.plain_at(state.balance_key(user_id)))
    }
}

/// Decrypts account `user_id`'s balance.
pub fn view_balance<E: HomomorphicEngine>(state: &AppState<E>, user_id: u128) -> (r: Result<
    u64,
    LedgerError,
>)
    requires
        state.wf(),
    ensures
        r == balance_result(*state, user_id),
{
    let engine = match &state.engine {
        Some(e) => e,
        None => {
            return Err(LedgerError::EncryptionContextUnset);
        },
    };
    let balance = match state.user_cache.get_balance(user_id) {
        Some(b) => *b,
        None => {
            return Err(LedgerError::ReferenceNotFound);
        },
    };
    if key_is_sentinel(&balance) {
        return Err(LedgerError::ReferenceNotFound);
    }
    match state.ciphertext_cache.get_ciphertext(balance) {
        Some(c) => Ok(engine.decrypt(&c.ciphertext)),
        None => Err(LedgerError::ReferenceNotFound),
    }
}

/// What `store_encrypted(owner, amount, key)` does, ending in `t`.
pub open spec fn store_outcome<E: HomomorphicEngine>(
    s: AppState<E>,
    t: AppState<E>,
    owner: u128,
    amount: u64,
    key: RefKey,
    r: Result<(), LedgerError>,
) -> bool {
    if s.engine() is None {
        r == Err::<(), LedgerError>(LedgerError::EncryptionContextUnset) && t == s
    } else if is_sentinel(key) || s.ciphertexts().contains_key(key) {
        r == Err::<(), LedgerError>(LedgerError::DuplicateKey) && t == s
    } else {
        &&& r is Ok
        &&& t.engine() == s.engine()
        &&& t.accounts() == s.accounts()
        &&& t.book() == s.book()
        &&& t.ciphertexts().contains_key(key)
        &&& t.ciphertexts().remove(key) == s.ciphertexts()
        &&& t.ciphertexts()[key].key == key
        &&& t.ciphertexts()[key].owner == owner
        &&& t.plain_at(key) == amount
    }
}

impl<E: HomomorphicEngine> AppState<E> {
    /// Encrypts `v` with the installed engine.
    pub fn encrypt_value(&self, v: u64) -> (r: Option<E::Cipher>)
        ensures
            r is Some == self.engine() is Some,
            r matches Some(c) ==> self.engine().unwrap().owns(&c) && self.engine().unwrap().plain(
                &c,
            ) == v,
    {
        match &self.engine {
            Some(e) => Some(e.encrypt(v)),
            None => None,
        }
    }

    /// Opens a fresh account under `user_id`; fails when the id is taken.
    pub fn create_account(&mut self, user_id: u128) -> (r: bool)
        requires
            old(self).wf(),
        ensures
            final(self).wf(),
            r == !old(self).accounts().contains_key(user_id),
            r ==> final(self).accounts() == old(self).accounts().insert(
                user_id,
                UserView {
                    id: user_id,
                    positions: Seq::empty(),
                    balance: final(self).balance_key(user_id),
                },
            ) && is_sentinel(final(self).balance_key(user_id)),
            !r ==> final(self).accounts() == old(self).accounts(),
            final(self).engine() == old(self).engine(),
            final(self).ciphertexts() == old(self).ciphertexts(),
            final(self).book() == old(self).book(),
    {
        let user = crate::users::create_user(user_id);
        let added = self.user_cache.add_user(user);
        proof {
            let a = self.accounts();
            let s = *old(self);
            assert(self.book() == s.book());
            assert(self.ciphertexts() == s.ciphertexts());
            assert(self.engine() == s.engine());
            assert forall|id: u128|
                #[trigger] a.contains_key(id) && !is_sentinel(a[id].balance)
                implies self.ciphertexts().contains_key(a[id].balance) by {
                if id != user_id || !added {
                    assert(s.accounts().contains_key(id));
                }
            }
            assert forall|id: u128, i: int|
                a.contains_key(id) && 0 <= i < a[id].positions.len() implies resolves(
                self.ciphertexts(),
                #[trigger] a[id].positions[i],
            ) && self.book().side(a[id].positions[i].direction).contains(a[id].positions[i]) by {
                assert(s.accounts().contains_key(id));
            }
        }
        added
    }

    /// Encrypts `amount` for `owner` and stores it under `key`, which must
    /// be free. The sentinel key is reserved.
    pub fn store_encrypted(&mut self, owner: u128, amount: u64, key: RefKey) -> (r: Result<
        (),
        LedgerError,
    >)
        requires
            old(self).wf(),
        ensures
            final(self).wf(),
            store_outcome(*old(self), *final(self), owner, amount, key, r),
    {
        let engine = match &self.engine {
            Some(e) => e,
            None => {
                return Err(LedgerError::EncryptionContextUnset);
            },
        };
        if key_is_sentinel(&key) || self.ciphertext_cache.get_ciphertext(key).is_some() {
            return Err(LedgerError::DuplicateKey);
        }
        let value = engine.encrypt(amount);
        let ghost c = value;
        let added = self.ciphertext_cache.add_ciphertext(key, owner, value);
        assert(added);
        proof {
            let t = self.ciphertext_cache@;
            assert(t.remove(key) =~= old(self).ciphertexts());
            assert(t[key].ciphertext == c);
            assert forall|k: RefKey|
                #[trigger] old(self).ciphertexts().contains_key(k)
                implies t.contains_key(k) by {
                assert(t.remove(key).contains_key(k));
            }
            lemma_consistent_when_keys_grow(*old(self), *self);
            assert(t.remove(key).remove(key) =~= old(self).ciphertexts().remove(key).remove(key));
            lemma_owned_after_writes(*old(self), *self, key, key);
        }
        Ok(())
    }
}

} // verus!
