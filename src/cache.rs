//! The three stores: encrypted scalars by reference key, accounts by id,
//! and positions by direction.
use crate::error::LedgerError;
use crate::refkey::{keys_equal, RefKey};
use crate::users::{Position, User, UserView};
use std::collections::HashMap;
use vstd::prelude::*;

verus! {

broadcast use vstd::std_specs::hash::group_hash_axioms;

/// An encrypted scalar as stored: its key, its payload and its owner.
pub struct Ciphertext<C> {
    pub key: RefKey,
    pub ciphertext: C,
    pub owner: u128,
}

/// Encrypted scalars addressed by unique reference keys.
pub struct CiphertextCache<C> {
    ciphertexts: Vec<Ciphertext<C>>,
    contents: Ghost<Map<RefKey, Ciphertext<C>>>,
}

impl<C> View for CiphertextCache<C> {
    type V = Map<RefKey, Ciphertext<C>>;

    closed spec fn view(&self) -> Map<RefKey, Ciphertext<C>> {
        self.contents@
    }
}

impl<C> CiphertextCache<C> {
    /// The entries are keyed uniquely, and each is filed under its own key.
    pub closed spec fn wf(&self) -> bool {
        let s = self.ciphertexts@;
        let m = self.contents@;
        &&& forall|i: int, j: int|
            0 <= i < s.len() && 0 <= j < s.len() && i != j ==> #[trigger] s[i].key != #[trigger] s[j].key
        &&& forall|i: int| 0 <= i < s.len() ==> #[trigger] m.contains_key(s[i].key) && m[s[i].key] == s[i]
        &&& forall|k: RefKey|
            #[trigger] m.contains_key(k) ==> exists|i: int| 0 <= i < s.len() && s[i].key == k
    }

    /// Every entry is filed under its own key.
    pub proof fn lemma_keys_match(&self)
        requires
            self.wf(),
        ensures
            forall|k: RefKey| #[trigger] self@.contains_key(k) ==> self@[k].key == k,
    {
        assert forall|k: RefKey| #[trigger] self@.contains_key(k) implies self@[k].key == k by {
            let i = choose|i: int|
                0 <= i < self.ciphertexts@.len() && self.ciphertexts@[i].key == k;
            assert(self.contents@[self.ciphertexts@[i].key] == self.ciphertexts@[i]);
        }
    }

    pub fn new() -> (r: CiphertextCache<C>)
        ensures
            r.wf(),
            r@ == Map::<RefKey, Ciphertext<C>>::empty(),
    {
        CiphertextCache { ciphertexts: Vec::new(), contents: Ghost(Map::empty()) }
    }

    /// The position of `key` in the entry list, if it is stored.
    fn find(&self, key: &RefKey) -> (r: Option<usize>)
        requires
            self.wf(),
        ensures
            match r {
                Some(i) => i < self.ciphertexts@.len() && self.ciphertexts@[i as int].key == *key,
                None => !self@.contains_key(*key),
            },
    {
        let mut i: usize = 0;
        while i < self.ciphertexts.len()
            invariant
                self.wf(),
                0 <= i <= self.ciphertexts@.len(),
                forall|j: int| 0 <= j < i ==> #[trigger] self.ciphertexts@[j].key != *key,
            decreases self.ciphertexts@.len() - i,
        {
            if keys_equal(&self.ciphertexts[i].key, key) {
                return Some(i);
            }
            i = i + 1;
        }
        None
    }

    /// Stores `value` under a key that is not yet in use. Fails, and leaves
    /// the store as it was, when the key is occupied.
    pub fn add_ciphertext(&mut self, key: RefKey, owner: u128, value: C) -> (r: bool)
        requires
            old(self).wf(),
        ensures
            final(self).wf(),
            r == !old(self)@.contains_key(key),
            r ==> final(self)@ == old(self)@.insert(
                key,
                Ciphertext { key, ciphertext: value, owner },
            ),
            !r ==> final(self)@ == old(self)@,
    {
        match self.find(&key) {
            Some(_) => false,
            None => {
                let entry = Ciphertext { key, ciphertext: value, owner };
                let ghost e = entry;
                self.ciphertexts.push(entry);
                self.contents = Ghost(self.contents@.insert(key, e));
                proof {
                    let s = self.ciphertexts@;
                    let m = self.contents@;
                    assert forall|k: RefKey| #[trigger] m.contains_key(k) implies exists|i: int|
                        0 <= i < s.len() && s[i].key == k by {
                        if k != key {
                            assert(old(self).contents@.contains_key(k));
                            let i = choose|i: int|
                                0 <= i < old(self).ciphertexts@.len()
                                    && old(self).ciphertexts@[i].key == k;
                            assert(s[i].key == k);
                        } else {
                            assert(s[s.len() - 1].key == k);
                        }
                    }
                }
                true
            },
        }
    }

    /// Replaces the payload and owner stored under an existing key. Fails,
    /// and leaves the store as it was, when the key is absent.
    pub fn update_ciphertext(&mut self, key: RefKey, owner: u128, value: C) -> (r: bool)
        requires
            old(self).wf(),
        ensures
            final(self).wf(),
            r == old(self)@.contains_key(key),
            r ==> final(self)@ == old(self)@.insert(
                key,
                Ciphertext { key, ciphertext: value, owner },
            ),
            !r ==> final(self)@ == old(self)@,
    {
        match self.find(&key) {
            None => false,
            Some(i) => {
                let entry = Ciphertext { key, ciphertext: value, owner };
                let ghost e = entry;
                self.ciphertexts.set(i, entry);
                self.contents = Ghost(self.contents@.insert(key, e));
                proof {
                    let s = self.ciphertexts@;
                    let m = self.contents@;
                    assert forall|k: RefKey| #[trigger] m.contains_key(k) implies exists|j: int|
                        0 <= j < s.len() && s[j].key == k by {
                        assert(old(self).contents@.contains_key(k));
                        let j = choose|j: int|
                            0 <= j < old(self).ciphertexts@.len()
                                && old(self).ciphertexts@[j].key == k;
                        assert(s[j].key == k);
                    }
                }
                true
            },
        }
    }

    /// The entry stored under `key`; `None` when the reference is unknown.
    pub fn get_ciphertext(&self, key: RefKey) -> (r: Option<&Ciphertext<C>>)
        requires
            self.wf(),
        ensures
            match r {
                Some(c) => self@.contains_key(key) && *c == self@[key] && c.key == key,
                None => !self@.contains_key(key),
            },
    {
        match self.find(&key) {
            Some(i) => {
                assert(self.contents@.contains_key(self.ciphertexts@[i as int].key));
                Some(&self.ciphertexts[i])
            },
            None => None,
        }
    }
}

/// Accounts by id.
pub struct AccountCache {
    users: HashMap<u128, User>,
}

impl View for AccountCache {
    type V = Map<u128, UserView>;

    closed spec fn view(&self) -> Map<u128, UserView> {
        self.users@.map_values(|u: User| u@)
    }
}

impl AccountCache {
    /// Each account is filed under its own id.
    pub open spec fn wf(&self) -> bool {
        forall|id: u128| #[trigger] self@.contains_key(id) ==> self@[id].id == id
    }

    pub fn new() -> (r: AccountCache)
        ensures
            r.wf(),
            r@ == Map::<u128, UserView>::empty(),
    {
        let r = AccountCache { users: HashMap::new() };
        assert(r@ =~= Map::<u128, UserView>::empty());
        r
    }

    /// Adds an account under its id. Fails, and leaves the ledger as it
    /// was, when the id is taken.
    pub fn add_user(&mut self, user: User) -> (r: bool)
        requires
            old(self).wf(),
        ensures
            final(self).wf(),
            r == !old(self)@.contains_key(user.id),
            r ==> final(self)@ == old(self)@.insert(user.id, user@),
            !r ==> final(self)@ == old(self)@,
    {
        if self.users.contains_key(&user.id) {
            false
        } else {
            let ghost u = user;
            self.users.insert(user.id, user);
            assert(self@ =~= old(self)@.insert(u.id, u@));
            true
        }
    }

    /// Points the account's balance at `key`.
    pub fn update_balance(&mut self, user_id: u128, key: RefKey) -> (r: Result<(), LedgerError>)
        requires
            old(self).wf(),
        ensures
            final(self).wf(),
            r is Ok == old(self)@.contains_key(user_id),
            r is Ok ==> final(self)@ == old(self)@.insert(
                user_id,
                UserView { balance: key, ..old(self)@[user_id] },
            ),
            r is Err ==> r == Err::<(), LedgerError>(LedgerError::ReferenceNotFound) && final(self)@
                == old(self)@,
    {
        match self.users.remove(&user_id) {
            Some(mut u) => {
                assert(old(self)@.contains_key(user_id));
                assert(old(self)@[user_id].id == user_id);
                u.balance = key;
                self.users.insert(user_id, u);
                assert(self@ =~= old(self)@.insert(
                    user_id,
                    UserView { balance: key, ..old(self)@[user_id] },
                ));
                Ok(())
            },
            None => {
                assert(self.users@ =~= old(self).users@);
                assert(self@ =~= old(self)@);
                Err(LedgerError::ReferenceNotFound)
            },
        }
    }

    /// Appends `position` to the account's positions.
    pub fn add_position(&mut self, user_id: u128, position: Position) -> (r: Result<(), LedgerError>)
        requires
            old(self).wf(),
        ensures
            final(self).wf(),
            r is Ok == old(self)@.contains_key(user_id),
            r is Ok ==> final(self)@ == old(self)@.insert(
                user_id,
                UserView {
                    positions: old(self)@[user_id].positions.push(position),
                    ..old(self)@[user_id]
                },
            ),
            r is Err ==> r == Err::<(), LedgerError>(LedgerError::ReferenceNotFound) && final(self)@
                == old(self)@,
    {
        match self.users.remove(&user_id) {
            Some(mut u) => {
                assert(old(self)@.contains_key(user_id));
                assert(old(self)@[user_id].id == user_id);
                u.positions.push(position);
                self.users.insert(user_id, u);
                assert(self@ =~= old(self)@.insert(
                    user_id,
                    UserView {
                        positions: old(self)@[user_id].positions.push(position),
                        ..old(self)@[user_id]
                    },
                ));
                assert forall|id: u128| #[trigger] self@.contains_key(id) implies self@[id].id
                    == id by {
                    if id != user_id {
                        assert(old(self)@.contains_key(id));
                    }
                }
                Ok(())
            },
            None => {
                assert(self.users@ =~= old(self).users@);
                assert(self@ =~= old(self)@);
                Err(LedgerError::ReferenceNotFound)
            },
        }
    }

    /// The account with id `user_id`, if any.
    pub fn get_user(&self, user_id: u128) -> (r: Option<&User>)
        ensures
            match r {
                Some(u) => self@.contains_key(user_id) && u@ == self@[user_id],
                None => !self@.contains_key(user_id),
            },
    {
        self.users.get(&user_id)
    }

    /// The balance reference of account `user_id`, if the account exists.
    pub fn get_balance(&self, user_id: u128) -> (r: Option<&RefKey>)
        ensures
            match r {
                Some(k) => self@.contains_key(user_id) && *k == self@[user_id].balance,
                None => !self@.contains_key(user_id),
            },
    {
        match self.users.get(&user_id) {
            Some(u) => Some(&u.balance),
            None => None,
        }
    }

    pub fn user_exists(&self, user_id: u128) -> (r: bool)
        ensures
            r == self@.contains_key(user_id),
    {
        self.users.contains_key(&user_id)
    }

    /// All accounts, by id.
    pub fn get_all_users(&self) -> (r: &HashMap<u128, User>)
        ensures
            r@.map_values(|u: User| u@) == self@,
    {
        &self.users
    }
}

/// Positions in the order they were opened, split by direction. Ids are
/// issued by the book itself, counting from zero, and never reused.
pub struct PositionCache {
    n: u128,
    long_positions: Vec<Position>,
    short_positions: Vec<Position>,
}

impl PositionCache {
    pub closed spec fn longs(&self) -> Seq<Position> {
        self.long_positions@
    }

    pub closed spec fn shorts(&self) -> Seq<Position> {
        self.short_positions@
    }

    /// The number of positions ever added, which is also the next id.
    pub closed spec fn count(&self) -> nat {
        self.n as nat
    }

    /// The positions of one direction.
    pub open spec fn side(&self, direction: bool) -> Seq<Position> {
        if direction {
            self.longs()
        } else {
            self.shorts()
        }
    }

    /// Each partition holds its own direction, ids are below the count and
    /// distinct, and the count is the number of positions held.
    pub open spec fn wf(&self) -> bool {
        &&& self.count() <= u128::MAX
        &&& self.count() == self.longs().len() + self.shorts().len()
        &&& forall|i: int| 0 <= i < self.longs().len() ==> #[trigger] self.longs()[i].direction
        &&& forall|i: int| 0 <= i < self.shorts().len() ==> !#[trigger] self.shorts()[i].direction
        &&& forall|d: bool, i: int|
            0 <= i < self.side(d).len() ==> #[trigger] self.side(d)[i].id < self.count()
        &&& forall|d: bool, e: bool, i: int, j: int|
            0 <= i < self.side(d).len() && 0 <= j < self.side(e).len() && (d != e || i != j)
                ==> #[trigger] self.side(d)[i].id != #[trigger] self.side(e)[j].id
    }

    pub fn new() -> (r: PositionCache)
        ensures
            r.wf(),
            r.count() == 0,
            r.longs() == Seq::<Position>::empty(),
            r.shorts() == Seq::<Position>::empty(),
    {
        PositionCache { n: 0, long_positions: Vec::new(), short_positions: Vec::new() }
    }

    /// The number of positions ever added.
    pub fn len(&self) -> (r: u128)
        ensures
            r == self.count(),
    {
        self.n
    }

    /// Files `position` under the next id, in the partition of its
    /// direction, and returns that id.
    pub fn add_position(&mut self, position: Position) -> (id: u128)
        requires
            old(self).wf(),
        ensures
            final(self).wf(),
            id == old(self).count(),
            final(self).count() == old(self).count() + 1,
            final(self).side(position.direction) == old(self).side(position.direction).push(
                Position { id, ..position },
            ),
            final(self).side(!position.direction) == old(self).side(!position.direction),
    {
        let longs = self.long_positions.len();
        let shorts = self.short_positions.len();
        assert(self.n == longs + shorts);
        let id = self.n;
        let stored = Position { id, ..position };
        if position.direction {
            self.long_positions.push(stored);
        } else {
            self.short_positions.push(stored);
        }
        self.n = self.n + 1;
        proof {
            assert(self.side(position.direction) =~= old(self).side(position.direction).push(stored));
            assert(self.side(!position.direction) == old(self).side(!position.direction));
            assert forall|d: bool, i: int| 0 <= i < self.side(d).len() implies #[trigger] self.side(
                d,
            )[i].id < self.count() by {
                if d == position.direction && i == self.side(d).len() - 1 {
                } else {
                    assert(self.side(d)[i] == old(self).side(d)[i]);
                }
            }
            assert forall|d: bool, e: bool, i: int, j: int|
                0 <= i < self.side(d).len() && 0 <= j < self.side(e).len() && (d != e || i != j)
                    implies #[trigger] self.side(d)[i].id != #[trigger] self.side(e)[j].id by {
                let last_d = d == position.direction && i == self.side(d).len() - 1;
                let last_e = e == position.direction && j == self.side(e).len() - 1;
                if !last_d {
                    assert(self.side(d)[i] == old(self).side(d)[i]);
                }
                if !last_e {
                    assert(self.side(e)[j] == old(self).side(e)[j]);
                }
            }
        }
        id
    }

    /// The position with id `id` in the partition of `direction`.
    pub fn get_position(&self, id: u128, direction: bool) -> (r: Option<&Position>)
        requires
            self.wf(),
        ensures
            match r {
                Some(p) => exists|i: int|
                    0 <= i < self.side(direction).len() && self.side(direction)[i] == *p && p.id == id,
                None => forall|i: int|
                    0 <= i < self.side(direction).len() ==> #[trigger] self.side(direction)[i].id != id,
            },
    {
        let v = if direction {
            &self.long_positions
        } else {
            &self.short_positions
        };
        let mut i: usize = 0;
        while i < v.len()
            invariant
                *v == if direction { self.long_positions } else { self.short_positions },
                0 <= i <= v@.len(),
                forall|j: int| 0 <= j < i ==> #[trigger] v@[j].id != id,
            decreases v@.len() - i,
        {
            if v[i].id == id {
                assert(self.side(direction)[i as int] == v@[i as int]);
                return Some(&v[i]);
            }
            i = i + 1;
        }
        None
    }
}

} // verus!
