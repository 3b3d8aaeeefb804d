//! The TFHE-backed engine: 64-bit unsigned integers encrypted with tfhe.
use crate::engine::HomomorphicEngine;
use tfhe::prelude::{FheDecrypt, FheEncrypt, FheEq, FheOrd, OverflowingMul};
use vstd::prelude::*;
use vstd::wrapping::u64_specs::{wrapping_add, wrapping_mul, wrapping_sub};

verus! {

#[verifier::external_type_specification]
#[verifier::external_body]
pub struct ExClientKey(tfhe::ClientKey);

#[verifier::external_type_specification]
#[verifier::external_body]
pub struct ExServerKey(tfhe::ServerKey);

#[verifier::external_type_specification]
#[verifier::external_body]
pub struct ExFheBool(tfhe::FheBool);

/// A tfhe `FheUint64` ciphertext. tfhe names that type through a generic
/// whose bound it keeps private, so it is held here opaquely.
#[verifier::external_body]
pub struct FheWord {
    inner: tfhe::FheUint64,
}

/// An encrypted 64-bit integer, with the client key it was made under.
pub struct EncryptedU64 {
    word: FheWord,
    key: Ghost<tfhe::ClientKey>,
}

impl EncryptedU64 {
    /// The tfhe ciphertext.
    pub closed spec fn word(&self) -> FheWord {
        self.word
    }

    /// The ciphertext in bincode's encoding.
    pub fn to_bytes(&self) -> (r: Option<Vec<u8>>)
        ensures
            r is Some == encodable(self.word()),
            r matches Some(b) ==> b@ == encoding(self.word()),
    {
        tfhe_serialize(&self.word)
    }
}

/// An encrypted boolean, with the client key it was made under.
pub struct EncryptedBool {
    flag: tfhe::FheBool,
    key: Ghost<tfhe::ClientKey>,
}

/// The value that `c` decrypts to under the client key `k`.
pub uninterp spec fn decrypted(c: FheWord, k: tfhe::ClientKey) -> u64;

/// The boolean that `f` decrypts to under the client key `k`.
pub uninterp spec fn decrypted_flag(f: tfhe::FheBool, k: tfhe::ClientKey) -> bool;

/// The bytes that bincode writes for `c`.
pub uninterp spec fn encoding(c: FheWord) -> Seq<u8>;

/// Whether bincode encodes `c` without reporting an error.
pub uninterp spec fn encodable(c: FheWord) -> bool;

/// Relies on `bincode::serialize` of `FheUint64`: its bytes, or `None` where
/// bincode reports an error. Both depend on the ciphertext alone.
#[verifier::external_body]
fn tfhe_serialize(c: &FheWord) -> (r: Option<Vec<u8>>)
    ensures
        r is Some == encodable(*c),
        r matches Some(b) ==> b@ == encoding(*c),
{
    bincode::serialize(&c.inner).ok()
}

/// Relies on `ServerKey::new`: the server key generated from `k`.
#[verifier::external_body]
fn tfhe_server_key(k: &tfhe::ClientKey) -> (r: tfhe::ServerKey) {
    tfhe::ServerKey::new(k)
}

/// Relies on `FheUint64::encrypt`: the ciphertext decrypts to `v` under `k`.
#[verifier::external_body]
fn tfhe_encrypt(v: u64, k: &tfhe::ClientKey) -> (r: FheWord)
    ensures
        decrypted(r, *k) == v,
{
    FheWord { inner: tfhe::FheUint64::encrypt(v, k) }
}

/// Relies on `FheDecrypt::<u64>::decrypt` of `FheUint64`, on a ciphertext
/// made under `k` (tfhe asserts that the key fits the ciphertext).
#[verifier::external_body]
fn tfhe_decrypt(c: &EncryptedU64, k: &tfhe::ClientKey) -> (r: u64)
    requires
        c.key@ == *k,
    ensures
        r == decrypted(c.word, *k),
{
    c.word.inner.decrypt(k)
}

/// Relies on `FheDecrypt::<bool>::decrypt` of `FheBool`, on a ciphertext
/// made under `k`.
#[verifier::external_body]
fn tfhe_decrypt_flag(f: &EncryptedBool, k: &tfhe::ClientKey) -> (r: bool)
    requires
        f.key@ == *k,
    ensures
        r == decrypted_flag(f.flag, *k),
{
    f.flag.decrypt(k)
}

/// Relies on `&FheUint64 + &FheUint64`, modular, evaluated under the
/// engine's server key (which tfhe reads from the thread's context) on
/// operands encrypted under the client key that server key was made from.
#[verifier::external_body]
fn tfhe_add(e: &TfheEngine, a: &EncryptedU64, b: &EncryptedU64) -> (r: FheWord)
    requires
        a.key@ == e.client_key,
        b.key@ == e.client_key,
    ensures
        decrypted(r, e.client_key) == wrapping_add(
            decrypted(a.word, e.client_key),
            decrypted(b.word, e.client_key),
        ),
{
    tfhe::set_server_key(e.server_key.clone());
    FheWord { inner: &a.word.inner + &b.word.inner }
}

/// Relies on `&FheUint64 - &FheUint64`, modular, under the engine's keys.
#[verifier::external_body]
fn tfhe_sub(e: &TfheEngine, a: &EncryptedU64, b: &EncryptedU64) -> (r: FheWord)
    requires
        a.key@ == e.client_key,
        b.key@ == e.client_key,
    ensures
        decrypted(r, e.client_key) == wrapping_sub(
            decrypted(a.word, e.client_key),
            decrypted(b.word, e.client_key),
        ),
{
    tfhe::set_server_key(e.server_key.clone());
    FheWord { inner: &a.word.inner - &b.word.inner }
}

/// Relies on `OverflowingMul::overflowing_mul` of `FheUint64` under the
/// engine's keys: the product modulo 2^64, and whether it overflowed.
#[verifier::external_body]
fn tfhe_overflowing_mul(e: &TfheEngine, a: &EncryptedU64, b: &EncryptedU64) -> (r: (
    FheWord,
    tfhe::FheBool,
))
    requires
        a.key@ == e.client_key,
        b.key@ == e.client_key,
    ensures
        decrypted(r.0, e.client_key) == wrapping_mul(
            decrypted(a.word, e.client_key),
            decrypted(b.word, e.client_key),
        ),
        decrypted_flag(r.1, e.client_key) == (decrypted(a.word, e.client_key) as int * decrypted(
            b.word,
            e.client_key,
        ) as int > u64::MAX),
{
    tfhe::set_server_key(e.server_key.clone());
    let (product, overflowed) = (&a.word.inner).overflowing_mul(&b.word.inner);
    (FheWord { inner: product }, overflowed)
}

/// Relies on `FheOrd::ge` of `FheUint64` under the engine's keys.
#[verifier::external_body]
fn tfhe_ge(e: &TfheEngine, a: &EncryptedU64, b: &EncryptedU64) -> (r: tfhe::FheBool)
    requires
        a.key@ == e.client_key,
        b.key@ == e.client_key,
    ensures
        decrypted_flag(r, e.client_key) == (decrypted(a.word, e.client_key) >= decrypted(
            b.word,
            e.client_key,
        )),
{
    tfhe::set_server_key(e.server_key.clone());
    a.word.inner.ge(&b.word.inner)
}

/// Relies on `FheEq::eq` of `FheUint64` under the engine's keys.
#[verifier::external_body]
fn tfhe_eq(e: &TfheEngine, a: &EncryptedU64, b: &EncryptedU64) -> (r: tfhe::FheBool)
    requires
        a.key@ == e.client_key,
        b.key@ == e.client_key,
    ensures
        decrypted_flag(r, e.client_key) == (decrypted(a.word, e.client_key) == decrypted(
            b.word,
            e.client_key,
        )),
{
    tfhe::set_server_key(e.server_key.clone());
    a.word.inner.eq(&b.word.inner)
}

/// Relies on `&FheBool & &FheBool` under the engine's keys.
#[verifier::external_body]
fn tfhe_and(e: &TfheEngine, a: &EncryptedBool, b: &EncryptedBool) -> (r: tfhe::FheBool)
    requires
        a.key@ == e.client_key,
        b.key@ == e.client_key,
    ensures
        decrypted_flag(r, e.client_key) == (decrypted_flag(a.flag, e.client_key)
            && decrypted_flag(b.flag, e.client_key)),
{
    tfhe::set_server_key(e.server_key.clone());
    &a.flag & &b.flag
}

/// Relies on `!&FheBool` under the engine's keys.
#[verifier::external_body]
fn tfhe_not(e: &TfheEngine, a: &EncryptedBool) -> (r: tfhe::FheBool)
    requires
        a.key@ == e.client_key,
    ensures
        decrypted_flag(r, e.client_key) == !decrypted_flag(a.flag, e.client_key),
{
    tfhe::set_server_key(e.server_key.clone());
    !&a.flag
}

/// A tfhe key pair: the client key encrypts and decrypts, the server key,
/// derived from it when the engine is made, evaluates. tfhe's parameter
/// sets bound the failure probability of each operation (2^-40 for the
/// default set); the contracts here take results as exact.
pub struct TfheEngine {
    client_key: tfhe::ClientKey,
    server_key: tfhe::ServerKey,
}

impl TfheEngine {
    /// An engine over `client_key`, with the server key generated from it.
    pub fn new(client_key: tfhe::ClientKey) -> (r: TfheEngine) {
        let server_key = tfhe_server_key(&client_key);
        TfheEngine { client_key, server_key }
    }
}

impl HomomorphicEngine for TfheEngine {
    type Cipher = EncryptedU64;

    type Flag = EncryptedBool;

    closed spec fn owns(&self, c: &EncryptedU64) -> bool {
        c.key@ == self.client_key
    }

    closed spec fn owns_flag(&self, f: &EncryptedBool) -> bool {
        f.key@ == self.client_key
    }

    closed spec fn plain(&self, c: &EncryptedU64) -> u64 {
        decrypted(c.word, self.client_key)
    }

    closed spec fn truth(&self, f: &EncryptedBool) -> bool {
        decrypted_flag(f.flag, self.client_key)
    }

    fn encrypt(&self, v: u64) -> (r: EncryptedU64) {
        EncryptedU64 { word: tfhe_encrypt(v, &self.client_key), key: Ghost(self.client_key) }
    }

    fn decrypt(&self, c: &EncryptedU64) -> (r: u64) {
        tfhe_decrypt(c, &self.client_key)
    }

    fn decrypt_flag(&self, f: &EncryptedBool) -> (r: bool) {
        tfhe_decrypt_flag(f, &self.client_key)
    }

    fn add(&self, a: &EncryptedU64, b: &EncryptedU64) -> (r: EncryptedU64) {
        EncryptedU64 { word: tfhe_add(self, a, b), key: Ghost(self.client_key) }
    }

    fn sub(&self, a: &EncryptedU64, b: &EncryptedU64) -> (r: EncryptedU64) {
        EncryptedU64 { word: tfhe_sub(self, a, b), key: Ghost(self.client_key) }
    }

    fn overflowing_mul(&self, a: &EncryptedU64, b: &EncryptedU64) -> (r: (
        EncryptedU64,
        EncryptedBool,
    )) {
        let (word, flag) = tfhe_overflowing_mul(self, a, b);
        (
            EncryptedU64 { word, key: Ghost(self.client_key) },
            EncryptedBool { flag, key: Ghost(self.client_key) },
        )
    }

    fn ge(&self, a: &EncryptedU64, b: &EncryptedU64) -> (r: EncryptedBool) {
        EncryptedBool { flag: tfhe_ge(self, a, b), key: Ghost(self.client_key) }
    }

    fn eq(&self, a: &EncryptedU64, b: &EncryptedU64) -> (r: EncryptedBool) {
        EncryptedBool { flag: tfhe_eq(self, a, b), key: Ghost(self.client_key) }
    }

    fn flag_and(&self, a: &EncryptedBool, b: &EncryptedBool) -> (r: EncryptedBool) {
        EncryptedBool { flag: tfhe_and(self, a, b), key: Ghost(self.client_key) }
    }

    fn flag_not(&self, a: &EncryptedBool) -> (r: EncryptedBool) {
        EncryptedBool { flag: tfhe_not(self, a), key: Ghost(self.client_key) }
    }
}

} // verus!
