//! The homomorphic evaluation capability that every circuit is handed.
use vstd::prelude::*;
use vstd::wrapping::u64_specs::{wrapping_add, wrapping_mul, wrapping_sub};

verus! {

/// A homomorphic-encryption backend over 64-bit unsigned integers.
///
/// `owns` says that a ciphertext was made under this backend's key, and
/// `plain` is the value it then decrypts to; `owns_flag` and `truth` say
/// the same of an encrypted boolean. Operations take ciphertexts of this
/// backend only, and are stated over those views: arithmetic is modulo 2^64.
pub trait HomomorphicEngine: Sized {
    type Cipher;

    type Flag;

    spec fn owns(&self, c: &Self::Cipher) -> bool;

    spec fn owns_flag(&self, f: &Self::Flag) -> bool;

    spec fn plain(&self, c: &Self::Cipher) -> u64;

    spec fn truth(&self, f: &Self::Flag) -> bool;

    fn encrypt(&self, v: u64) -> (r: Self::Cipher)
        ensures
            self.owns(&r),
            self.plain(&r) == v,
    ;

    fn decrypt(&self, c: &Self::Cipher) -> (r: u64)
        requires
            self.owns(c),
        ensures
            r == self.plain(c),
    ;

    fn decrypt_flag(&self, f: &Self::Flag) -> (r: bool)
        requires
            self.owns_flag(f),
        ensures
            r == self.truth(f),
    ;

    fn add(&self, a: &Self::Cipher, b: &Self::Cipher) -> (r: Self::Cipher)
        requires
            self.owns(a),
            self.owns(b),
        ensures
            self.owns(&r),
            self.plain(&r) == wrapping_add(self.plain(a), self.plain(b)),
    ;

    fn sub(&self, a: &Self::Cipher, b: &Self::Cipher) -> (r: Self::Cipher)
        requires
            self.owns(a),
            self.owns(b),
        ensures
            self.owns(&r),
            self.plain(&r) == wrapping_sub(self.plain(a), self.plain(b)),
    ;

    /// The product modulo 2^64, with a flag that tells whether the true
    /// product exceeds 64 bits.
    fn overflowing_mul(&self, a: &Self::Cipher, b: &Self::Cipher) -> (r: (Self::Cipher, Self::Flag))
        requires
            self.owns(a),
            self.owns(b),
        ensures
            self.owns(&r.0),
            self.owns_flag(&r.1),
            self.plain(&r.0) == wrapping_mul(self.plain(a), self.plain(b)),
            self.truth(&r.1) == (self.plain(a) as int * self.plain(b) as int > u64::MAX),
    ;

    fn ge(&self, a: &Self::Cipher, b: &Self::Cipher) -> (r: Self::Flag)
        requires
            self.owns(a),
            self.owns(b),
        ensures
            self.owns_flag(&r),
            self.truth(&r) == (self.plain(a) >= self.plain(b)),
    ;

    fn eq(&self, a: &Self::Cipher, b: &Self::Cipher) -> (r: Self::Flag)
        requires
            self.owns(a),
            self.owns(b),
        ensures
            self.owns_flag(&r),
            self.truth(&r) == (self.plain(a) == self.plain(b)),
    ;

    fn flag_and(&self, a: &Self::Flag, b: &Self::Flag) -> (r: Self::Flag)
        requires
            self.owns_flag(a),
            self.owns_flag(b),
        ensures
            self.owns_flag(&r),
            self.truth(&r) == (self.truth(a) && self.truth(b)),
    ;

    fn flag_not(&self, a: &Self::Flag) -> (r: Self::Flag)
        requires
            self.owns_flag(a),
        ensures
            self.owns_flag(&r),
            self.truth(&r) == !self.truth(a),
    ;
}

/// A backend that evaluates the same circuits on unencrypted values.
///
/// It offers no confidentiality. It serves development and the checking
/// of circuit logic, where generating real key material is too costly.
pub struct ClearEngine;

impl ClearEngine {
    pub fn new() -> (r: ClearEngine) {
        ClearEngine
    }
}

impl HomomorphicEngine for ClearEngine {
    type Cipher = u64;

    type Flag = bool;

    open spec fn owns(&self, c: &u64) -> bool {
        true
    }

    open spec fn owns_flag(&self, f: &bool) -> bool {
        true
    }

    open spec fn plain(&self, c: &u64) -> u64 {
        *c
    }

    open spec fn truth(&self, f: &bool) -> bool {
        *f
    }

    fn encrypt(&self, v: u64) -> (r: u64) {
        v
    }

    fn decrypt(&self, c: &u64) -> (r: u64) {
        *c
    }

    fn decrypt_flag(&self, f: &bool) -> (r: bool) {
        *f
    }

    fn add(&self, a: &u64, b: &u64) -> (r: u64) {
        a.wrapping_add(*b)
    }

    fn sub(&self, a: &u64, b: &u64) -> (r: u64) {
        a.wrapping_sub(*b)
    }

    fn overflowing_mul(&self, a: &u64, b: &u64) -> (r: (u64, bool)) {
        (a.wrapping_mul(*b), a.checked_mul(*b).is_none())
    }

    fn ge(&self, a: &u64, b: &u64) -> (r: bool) {
        *a >= *b
    }

    fn eq(&self, a: &u64, b: &u64) -> (r: bool) {
        *a == *b
    }

    fn flag_and(&self, a: &bool, b: &bool) -> (r: bool) {
        *a && *b
    }

    fn flag_not(&self, a: &bool) -> (r: bool) {
        !*a
    }
}

} // verus!
