//! Reference keys: opaque 256-bit handles that address encrypted values.
use vstd::prelude::*;

verus! {

/// An opaque 256-bit handle into the ciphertext store.
pub type RefKey = [u8; 32];

/// The all-zero key marks an account that was never funded.
pub open spec fn is_sentinel(k: RefKey) -> bool {
    forall|i: int| 0 <= i < 32 ==> #[trigger] k[i] == 0u8
}

/// The sentinel key.
pub fn sentinel_key() -> (r: RefKey)
    ensures
        is_sentinel(r),
{
    [0u8; 32]
}

/// Whether `k` is the sentinel key.
pub fn key_is_sentinel(k: &RefKey) -> (r: bool)
    ensures
        r == is_sentinel(*k),
{
    let mut i: usize = 0;
    while i < 32
        invariant
            0 <= i <= 32,
            forall|j: int| 0 <= j < i ==> #[trigger] k[j] == 0u8,
        decreases 32 - i,
    {
        if k[i] != 0 {
            return false;
        }
        i = i + 1;
    }
    true
}

/// Byte-wise equality of two keys.
pub fn keys_equal(a: &RefKey, b: &RefKey) -> (r: bool)
    ensures
        r == (*a == *b),
{
    let mut i: usize = 0;
    while i < 32
        invariant
            0 <= i <= 32,
            forall|j: int| 0 <= j < i ==> #[trigger] a[j] == b[j],
        decreases 32 - i,
    {
        if a[i] != b[i] {
            return false;
        }
        i = i + 1;
    }
    proof {
        assert(*a =~= *b);
    }
    true
}

} // verus!
