//! Hash functions of outside crates, behind trusted wrappers.
use vstd::prelude::*;
use sha2::Digest;

verus! {

/// The 32-byte BLAKE3 digest of a message, as computed by the `blake3` crate.
pub uninterp spec fn blake3_digest(data: Seq<u8>) -> Seq<u8>;

/// The 32-byte SHA-256 digest of a message, as computed by the `sha2` crate.
pub uninterp spec fn sha256_digest(data: Seq<u8>) -> Seq<u8>;

/// Calls `blake3::hash` on `data`. Trusted: the result is `blake3_digest(data)`,
/// a function of the bytes alone. The crate documents that an incremental
/// `Hasher` fed the same bytes in several `update` calls finalizes to the same
/// digest, which is why callers hash the concatenated message in one call.
#[verifier::external_body]
pub(crate) fn blake3_hash(data: &[u8]) -> (r: [u8; 32])
    ensures
        r@ == blake3_digest(data@),
{
    *blake3::hash(data).as_bytes()
}

/// Calls `sha2::Sha256::digest` on `data`. Trusted: the result is
/// `sha256_digest(data)`, a function of the bytes alone.
#[verifier::external_body]
pub(crate) fn sha256(data: &[u8]) -> (r: [u8; 32])
    ensures
        r@ == sha256_digest(data@),
{
    sha2::Sha256::digest(data).into()
}

/// Byte-wise equality of two 32-byte values.
pub fn bytes32_eq(a: &[u8; 32], b: &[u8; 32]) -> (r: bool)
    ensures
        r == (a@ == b@),
{
    let mut i: usize = 0;
    while i < 32
        invariant
            i <= 32,
            forall|j: int| 0 <= j < i ==> a@[j] == b@[j],
        decreases 32 - i,
    {
        if a[i] != b[i] {
            return false;
        }
        i = i + 1;
    }
    assert(a@ =~= b@);
    true
}

} // verus!
