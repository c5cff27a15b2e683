//! Byte-level encodings shared by the commitment, coordinate and seed logic.
use vstd::prelude::*;

verus! {

/// The `n` low-order bytes of `x`, least significant first
/// (what `to_le_bytes` yields for an `n`-byte integer).
pub open spec fn le_bytes(x: nat, n: nat) -> Seq<u8>
    decreases n,
{
    if n == 0 {
        Seq::empty()
    } else {
        seq![(x % 256) as u8] + le_bytes(x / 256, (n - 1) as nat)
    }
}

/// Appends the `n` little-endian bytes of `x` to `out`.
pub fn push_le_bytes(out: &mut Vec<u8>, x: u128, n: usize)
    requires
        n <= 16,
    ensures
        final(out)@ == old(out)@ + le_bytes(x as nat, n as nat),
{
    let ghost start = out@;
    let mut v: u128 = x;
    let mut i: usize = 0;
    while i < n
        invariant
            i <= n,
            start + le_bytes(x as nat, n as nat) == out@ + le_bytes(v as nat, (n - i) as nat),
        decreases n - i,
    {
        let b: u8 = (v % 256) as u8;
        proof {
            let k = (n - i) as nat;
            assert(le_bytes(v as nat, k) == seq![b] + le_bytes((v / 256) as nat, (k - 1) as nat));
            assert(out@ + le_bytes(v as nat, k) == out@.push(b) + le_bytes((v / 256) as nat, (k - 1) as nat));
        }
        out.push(b);
        v = v / 256;
        i = i + 1;
    }
    assert(le_bytes(v as nat, 0) =~= Seq::<u8>::empty());
    assert(out@ + Seq::<u8>::empty() =~= out@);
}

/// Appends every byte of `src` to `out`.
pub fn push_all(out: &mut Vec<u8>, src: &[u8])
    ensures
        final(out)@ == old(out)@ + src@,
{
    let ghost start = out@;
    let mut i: usize = 0;
    while i < src.len()
        invariant
            i <= src@.len(),
            out@ == start + src@.subrange(0, i as int),
        decreases src@.len() - i,
    {
        out.push(src[i]);
        i = i + 1;
        assert(out@ =~= start + src@.subrange(0, i as int));
    }
    assert(src@.subrange(0, src@.len() as int) =~= src@);
}

} // verus!
