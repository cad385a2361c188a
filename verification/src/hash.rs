//! FNV-1a, the 64-bit hash the goldens and the typed seeds use.

use vstd::prelude::*;

verus! {

/// FNV-1a's starting value.
pub const FNV_OFFSET: u64 = 0xcbf2_9ce4_8422_2325;
/// FNV-1a's multiplier.
pub const FNV_PRIME: u64 = 0x0000_0100_0000_01b3;

/// FNV-1a of a run of bytes: from the offset, each byte xored in and the product with the
/// prime kept to 64 bits.
pub open spec fn spec_fnv1a64(bytes: Seq<u8>) -> u64
    decreases bytes.len(),
{
    if bytes.len() == 0 {
        FNV_OFFSET
    } else {
        vstd::wrapping::u64_specs::wrapping_mul(
            spec_fnv1a64(bytes.drop_last()) ^ (bytes.last() as u64),
            FNV_PRIME,
        )
    }
}

/// FNV-1a of a run of bytes.
pub fn fnv1a64(bytes: &[u8]) -> (r: u64)
    ensures
        r == spec_fnv1a64(bytes@),
{
    let mut h: u64 = FNV_OFFSET;
    let mut i: usize = 0;
    while i < bytes.len()
        invariant
            i <= bytes@.len(),
            h == spec_fnv1a64(bytes@.take(i as int)),
        decreases bytes@.len() - i,
    {
        proof {
            assert(bytes@.take(i + 1).drop_last() =~= bytes@.take(i as int));
        }
        h = (h ^ bytes[i] as u64).wrapping_mul(FNV_PRIME);
        i = i + 1;
    }
    proof {
        assert(bytes@.take(bytes@.len() as int) =~= bytes@);
    }
    h
}

} // verus!
