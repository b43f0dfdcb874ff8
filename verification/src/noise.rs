//! The integer side of the Voss-McCartney pink noise generator: on each
//! sample, the generators indexed by the trailing zero bits of a running
//! counter are refreshed, so generator `i` changes every `2^i` samples.

use vstd::prelude::*;

verus! {

/// The number of pink noise generators.
pub const PINK_GENERATORS: usize = 16;

/// Whether bit `i` of `x` is set.
pub open spec fn bit_set(x: u32, i: u32) -> bool {
    x & (1u32 << i) != 0
}

/// `n` is the number of generators refreshed at counter value `counter`: the
/// number of trailing zero bits, capped at the number of generators.
pub open spec fn refresh_count(counter: u32, n: nat) -> bool {
    &&& n <= 16
    &&& forall|i: u32| i < n ==> !bit_set(counter, i)
    &&& n < 16 ==> bit_set(counter, n as u32)
}

/// How many leading generators to refresh at counter value `counter`.
pub fn pink_refresh_count(counter: u32) -> (r: usize)
    ensures
        refresh_count(counter, r as nat),
{
    let mut bit: u32 = 1;
    let mut i: u32 = 0;
    assert(1u32 == 1u32 << 0u32) by (bit_vector);
    while i < 16
        invariant
            i <= 16,
            bit == 1u32 << i,
            forall|k: u32| k < i ==> !bit_set(counter, k),
        decreases 16 - i,
    {
        if counter & bit != 0 {
            return i as usize;
        }
        proof {
            assert(i < 16 ==> (1u32 << i) << 1u32 == 1u32 << ((i + 1) as u32)) by (bit_vector);
        }
        bit = bit << 1u32;
        i = i + 1;
    }
    16
}

} // verus!
