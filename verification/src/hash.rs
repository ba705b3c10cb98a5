//! The 64-bit hash that picks the next hop. It is FNV-1a, which gives the same
//! value on every platform; it only feeds an index and is no security primitive.

use vstd::prelude::*;

verus! {

/// The value the hash starts from.
pub const OFFSET_BASIS: u64 = 0xcbf2_9ce4_8422_2325;

/// The multiplier of each round.
pub const PRIME: u64 = 0x0000_0100_0000_01b3;

/// One round: fold a byte into the state.
pub open spec fn mixed(state: u64, byte: u8) -> u64 {
    (((state ^ (byte as u64)) as nat * PRIME as nat) % 0x1_0000_0000_0000_0000) as u64
}

/// The hash of a byte sequence.
pub open spec fn hashed(bytes: Seq<u8>) -> u64
    decreases bytes.len(),
{
    if bytes.len() == 0 {
        OFFSET_BASIS
    } else {
        mixed(hashed(bytes.drop_last()), bytes.last())
    }
}

/// Hashes `bytes`.
pub fn hash(bytes: &[u8]) -> (h: u64)
    ensures
        h == hashed(bytes@),
{
    let mut state: u64 = OFFSET_BASIS;
    let mut i: usize = 0;
    while i < bytes.len()
        invariant
            i <= bytes@.len(),
            state == hashed(bytes@.take(i as int)),
        decreases bytes@.len() - i,
    {
        proof {
            assert(bytes@.take(i + 1).drop_last() =~= bytes@.take(i as int));
        }
        state = (state ^ (bytes[i] as u64)).wrapping_mul(PRIME);
        i += 1;
    }
    assert(bytes@.take(i as int) =~= bytes@);
    state
}

} // verus!
