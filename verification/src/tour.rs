//! The tour length: how many hops, and so how many pairs of signatures, a
//! proof must hold.

use vstd::arithmetic::power2::lemma2_to64;
use vstd::arithmetic::power2::lemma2_to64_rest;
use vstd::arithmetic::power2::lemma_pow2_pos;
use vstd::arithmetic::power2::lemma_pow2_strictly_increases;
use vstd::arithmetic::power2::lemma_pow2_unfold;
use vstd::arithmetic::power2::pow2;
use vstd::bits::lemma_u64_shl_is_mul;
use vstd::bits::lemma_u64_shr_is_div;
use vstd::prelude::*;

verus! {

/// The tour length for a sampled value in a network of `network_size` nodes:
/// the sample, raised to the network size where it falls below it.
pub open spec fn tour_length_of(sample: u64, network_size: nat) -> nat {
    if sample as nat >= network_size {
        sample as nat
    } else {
        network_size
    }
}

/// The tour length for `sample`, the rounded draw from the normal
/// distribution, with `min_length`, the network size, as its floor.
pub fn tour_length(min_length: u64, sample: u64) -> (length: u64)
    ensures
        length == tour_length_of(sample, min_length as nat),
        length >= min_length,
{
    if sample >= min_length {
        sample
    } else {
        min_length
    }
}

/// The exponent field of a binary64 number given by its bits.
pub open spec fn exponent_of(bits: u64) -> nat {
    (bits as nat / 0x10_0000_0000_0000) % 2048
}

/// The fraction field of a binary64 number given by its bits.
pub open spec fn fraction_of(bits: u64) -> nat {
    bits as nat % 0x10_0000_0000_0000
}

/// Whether the sign bit of a binary64 number is set.
pub open spec fn is_negative(bits: u64) -> bool {
    bits as nat / 0x8000_0000_0000_0000 == 1
}

/// The binary64 number with the given bits, rounded to the nearest
/// non-negative integer, a half rounding up, and capped at `u64::MAX`. A
/// normal number is `(2^52 + fraction) * 2^(exponent - 1075)`. Negative
/// numbers, zeros, subnormal numbers and what is not a number give 0;
/// positive infinity gives `u64::MAX`.
pub open spec fn rounded(bits: u64) -> nat {
    let exponent = exponent_of(bits);
    let significand = 0x10_0000_0000_0000 + fraction_of(bits);
    if exponent == 2047 {
        if fraction_of(bits) == 0 && !is_negative(bits) {
            u64::MAX as nat
        } else {
            0
        }
    } else if is_negative(bits) || exponent == 0 {
        0
    } else if exponent >= 1075 {
        let whole = significand * pow2((exponent - 1075) as nat);
        if whole > u64::MAX {
            u64::MAX as nat
        } else {
            whole
        }
    } else {
        (significand + pow2((1074 - exponent) as nat)) / pow2((1075 - exponent) as nat)
    }
}

/// Rounds a sample, given as the bits of a binary64 number, to the
/// non-negative integer nearest to it.
pub fn round_sample(bits: u64) -> (sample: u64)
    ensures
        sample == rounded(bits),
{
    let negative = bits >> 63 == 1;
    let exponent: u64 = (bits >> 52) & 0x7ff;
    let fraction: u64 = bits & 0xf_ffff_ffff_ffff;
    let significand: u64 = 0x10_0000_0000_0000 | fraction;
    proof {
        assert(bits >> 63 == bits / 0x8000_0000_0000_0000) by (bit_vector);
        assert((bits >> 52) & 0x7ff == (bits / 0x10_0000_0000_0000) % 2048) by (bit_vector);
        assert(bits & 0xf_ffff_ffff_ffff == bits % 0x10_0000_0000_0000) by (bit_vector);
        assert(fraction < 0x10_0000_0000_0000 ==> 0x10_0000_0000_0000 | fraction
            == 0x10_0000_0000_0000 + fraction) by (bit_vector);
        assert(exponent == exponent_of(bits));
        assert(fraction == fraction_of(bits));
        assert(negative == is_negative(bits));
        lemma2_to64();
        lemma2_to64_rest();
    }
    if exponent == 0x7ff {
        if fraction == 0 && !negative {
            u64::MAX
        } else {
            0
        }
    } else if negative || exponent == 0 {
        0
    } else if exponent >= 1075 {
        let shift: u64 = exponent - 1075;
        if shift >= 12 {
            proof {
                if shift > 12 {
                    lemma_pow2_strictly_increases(12, shift as nat);
                }
                assert(significand * pow2(shift as nat) > u64::MAX) by (nonlinear_arith)
                    requires
                        significand >= 0x10_0000_0000_0000,
                        pow2(shift as nat) >= 0x1000,
                ;
            }
            u64::MAX
        } else {
            proof {
                if shift < 11 {
                    lemma_pow2_strictly_increases(shift as nat, 11);
                }
                assert(significand * pow2(shift as nat) <= u64::MAX) by (nonlinear_arith)
                    requires
                        significand < 0x20_0000_0000_0000,
                        pow2(shift as nat) <= 0x800,
                ;
                lemma_u64_shl_is_mul(significand, shift);
            }
            significand << shift
        }
    } else {
        let shift: u64 = 1075 - exponent;
        if shift >= 54 {
            proof {
                if shift > 54 {
                    lemma_pow2_strictly_increases(54, shift as nat);
                }
                lemma_pow2_strictly_increases((shift - 1) as nat, shift as nat);
                let whole = pow2(shift as nat);
                let half = pow2((shift - 1) as nat);
                assert(whole == 2 * half) by {
                    lemma_pow2_unfold(shift as nat);
                }
                assert((significand + half) / whole as int == 0) by (nonlinear_arith)
                    requires
                        0 <= significand + half < whole,
                ;
            }
            0
        } else {
            proof {
                lemma_pow2_pos((shift - 1) as nat);
                if shift < 53 {
                    lemma_pow2_strictly_increases((shift - 1) as nat, 52);
                }
                lemma_u64_shl_is_mul(1, (shift - 1) as u64);
                lemma_u64_shr_is_div((significand + (1u64 << ((shift - 1) as u64))) as u64, shift);
            }
            (significand + (1u64 << (shift - 1))) >> shift
        }
    }
}

} // verus!
