//! Playback speed as an exact dyadic rational, and the number of integration
//! steps that one tick covers at a given speed.
//!
//! A speed arrives as the 64 bits of an IEEE 754 binary64 number. Every finite
//! binary64 value is an integer times a power of two, so the speed is kept in
//! that form, and its product with the steps per tick at speed one is formed
//! in integers and rounded as a binary64 multiplication rounds it.

use vstd::prelude::*;
use vstd::arithmetic::div_mod::lemma_div_denominator;
use vstd::arithmetic::power2::*;
use vstd::bits::*;
use crate::pacing::UNIT_STEPS_PER_TICK;

verus! {

/// The sign bit of a binary64 bit pattern.
pub open spec fn sign_of_bits(bits: u64) -> nat {
    (bits / 0x8000_0000_0000_0000u64) as nat
}

/// The eleven-bit biased exponent field of a binary64 bit pattern.
pub open spec fn biased_exponent_of_bits(bits: u64) -> nat {
    ((bits / 0x10_0000_0000_0000u64) % 0x800u64) as nat
}

/// The fifty-two-bit fraction field of a binary64 bit pattern.
pub open spec fn fraction_of_bits(bits: u64) -> nat {
    (bits % 0x10_0000_0000_0000u64) as nat
}

/// Whether the bit pattern denotes a finite number that is zero or positive.
/// Negative zero counts as zero. Infinities and NaNs have all exponent bits set.
pub open spec fn bits_are_finite_non_negative(bits: u64) -> bool {
    &&& biased_exponent_of_bits(bits) != 0x7ff
    &&& (sign_of_bits(bits) == 0 || (biased_exponent_of_bits(bits) == 0 && fraction_of_bits(bits)
        == 0))
}

/// The integer significand of a finite bit pattern: subnormal numbers have no
/// implicit leading one.
pub open spec fn mantissa_of_bits(bits: u64) -> nat {
    if biased_exponent_of_bits(bits) == 0 {
        fraction_of_bits(bits)
    } else {
        fraction_of_bits(bits) + 0x10_0000_0000_0000
    }
}

/// The power of two by which the integer significand of a finite bit pattern is scaled.
pub open spec fn exponent_of_bits(bits: u64) -> int {
    if biased_exponent_of_bits(bits) == 0 {
        -1074
    } else {
        biased_exponent_of_bits(bits) - 1075
    }
}

/// `floor(mantissa * 2^exponent)`.
pub open spec fn scaled_floor(mantissa: nat, exponent: int) -> nat {
    if exponent >= 0 {
        mantissa * pow2(exponent as nat)
    } else {
        mantissa / pow2((-exponent) as nat)
    }
}

/// The number of low bits that an integer holds beyond the fifty-three
/// significant bits of a binary64 number.
pub open spec fn excess_bits(value: nat) -> nat
    decreases value,
{
    if value < 0x20_0000_0000_0000 {
        0
    } else {
        1 + excess_bits(value / 2)
    }
}

/// The multiple of `granule` nearest to `value`; of two equally near ones,
/// the even multiple.
pub open spec fn round_half_even(value: nat, granule: nat) -> nat {
    let quotient = value / granule;
    let rest = value % granule;
    if 2 * rest < granule || (2 * rest == granule && quotient % 2 == 0) {
        quotient * granule
    } else {
        (quotient + 1) * granule
    }
}

/// The integer nearest to `value` that fits in fifty-three significant bits,
/// ties going to the one whose last significant bit is zero: what a binary64
/// multiplication keeps of an exact integer product.
pub open spec fn nearest_significand(value: nat) -> nat {
    round_half_even(value, pow2(excess_bits(value)))
}

/// A non-negative finite playback speed, equal to `mantissa * 2^exponent`.
#[derive(Clone, Copy, Debug, PartialEq, Eq)]
pub struct SpeedMultiplier {
    mantissa: u64,
    exponent: i32,
}

impl SpeedMultiplier {
    #[verifier::type_invariant]
    spec fn in_range(self) -> bool {
        &&& self.mantissa < 0x20_0000_0000_0000
        &&& -1074 <= self.exponent <= 971
    }

    /// The integer significand.
    pub closed spec fn mantissa(self) -> nat {
        self.mantissa as nat
    }

    /// The power of two that scales the significand.
    pub closed spec fn exponent(self) -> int {
        self.exponent as int
    }

    /// `floor(factor * self)`, where the product is rounded as a binary64
    /// multiplication rounds it.
    pub open spec fn times_floor(self, factor: nat) -> nat {
        scaled_floor(nearest_significand(factor * self.mantissa()), self.exponent())
    }

    /// Reads a speed from the bits of a binary64 number. Negative numbers,
    /// infinities and NaNs are no speeds.
    pub fn from_bits(bits: u64) -> (speed: Option<SpeedMultiplier>)
        ensures
            speed is Some <==> bits_are_finite_non_negative(bits),
            speed matches Some(s) ==> s.mantissa() == mantissa_of_bits(bits) && s.exponent()
                == exponent_of_bits(bits),
    {
        let sign: u64 = bits >> 63;
        let biased: u64 = (bits >> 52) & 0x7ff;
        let fraction: u64 = bits & 0xf_ffff_ffff_ffff;
        assert(bits >> 63 == bits / 0x8000_0000_0000_0000u64) by (bit_vector);
        assert((bits >> 52) & 0x7ff == (bits / 0x10_0000_0000_0000u64) % 0x800u64)
            by (bit_vector);
        assert(bits & 0xf_ffff_ffff_ffff == bits % 0x10_0000_0000_0000u64) by (bit_vector);
        if biased == 0x7ff {
            None
        } else if sign != 0 && (biased != 0 || fraction != 0) {
            None
        } else if biased == 0 {
            Some(SpeedMultiplier { mantissa: fraction, exponent: -1074 })
        } else {
            let exponent: i32 = biased as i32 - 1075;
            Some(SpeedMultiplier { mantissa: fraction + 0x10_0000_0000_0000, exponent })
        }
    }
}

/// Integration steps in one tick at the given speed:
/// `floor((tick interval / step length) * speed)`, the product rounded to
/// binary64 precision and the result held to the largest `u64`.
pub open spec fn steps_per_tick_at(speed: SpeedMultiplier) -> nat {
    let exact = speed.times_floor(UNIT_STEPS_PER_TICK as nat);
    if exact <= u64::MAX {
        exact
    } else {
        u64::MAX as nat
    }
}

/// Rounds `value` to fifty-three significant bits, ties to even.
fn round_to_significand(value: u64) -> (rounded: u64)
    requires
        value < 0x2000_0000_0000_0000,
    ensures
        rounded == nearest_significand(value as nat),
{
    let mut quotient: u64 = value;
    let mut granule: u64 = 1;
    let ghost mut bits: nat = 0;
    proof {
        lemma2_to64();
    }
    while quotient >= 0x20_0000_0000_0000
        invariant
            granule == pow2(bits),
            1 <= granule <= 0x200,
            quotient == value / granule,
            excess_bits(value as nat) == bits + excess_bits(quotient as nat),
            value < 0x2000_0000_0000_0000,
        decreases quotient,
    {
        proof {
            lemma_pow2_unfold(bits + 1);
            lemma_div_denominator(value as int, granule as int, 2);
            assert(granule <= 0x100) by (nonlinear_arith)
                requires
                    value as int / granule as int >= 0x20_0000_0000_0000,
                    value < 0x2000_0000_0000_0000,
                    granule >= 1,
            ;
            bits = bits + 1;
        }
        quotient = quotient / 2;
        granule = granule * 2;
    }
    assert(quotient * granule <= value) by (nonlinear_arith)
        requires
            quotient == value as int / granule as int,
            granule >= 1,
    ;
    let rest: u64 = value % granule;
    if 2 * rest < granule || (2 * rest == granule && quotient % 2 == 0) {
        quotient * granule
    } else {
        assert((quotient + 1) * granule == quotient * granule + granule) by (nonlinear_arith);
        (quotient + 1) * granule
    }
}

/// Computes the number of integration steps that one tick covers at `speed`.
pub fn steps_per_tick(speed: SpeedMultiplier) -> (steps: u64)
    ensures
        steps == steps_per_tick_at(speed),
{
    proof {
        use_type_invariant(speed);
        lemma2_to64();
        lemma2_to64_rest();
    }
    assert(UNIT_STEPS_PER_TICK == 200);
    let product: u64 = round_to_significand(UNIT_STEPS_PER_TICK * speed.mantissa);
    if speed.exponent >= 0 {
        let shift: u64 = speed.exponent as u64;
        if product == 0 {
            assert(0 * pow2(shift as nat) == 0) by (nonlinear_arith);
            0
        } else if shift >= 64 {
            proof {
                if shift > 64 {
                    lemma_pow2_strictly_increases(64, shift as nat);
                }
                assert(product * pow2(shift as nat) >= pow2(64)) by (nonlinear_arith)
                    requires
                        product >= 1,
                        pow2(shift as nat) >= pow2(64),
                ;
            }
            u64::MAX
        } else {
            proof {
                lemma_u64_mul_pow2_le_max_iff_max_shr(product, shift, u64::MAX);
            }
            if product > (u64::MAX >> shift) {
                u64::MAX
            } else {
                proof {
                    lemma_u64_shl_is_mul(product, shift);
                }
                product << shift
            }
        }
    } else {
        let shift: u64 = (-speed.exponent) as u64;
        if shift >= 64 {
            proof {
                if shift > 64 {
                    lemma_pow2_strictly_increases(64, shift as nat);
                }
                assert(product as nat / pow2(shift as nat) == 0) by (nonlinear_arith)
                    requires
                        product < pow2(64),
                        pow2(shift as nat) >= pow2(64),
                ;
            }
            0
        } else {
            proof {
                lemma_u64_shr_is_div(product, shift);
            }
            product >> shift
        }
    }
}

} // verus!
