//! Reading the bit pattern of a binary floating-point sample as an integer,
//! the way a saturating cast does: rounded toward zero, held in `i32`'s range,
//! NaN giving 0. The arithmetic here is on integers only.
use super::clamp::{clamp_int, ClampFrom};
use vstd::arithmetic::power2::{lemma2_to64, lemma2_to64_rest, lemma_pow2_pos, lemma_pow2_unfold, pow2};
use vstd::prelude::*;

verus! {

/// `mant * 2^e` rounded toward zero, for a nonnegative `mant`.
pub open spec fn scaled_toward_zero(mant: nat, e: int) -> nat {
    if e >= 0 {
        mant * pow2(e as nat)
    } else {
        mant / pow2((-e) as nat)
    }
}

/// The `i32` that a floating-point sample with `exp_bits` exponent bits and
/// `frac_bits` fraction bits gives when it is rounded toward zero and
/// saturated; NaN gives 0, the infinities give the bounds.
pub open spec fn float_bits_to_i32(bits: nat, exp_bits: nat, frac_bits: nat) -> int {
    let frac = bits % pow2(frac_bits);
    let exp = (bits / pow2(frac_bits)) % pow2(exp_bits);
    let negative = bits >= pow2(exp_bits + frac_bits);
    let bias = pow2((exp_bits - 1) as nat) - 1;
    if exp == pow2(exp_bits) - 1 {
        if frac != 0 {
            0
        } else if negative {
            i32::MIN as int
        } else {
            i32::MAX as int
        }
    } else if exp == 0 {
        0
    } else {
        let mag = scaled_toward_zero(frac + pow2(frac_bits), exp - bias - frac_bits);
        clamp_int(if negative { -mag } else { mag as int }, i32::MIN as int, i32::MAX as int)
    }
}

/// A sample and the one with its sign bit set give opposite integers, but
/// for saturation: the negative one reaches `i32::MIN` only where the positive
/// one is held at `i32::MAX`.
pub proof fn law_float_sign_symmetry(bits: nat, exp_bits: nat, frac_bits: nat)
    requires
        exp_bits >= 1,
        bits < pow2(exp_bits + frac_bits),
    ensures
        ({
            let a = float_bits_to_i32(bits, exp_bits, frac_bits);
            let b = float_bits_to_i32(bits + pow2(exp_bits + frac_bits), exp_bits, frac_bits);
            &&& a < i32::MAX ==> b == -a
            &&& b == i32::MIN ==> a == i32::MAX
        }),
{
    let f = pow2(frac_bits);
    let e = pow2(exp_bits);
    let top = pow2(exp_bits + frac_bits);
    let nb = bits + top;
    lemma_pow2_pos(frac_bits);
    lemma_pow2_pos(exp_bits);
    vstd::arithmetic::power2::lemma_pow2_adds(exp_bits, frac_bits);
    assert(top == e * f);
    vstd::arithmetic::div_mod::lemma_mod_multiples_vanish(e as int, bits as int, f as int);
    assert(nb % f == bits % f) by {
        assert(nb == e * f + bits);
    }
    vstd::arithmetic::div_mod::lemma_hoist_over_denominator(bits as int, e as int, f);
    assert(nb / f == bits / f + e);
    vstd::arithmetic::div_mod::lemma_mod_multiples_vanish(1, (bits / f) as int, e as int);
    assert((nb / f) % e == (bits / f) % e);
    assert(nb >= top);
}

pub(crate) fn pow2_u128(k: u32) -> (r: u128)
    requires
        k < 127,
    ensures
        r == pow2(k as nat),
{
    let mut r: u128 = 1;
    let mut i: u32 = 0;
    proof {
        lemma2_to64();
    }
    while i < k
        invariant
            i <= k < 127,
            r == pow2(i as nat),
        decreases k - i,
    {
        proof {
            lemma_pow2_unfold((i + 1) as nat);
            vstd::arithmetic::power2::lemma_pow2_strictly_increases((i + 1) as nat, 127);
            lemma_pow2_u128_bound();
        }
        r = r * 2;
        i = i + 1;
    }
    r
}

proof fn lemma_pow2_u128_bound()
    ensures
        pow2(127) <= u128::MAX,
{
    vstd::arithmetic::power2::lemma_pow2_adds(64, 63);
    lemma2_to64();
    lemma2_to64_rest();
    assert(pow2(63) == 0x8000000000000000);
    assert(pow2(127) == 0x10000000000000000 * 0x8000000000000000);
}

/// `mant * 2^e` rounded toward zero, with the sign, saturated into `i32`.
fn toward_zero_i32(negative: bool, mant: u64, e: i32) -> (r: i32)
    requires
        1 <= mant < 0x20_0000_0000_0000,
        -2000 < e < 2000,
    ensures
        r as int == clamp_int(
            if negative {
                -scaled_toward_zero(mant as nat, e as int)
            } else {
                scaled_toward_zero(mant as nat, e as int) as int
            },
            i32::MIN as int,
            i32::MAX as int,
        ),
{
    proof {
        lemma2_to64();
        lemma2_to64_rest();
    }
    if e >= 40 {
        proof {
            if e > 40 {
                vstd::arithmetic::power2::lemma_pow2_strictly_increases(40, e as nat);
            }
            assert(mant as nat * pow2(e as nat) >= pow2(e as nat)) by (nonlinear_arith)
                requires
                    mant >= 1,
            ;
        }
        if negative {
            i32::MIN
        } else {
            i32::MAX
        }
    } else if e >= 0 {
        let f = pow2_u128(e as u32);
        proof {
            if e < 40 {
                vstd::arithmetic::power2::lemma_pow2_strictly_increases(e as nat, 40);
            }
            assert(mant as nat * pow2(e as nat) < 0x20_0000_0000_0000 * 0x100_0000_0000) by (nonlinear_arith)
                requires
                    mant < 0x20_0000_0000_0000,
                    pow2(e as nat) <= 0x100_0000_0000,
            ;
        }
        let mag = (mant as u128) * f;
        let signed: i128 = if negative {
            -(mag as i128)
        } else {
            mag as i128
        };
        i32::clamp_from(signed)
    } else if e <= -64 {
        proof {
            if e < -64 {
                vstd::arithmetic::power2::lemma_pow2_strictly_increases(64, (-e) as nat);
            }
            vstd::arithmetic::div_mod::lemma_basic_div(mant as int, pow2((-e) as nat) as int);
        }
        0
    } else {
        let d = pow2_u128((-e) as u32);
        proof {
            lemma_pow2_pos((-e) as nat);
        }
        let mag = (mant as u128) / d;
        proof {
            vstd::arithmetic::div_mod::lemma_div_is_ordered_by_denominator(mant as int, 1, d as int);
            assert(mag <= mant);
        }
        let signed: i128 = if negative {
            -(mag as i128)
        } else {
            mag as i128
        };
        i32::clamp_from(signed)
    }
}

/// A 32-bit float sample, given by its bits, as a saturated `i32`.
pub fn f32_bits_to_i32(bits: u32) -> (r: i32)
    ensures
        r as int == float_bits_to_i32(bits as nat, 8, 23),
{
    proof {
        lemma2_to64();
    }
    let frac = bits % 0x80_0000;
    let exp = (bits / 0x80_0000) % 0x100;
    let negative = bits >= 0x8000_0000;
    if exp == 0xff {
        if frac != 0 {
            0
        } else if negative {
            i32::MIN
        } else {
            i32::MAX
        }
    } else if exp == 0 {
        0
    } else {
        toward_zero_i32(negative, (frac + 0x80_0000) as u64, exp as i32 - 150)
    }
}

/// A 64-bit float sample, given by its bits, as a saturated `i32`.
pub fn f64_bits_to_i32(bits: u64) -> (r: i32)
    ensures
        r as int == float_bits_to_i32(bits as nat, 11, 52),
{
    proof {
        lemma2_to64();
        lemma2_to64_rest();
    }
    let frac = bits % 0x10_0000_0000_0000;
    let exp = (bits / 0x10_0000_0000_0000) % 0x800;
    let negative = bits >= 0x8000_0000_0000_0000;
    if exp == 0x7ff {
        if frac != 0 {
            0
        } else if negative {
            i32::MIN
        } else {
            i32::MAX
        }
    } else if exp == 0 {
        0
    } else {
        toward_zero_i32(negative, frac + 0x10_0000_0000_0000, exp as i32 - 1075)
    }
}

} // verus!
