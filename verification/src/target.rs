//! The share target that a pool difficulty stands for.
//!
//! The target of difficulty `d` is `0xffff * 2^208 / d`, computed the way Kaspa
//! miners compute it: `1 / d` is rounded to an `f32`, whose integer
//! mantissa `m` and exponent `e` (so that the reciprocal is `m * 2^e`) give
//! the target `m * 0xffff * 2^(208 + e)`; a negative `208 + e` gives zero.
//! The floating-point division is the caller's; this module starts from the
//! bit pattern of the rounded reciprocal.

use vstd::arithmetic::div_mod::*;
use vstd::arithmetic::mul::*;
use vstd::arithmetic::power2::*;
use vstd::bits::*;
use vstd::prelude::*;

use crate::uint256::{pow128, pow192, pow64, Uint256};

verus! {

/// Why a reciprocal has no target.
#[derive(Clone, Copy, Debug, PartialEq, Eq, Structural)]
pub enum TargetError {
    /// The reciprocal's sign bit is set.
    NegativeReciprocal,
    /// The target does not fit in 256 bits.
    TooBig,
}

/// The biased exponent field of an `f32` bit pattern.
pub open spec fn exponent_field(bits: u32) -> u32 {
    (bits >> 23u32) & 0xffu32
}

/// The integer mantissa of an `f32` bit pattern: the fraction with the
/// implicit leading one, or the subnormal fraction doubled.
pub open spec fn decoded_mantissa(bits: u32) -> u64 {
    if exponent_field(bits) == 0 {
        ((bits & 0x7fffffu32) << 1u32) as u64
    } else {
        ((bits & 0x7fffffu32) | 0x800000u32) as u64
    }
}

/// The exponent that goes with `decoded_mantissa`.
pub open spec fn decoded_exponent(bits: u32) -> int {
    exponent_field(bits) - 150
}

/// Whether the sign bit is set.
pub open spec fn sign_negative(bits: u32) -> bool {
    bits >> 31u32 != 0
}

/// The binary exponent of the target.
pub open spec fn target_exponent(bits: u32) -> int {
    208 + decoded_exponent(bits)
}

/// The target as a number, when its exponent is not negative.
pub open spec fn target_value(bits: u32) -> int {
    decoded_mantissa(bits) * 0xffff * pow2(target_exponent(bits) as nat)
}

/// 2^256.
pub open spec fn pow256() -> int {
    pow128() * pow128()
}

/// The target of a reciprocal given by its bits, as a number: zero for a
/// negative exponent, refused when negative or when it needs more than 256
/// bits.
pub open spec fn reciprocal_target(bits: u32) -> Result<int, TargetError> {
    if sign_negative(bits) {
        Err(TargetError::NegativeReciprocal)
    } else if target_exponent(bits) < 0 {
        Ok(0)
    } else if target_value(bits) < pow256() {
        Ok(target_value(bits))
    } else {
        Err(TargetError::TooBig)
    }
}

/// Splits an `f32` bit pattern into its integer mantissa, exponent and sign,
/// so that a finite value is `sign * mantissa * 2^exponent`.
pub fn integer_decode_f32_bits(bits: u32) -> (r: (u64, i16, i8))
    ensures
        r.0 == decoded_mantissa(bits),
        r.1 == decoded_exponent(bits),
        r.2 == if sign_negative(bits) {
            -1i8
        } else {
            1i8
        },
{
    let sign: i8 = if bits >> 31 == 0 {
        1
    } else {
        -1
    };
    let field: u32 = (bits >> 23) & 0xff;
    assert(field <= 255) by (bit_vector)
        requires
            field == (bits >> 23u32) & 0xffu32,
    ;
    let mut exponent: i16 = field as i16;
    let mantissa: u32 = if exponent == 0 {
        (bits & 0x7fffff) << 1
    } else {
        (bits & 0x7fffff) | 0x800000
    };
    exponent = exponent - (127 + 23);
    (mantissa as u64, exponent, sign)
}

/// Shifting left by `rem` and keeping the carry-out word loses nothing.
proof fn lemma_shift_split(nm: u64, rem: u64)
    requires
        0 < rem < 64,
    ensures
        (nm << rem) + (nm >> ((64 - rem) as u64)) * pow64() == nm * pow2(rem as nat),
{
    let k: u64 = (64 - rem) as u64;
    let mask: u64 = ((1u64 << k) - 1) as u64;
    assert(1u64 << k >= 1) by (bit_vector)
        requires
            k < 64,
    ;
    assert((nm << rem) == ((nm & (((1u64 << k) - 1) as u64)) << rem)) by (bit_vector)
        requires
            k == 64 - rem,
            0 < rem < 64,
    ;
    lemma_u64_pow2_no_overflow(k as nat);
    lemma_u64_shl_is_mul(1, k);
    assert(mask == low_bits_mask(k as nat));
    lemma_u64_low_bits_mask_is_mod(nm, k as nat);
    let lo = nm & mask;
    let hi = nm >> k;
    lemma_u64_shr_is_div(nm, k);
    lemma_pow2_pos(k as nat);
    lemma_fundamental_div_mod(nm as int, pow2(k as nat) as int);
    lemma_mod_bound(nm as int, pow2(k as nat) as int);
    lemma_pow2_adds(k as nat, rem as nat);
    lemma2_to64_rest();
    assert(pow2(64) == pow64());
    assert(lo * pow2(rem as nat) < pow64()) by {
        lemma_mul_strict_inequality(lo as int, pow2(k as nat) as int, pow2(rem as nat) as int);
        lemma_pow2_pos(rem as nat);
    }
    lemma_u64_shl_is_mul(lo, rem);
    assert(nm * pow2(rem as nat) == hi * pow64() + lo * pow2(rem as nat)) by {
        lemma_mul_is_distributive_add_other_way(
            pow2(rem as nat) as int,
            hi * pow2(k as nat),
            lo as int,
        );
        lemma_mul_is_associative(hi as int, pow2(k as nat) as int, pow2(rem as nat) as int);
    }
}

/// The words of a shifted mantissa denote the mantissa times the power of two.
proof fn lemma_words_value(nm: u64, start: int, rem: u64, buf: Seq<u64>)
    requires
        0 <= start < 4,
        rem < 64,
        buf.len() == 4,
        forall|i: int| 0 <= i < 4 && i != start && i != start + 1 ==> buf[i] == 0,
        buf[start] == nm << rem,
        start + 1 < 4 ==> buf[start + 1] == if rem == 0 {
            0
        } else {
            nm >> ((64 - rem) as u64)
        },
        start + 1 == 4 && rem != 0 ==> nm >> ((64 - rem) as u64) == 0,
    ensures
        buf[0] + buf[1] * pow64() + buf[2] * pow128() + buf[3] * pow192() == nm * pow2(
            (64 * start + rem) as nat,
        ),
{
    lemma2_to64();
    lemma2_to64_rest();
    lemma_pow2_adds(64, 64);
    lemma_pow2_adds(128, 64);
    assert(pow2(64) == pow64());
    assert(pow2(128) == pow128());
    assert(pow2(192) == pow192());
    let p = pow2((64 * start) as nat);
    let sum = nm * pow2(rem as nat);
    if rem == 0 {
        assert(nm << 0u64 == nm) by (bit_vector);
        lemma2_to64();
        assert(pow2(rem as nat) == 1);
        lemma_mul_basics(nm as int);
        assert(sum == nm);
    } else {
        lemma_shift_split(nm, rem);
    }
    let lo: int = (nm << rem) as int;
    let hi: int = if rem == 0 {
        0
    } else {
        (nm >> ((64 - rem) as u64)) as int
    };
    assert(lo + hi * pow64() == sum);
    lemma_pow2_adds((64 * start) as nat, rem as nat);
    assert(nm * pow2((64 * start + rem) as nat) == sum * p) by {
        lemma_mul_is_associative(nm as int, pow2(rem as nat) as int, p as int);
    }
    assert(sum * p == lo * p + hi * (pow64() * p)) by {
        lemma_mul_is_distributive_add_other_way(p as int, lo, hi * pow64());
        lemma_mul_is_associative(hi, pow64(), p as int);
    }
    if start == 0 {
        assert(p == 1);
    } else if start == 1 {
        assert(p == pow64());
        assert(pow64() * p == pow128());
    } else if start == 2 {
        assert(p == pow128());
        assert(pow64() * p == pow192());
    } else {
        assert(p == pow192());
        assert(hi == 0);
    }
}

/// For non-negative reciprocals the order of the bit patterns is the order
/// of the values, and the target follows it: a smaller reciprocal (a higher
/// difficulty) never has a larger target, and every target exponent is
/// non-negative.
pub proof fn law_target_grows_with_reciprocal(a: u32, b: u32)
    requires
        !sign_negative(a),
        !sign_negative(b),
        a <= b,
    ensures
        target_exponent(a) >= 0,
        target_exponent(b) >= 0,
        target_value(a) <= target_value(b),
{
    let fa = exponent_field(a);
    let fb = exponent_field(b);
    let ma = decoded_mantissa(a);
    let mb = decoded_mantissa(b);
    assert(fa <= fb) by (bit_vector)
        requires
            a <= b,
            b >> 31u32 == 0,
            fa == (a >> 23u32) & 0xffu32,
            fb == (b >> 23u32) & 0xffu32,
    ;
    assert(fa == fb ==> (a & 0x7fffffu32) <= (b & 0x7fffffu32)) by (bit_vector)
        requires
            a <= b,
            b >> 31u32 == 0,
            fa == (a >> 23u32) & 0xffu32,
            fb == (b >> 23u32) & 0xffu32,
    ;
    assert(ma < 0x1000000 && (fb != 0 ==> mb >= 0x800000)) by (bit_vector)
        requires
            fa == (a >> 23u32) & 0xffu32,
            fb == (b >> 23u32) & 0xffu32,
            ma == if fa == 0 {
                ((a & 0x7fffffu32) << 1u32) as u64
            } else {
                ((a & 0x7fffffu32) | 0x800000u32) as u64
            },
            mb == if fb == 0 {
                ((b & 0x7fffffu32) << 1u32) as u64
            } else {
                ((b & 0x7fffffu32) | 0x800000u32) as u64
            },
    ;
    if fa == fb {
        assert(ma <= mb) by (bit_vector)
            requires
                fa == fb,
                (a & 0x7fffffu32) <= (b & 0x7fffffu32),
                ma == if fa == 0 {
                    ((a & 0x7fffffu32) << 1u32) as u64
                } else {
                    ((a & 0x7fffffu32) | 0x800000u32) as u64
                },
                mb == if fb == 0 {
                    ((b & 0x7fffffu32) << 1u32) as u64
                } else {
                    ((b & 0x7fffffu32) | 0x800000u32) as u64
                },
        ;
    }
    let ea = target_exponent(a) as nat;
    let eb = target_exponent(b) as nat;
    lemma_pow2_pos(ea);
    if fa == fb {
        lemma_mul_inequality(ma as int, mb as int, 0xffff);
        lemma_mul_inequality(ma * 0xffff, mb * 0xffff, pow2(ea) as int);
    } else {
        let d = (eb - ea) as nat;
        lemma_pow2_adds(ea, d);
        lemma_pow2_pos(d);
        assert(pow2(d) >= 2) by {
            lemma_pow2_strictly_increases(0, d);
            lemma2_to64();
        }
        // ma * pow2(ea) < 2^24 * pow2(ea) <= mb * 2 * pow2(ea) <= mb * pow2(eb)
        assert(ma * pow2(ea) <= mb * pow2(eb)) by {
            lemma_mul_inequality(ma as int, 0x1000000, pow2(ea) as int);
            lemma_mul_inequality(0x1000000, mb * 2, pow2(ea) as int);
            lemma_mul_inequality(2, pow2(d) as int, mb as int);
            lemma_mul_is_associative(mb as int, 2, pow2(ea) as int);
            lemma_mul_is_associative(mb as int, pow2(d) as int, pow2(ea) as int);
            lemma_mul_is_commutative(pow2(d) as int, pow2(ea) as int);
            lemma_mul_is_commutative(2, mb as int);
            lemma_mul_is_commutative(pow2(d) as int, mb as int);
            lemma_mul_inequality(mb * 2, mb * pow2(d), pow2(ea) as int);
        }
        lemma_mul_inequality(ma * pow2(ea), mb * pow2(eb), 0xffff);
        lemma_mul_is_associative(ma as int, 0xffff, pow2(ea) as int);
        lemma_mul_is_associative(mb as int, 0xffff, pow2(eb) as int);
        lemma_mul_is_associative(ma as int, pow2(ea) as int, 0xffff);
        lemma_mul_is_associative(mb as int, pow2(eb) as int, 0xffff);
        lemma_mul_is_commutative(pow2(ea) as int, 0xffff);
        lemma_mul_is_commutative(pow2(eb) as int, 0xffff);
    }
}

/// The target of the `f32` reciprocal of a difficulty, given by its bits.
pub fn target_from_reciprocal_bits(bits: u32) -> (r: Result<Uint256, TargetError>)
    ensures
        match reciprocal_target(bits) {
            Ok(v) => r matches Ok(t) && t.value() == v,
            Err(e) => r == Err::<Uint256, TargetError>(e),
        },
{
    let (mantissa, exponent, sign) = integer_decode_f32_bits(bits);
    if sign < 0 {
        return Err(TargetError::NegativeReciprocal);
    }
    assert(mantissa < 0x1000000) by (bit_vector)
        requires
            mantissa == if (bits >> 23u32) & 0xffu32 == 0 {
                ((bits & 0x7fffffu32) << 1u32) as u64
            } else {
                ((bits & 0x7fffffu32) | 0x800000u32) as u64
            },
    ;
    let new_mantissa: u64 = mantissa * 0xffff;
    let new_exponent: i32 = 208i32 + exponent as i32;
    if new_exponent < 0 {
        return Ok(Uint256::zero());
    }
    let start: usize = (new_exponent as usize) / 64;
    let remainder: usize = (new_exponent as usize) % 64;
    let ghost ne = new_exponent as int;
    assert(ne == 64 * start + remainder);
    if start >= 4 {
        proof {
            assert(exponent_field(bits) != 0);
            assert(mantissa >= 0x800000) by (bit_vector)
                requires
                    (bits >> 23u32) & 0xffu32 != 0,
                    mantissa == ((bits & 0x7fffffu32) | 0x800000u32) as u64,
            ;
            lemma_pow2_adds(256, (ne - 256) as nat);
            lemma_pow2_pos((ne - 256) as nat);
            lemma_pow2_adds(128, 128);
            lemma_pow2_adds(64, 64);
            lemma2_to64_rest();
            assert(pow2(256) == pow256());
            assert(pow2(ne as nat) == pow256() * pow2((ne - 256) as nat));
            lemma_mul_increases(pow2((ne - 256) as nat) as int, pow256());
            lemma_mul_is_commutative(pow2((ne - 256) as nat) as int, pow256());
            assert(pow2(ne as nat) >= pow256());
            assert(new_mantissa >= 1);
            assert(new_mantissa * pow2(ne as nat) >= pow256()) by {
                lemma_mul_inequality(1, new_mantissa as int, pow2(ne as nat) as int);
            }
        }
        return Err(TargetError::TooBig);
    }
    let rem: u64 = remainder as u64;
    let mut buf = [0u64; 4];
    buf[start] = new_mantissa << rem;
    if remainder != 0 {
        let carry = new_mantissa >> (64 - rem);
        if start + 1 < 4 {
            buf[start + 1] = carry;
        } else if carry != 0 {
            proof {
                lemma_shift_split(new_mantissa, rem);
                lemma_pow2_adds(192, rem as nat);
                lemma_pow2_adds(64, 64);
                lemma_pow2_adds(128, 64);
                lemma_pow2_adds(128, 128);
                lemma2_to64_rest();
                assert(pow2(192) == pow192());
                assert(pow2(256) == pow256());
                assert(new_mantissa * pow2(rem as nat) >= pow64());
                assert(pow2(ne as nat) == pow2(rem as nat) * pow192()) by {
                    lemma_mul_is_commutative(pow2(rem as nat) as int, pow192());
                }
                assert(new_mantissa * pow2(ne as nat) == (new_mantissa * pow2(rem as nat))
                    * pow192()) by {
                    lemma_mul_is_associative(
                        new_mantissa as int,
                        pow2(rem as nat) as int,
                        pow192(),
                    );
                }
                lemma_mul_inequality(pow64(), new_mantissa * pow2(rem as nat), pow192());
            }
            return Err(TargetError::TooBig);
        }
    }
    proof {
        lemma_words_value(new_mantissa, start as int, rem, buf@);
    }
    let t = Uint256(buf);
    proof {
        if start == 3 {
            lemma2_to64_rest();
            lemma_pow2_adds(64, 64);
            lemma_pow2_adds(128, 64);
            lemma_pow2_adds(192, rem as nat);
            lemma_pow2_adds(128, 128);
            assert(pow2(192) == pow192());
            assert(pow2(256) == pow256());
            if rem == 0 {
                lemma2_to64();
                assert(pow2(rem as nat) == 1);
                lemma_mul_basics(new_mantissa as int);
            } else {
                assert(new_mantissa >> ((64 - rem) as u64) == 0);
                lemma_shift_split(new_mantissa, rem);
            }
            assert(new_mantissa * pow2(rem as nat) < pow64());
            assert(pow2(ne as nat) == pow2(rem as nat) * pow192()) by {
                lemma_mul_is_commutative(pow2(rem as nat) as int, pow192());
            }
            assert(new_mantissa * pow2(ne as nat) == (new_mantissa * pow2(rem as nat))
                * pow192()) by {
                lemma_mul_is_associative(new_mantissa as int, pow2(rem as nat) as int, pow192());
            }
            lemma_mul_strict_inequality(new_mantissa * pow2(rem as nat), pow64(), pow192());
        } else {
            assert(t.value() < pow256()) by {
                lemma_mul_upper_bound(buf[1] as int, pow64() - 1, pow64(), pow64());
            }
        }
    }
    Ok(t)
}

} // verus!
