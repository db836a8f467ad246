//! What holds of the arithmetic of the instructions: which bits of a shift
//! amount count, how a word is extended, and what division gives.

use vstd::prelude::*;
use crate::semantics::{
    div_signed, div_unsigned, is_negative, magnitude, rem_signed, rem_unsigned, with_sign,
    word,
};

verus! {

/// The number that a register value stands for as a signed 64-bit number.
pub open spec fn signed(v: u64) -> int {
    if is_negative(v) {
        v - 0x1_0000_0000_0000_0000
    } else {
        v as int
    }
}

/// The absolute value of a number.
pub open spec fn abs(v: int) -> int {
    if v < 0 {
        -v
    } else {
        v
    }
}

/// A shift of a doubleword uses the low six bits of the amount, a shift of a
/// word the low five.
pub proof fn law_shift_uses_low_bits(value: u64, amount: u64)
    ensures
        value.wrapping_shl(amount as u32) == value << (amount & 0x3f),
        value.wrapping_shr(amount as u32) == value >> (amount & 0x3f),
        (value as i64).wrapping_shr(amount as u32) == (value as i64) >> (amount & 0x3f),
        (value as u32).wrapping_shl(amount as u32) == (value as u32) << (amount & 0x1f),
        (value as u32).wrapping_shr(amount as u32) == (value as u32) >> (amount & 0x1f),
{
    assert(((amount as u32) % 64u32) as u64 == amount & 0x3f && ((amount as u32) % 32u32) as u64
        == amount & 0x1f) by (bit_vector);
}

/// The result of a word operation is its low 32 bits, with bit 31 repeated
/// in the upper half.
pub proof fn law_word_sign_extends(v: u64)
    ensures
        word(v) & 0xFFFF_FFFF == v & 0xFFFF_FFFF,
        word(v) >> 32 == if v & 0x8000_0000 != 0 {
            0xFFFF_FFFFu64
        } else {
            0u64
        },
{
    assert((((v as u32) as i32) as i64) as u64 & 0xFFFF_FFFF == v & 0xFFFF_FFFF && ((((v as u32)
        as i32) as i64) as u64) >> 32 == if v & 0x8000_0000 != 0 {
        0xFFFF_FFFFu64
    } else {
        0u64
    }) by (bit_vector);
}

/// The magnitude of a register value is the absolute value of the number
/// that it stands for.
pub proof fn lemma_magnitude_is_abs(v: u64)
    ensures
        magnitude(v) == abs(signed(v)),
{
}

/// A magnitude of at most `2^63` with a sign stands for the number with
/// that sign; `2^63` itself only with the negative sign.
pub proof fn lemma_with_sign(m: u64, negative: bool)
    requires
        m <= 0x8000_0000_0000_0000,
        !negative ==> m < 0x8000_0000_0000_0000,
    ensures
        signed(with_sign(m, negative)) == if negative {
            -(m as int)
        } else {
            m as int
        },
{
}

/// Division by zero is no fault: the quotient is all ones and the remainder
/// is the dividend.
pub proof fn law_division_by_zero(a: u64)
    ensures
        div_signed(a, 0) == u64::MAX,
        div_unsigned(a, 0) == u64::MAX,
        rem_signed(a, 0) == a,
        rem_unsigned(a, 0) == a,
{
}

/// The lowest number divided by -1 gives the lowest number, and the
/// remainder zero.
pub proof fn law_division_overflow()
    ensures
        div_signed(0x8000_0000_0000_0000, u64::MAX) == 0x8000_0000_0000_0000,
        rem_signed(0x8000_0000_0000_0000, u64::MAX) == 0,
{
    assert(magnitude(0x8000_0000_0000_0000) == 0x8000_0000_0000_0000);
    assert(magnitude(u64::MAX) == 1);
}

/// Signed division rounds towards zero: quotient and remainder make up the
/// dividend, the remainder is smaller than the divisor and has the sign of
/// the dividend. This holds of every division but the two that the other
/// laws are about.
pub proof fn law_division_rounds_towards_zero(a: u64, b: u64)
    requires
        b != 0,
        !(a == 0x8000_0000_0000_0000 && b == u64::MAX),
    ensures
        signed(a) == signed(div_signed(a, b)) * signed(b) + signed(rem_signed(a, b)),
        abs(signed(rem_signed(a, b))) < abs(signed(b)),
        signed(rem_signed(a, b)) != 0 ==> (signed(rem_signed(a, b)) < 0 <==> signed(a) < 0),
{
    let ma = magnitude(a);
    let mb = magnitude(b);
    let q = (ma / mb) as u64;
    let r = (ma % mb) as u64;
    lemma_magnitude_is_abs(a);
    lemma_magnitude_is_abs(b);
    assert(mb > 0);
    vstd::arithmetic::div_mod::lemma_fundamental_div_mod(ma as int, mb as int);
    vstd::arithmetic::div_mod::lemma_mod_bound(ma as int, mb as int);
    assert(ma == mb * q + r);
    assert(q <= ma) by (nonlinear_arith)
        requires
            ma == mb * q + r,
            mb >= 1,
            r >= 0,
            q >= 0,
    ;
    assert(mb == 1 ==> q == ma) by (nonlinear_arith)
        requires
            ma == mb * q + r,
            r < mb,
            r >= 0,
    ;
    let negative = is_negative(a) != is_negative(b);
    if !negative && q == 0x8000_0000_0000_0000 {
        // only the lowest number has this magnitude, and only a divisor of
        // magnitude 1 leaves it
        assert(ma == 0x8000_0000_0000_0000);
        assert(mb * q <= ma);
        assert(mb == 1) by (nonlinear_arith)
            requires
                mb * q <= ma,
                q == ma,
                ma > 0,
                mb >= 1,
        ;
        assert(false);
    }
    lemma_with_sign(q, negative);
    lemma_with_sign(r, is_negative(a));
    let sq = signed(div_signed(a, b));
    let sr = signed(rem_signed(a, b));
    let sa = signed(a);
    let sb = signed(b);
    assert(sa == sq * sb + sr) by (nonlinear_arith)
        requires
            ma == mb * q + r,
            sa == if is_negative(a) {
                -(ma as int)
            } else {
                ma as int
            },
            sb == if is_negative(b) {
                -(mb as int)
            } else {
                mb as int
            },
            sq == if is_negative(a) != is_negative(b) {
                -(q as int)
            } else {
                q as int
            },
            sr == if is_negative(a) {
                -(r as int)
            } else {
                r as int
            },
    ;
}

/// Unsigned division: quotient and remainder make up the dividend, and the
/// remainder is smaller than the divisor.
pub proof fn law_unsigned_division(a: u64, b: u64)
    requires
        b != 0,
    ensures
        a == div_unsigned(a, b) * b + rem_unsigned(a, b),
        rem_unsigned(a, b) < b,
{
    vstd::arithmetic::div_mod::lemma_fundamental_div_mod(a as int, b as int);
    vstd::arithmetic::div_mod::lemma_mod_bound(a as int, b as int);
    assert(b * (a / b) == (a / b) * b) by (nonlinear_arith);
}

} // verus!
