//! Numbers by their bit patterns.
//!
//! The tracer computes with binary64 numbers; this crate never does. A
//! number passes through it as its IEEE-754 bit pattern, a 64-bit word,
//! and is only compared, picked or cut down to a whole number here.
//!
//! Distances and probabilities are magnitudes: numbers from zero upwards.
//! The bit pattern of a magnitude is its order key, because among such
//! patterns the unsigned order is the order of the numbers. For numbers
//! of either sign the order is that of their ranks. This module says
//! which number a pattern stands for, and proves both orders.

use vstd::arithmetic::div_mod::{lemma_fundamental_div_mod, lemma_mod_bound};
use vstd::arithmetic::power2::{
    lemma2_to64,
    lemma2_to64_rest,
    lemma_pow2_adds,
    lemma_pow2_pos,
    lemma_pow2_strictly_increases,
    lemma_pow2_unfold,
    pow2,
};
use vstd::bits::{
    lemma_u64_mul_pow2_le_max_iff_max_shr,
    lemma_u64_pow2_no_overflow,
    lemma_u64_shl_is_mul,
};
use vstd::prelude::*;
use vstd::std_specs::bits::axiom_u32_leading_zeros;

verus! {

/// The key of zero.
pub const ZERO: u64 = 0;

/// The key of one.
pub const ONE: u64 = 0x3ff0_0000_0000_0000;

/// The key of the largest finite magnitude.
pub const LARGEST: u64 = 0x7fef_ffff_ffff_ffff;

/// The key of infinity: the magnitude beyond every finite one.
pub const INFINITE: u64 = 0x7ff0_0000_0000_0000;

/// The bit pattern of negative zero.
pub const NEGATIVE_ZERO: u64 = 0x8000_0000_0000_0000;

/// Half of the range of bit patterns: the weight of the sign bit.
pub const SIGN: u64 = 0x8000_0000_0000_0000;

/// The bit pattern that stands for "not a number" where one is made up.
pub const NOT_A_NUMBER: u64 = 0x7ff8_0000_0000_0000;

/// Two to the power 52: the weight of the first exponent bit in a key, and
/// the leading bit that the fraction of a normal number leaves unwritten.
pub const HIDDEN: u64 = 0x10_0000_0000_0000;

/// The exponent field of a key.
pub open spec fn exponent(k: u64) -> nat {
    (k / HIDDEN) as nat
}

/// The fraction field of a key.
pub open spec fn fraction(k: u64) -> nat {
    (k % HIDDEN) as nat
}

/// The magnitude that a key stands for, as a multiple of 2^-1074: the
/// magnitude itself is this number divided by 2^1074. For the key of
/// infinity, and for a word beyond it, this is the number that the
/// same rule gives, which is beyond every finite magnitude.
pub open spec fn magnitude(k: u64) -> nat {
    if exponent(k) == 0 {
        fraction(k)
    } else {
        (HIDDEN as nat + fraction(k)) * pow2((exponent(k) - 1) as nat)
    }
}

/// Whether a binary64 bit pattern is not a number.
pub open spec fn not_a_number(bits: u64) -> bool {
    bits % SIGN > INFINITE
}

/// The place of a number among all numbers, by its bit pattern: the
/// pattern itself for a number from zero upwards, and the pattern without
/// its sign bit, negated, for a number below zero. Zero has rank zero
/// whatever its sign.
pub open spec fn rank(bits: u64) -> int {
    if bits >= SIGN {
        -(bits - SIGN)
    } else {
        bits as int
    }
}

/// The number, as a multiple of 2^-1074, that a bit pattern stands for.
pub open spec fn signed_magnitude(bits: u64) -> int {
    if bits >= SIGN {
        -(magnitude((bits - SIGN) as u64) as int)
    } else {
        magnitude(bits) as int
    }
}

/// The greatest whole number that is not above the number with the bit
/// pattern `bits`.
pub open spec fn whole_part(bits: u64) -> int {
    signed_magnitude(bits) / (pow2(1074) as int)
}

/// The whole part of a number as a 64-bit integer: the least or the
/// greatest such integer where the whole part is beyond them, and zero
/// for what is not a number.
pub open spec fn floor_of(bits: u64) -> i64 {
    if not_a_number(bits) {
        0
    } else if whole_part(bits) > i64::MAX {
        i64::MAX
    } else if whole_part(bits) < i64::MIN {
        i64::MIN
    } else {
        whole_part(bits) as i64
    }
}

/// Whether the first number is less than the second. What is not a number
/// is neither less than anything nor is anything less than it.
pub open spec fn below(a: u64, b: u64) -> bool {
    !not_a_number(a) && !not_a_number(b) && rank(a) < rank(b)
}

/// Whether the first number is at least the second. What is not a number
/// is not at least anything, nor is anything at least it.
pub open spec fn at_least(a: u64, b: u64) -> bool {
    !not_a_number(a) && !not_a_number(b) && rank(a) >= rank(b)
}

/// Decides whether a bit pattern is not a number.
pub fn is_nan(bits: u64) -> (r: bool)
    ensures
        r == not_a_number(bits),
{
    bits % SIGN > INFINITE
}

/// Decides whether the number with the bit pattern `a` is less than the
/// number with the bit pattern `b`.
pub fn less(a: u64, b: u64) -> (r: bool)
    ensures
        r == below(a, b),
{
    if is_nan(a) || is_nan(b) {
        return false;
    }
    if a >= SIGN {
        if b >= SIGN {
            b < a
        } else {
            a > SIGN || b > 0
        }
    } else {
        if b >= SIGN {
            false
        } else {
            a < b
        }
    }
}

/// Decides whether the number with the bit pattern `a` is at least the
/// number with the bit pattern `b`.
pub fn not_less(a: u64, b: u64) -> (r: bool)
    ensures
        r == at_least(a, b),
{
    if is_nan(a) || is_nan(b) {
        return false;
    }
    !less(a, b)
}

/// The key of the number whose binary64 bit pattern is `bits`, if the
/// number is a magnitude: zero of either sign, a positive number or
/// infinity. A negative number and a pattern that is not a number have no
/// key.
pub open spec fn key_of(bits: u64) -> Option<u64> {
    if bits <= INFINITE {
        Some(bits)
    } else if bits == NEGATIVE_ZERO {
        Some(ZERO)
    } else {
        None
    }
}

/// Reads a binary64 bit pattern as an order key.
pub fn from_bits(bits: u64) -> (k: Option<u64>)
    ensures
        k == key_of(bits),
{
    if bits <= INFINITE {
        Some(bits)
    } else if bits == NEGATIVE_ZERO {
        Some(ZERO)
    } else {
        None
    }
}

/// Decides whether the number with the binary64 bit pattern `bits` is
/// zero, of either sign. Nothing else counts as zero, however small.
pub fn is_zero(bits: u64) -> (z: bool)
    ensures
        z == (key_of(bits) == Some(ZERO)),
{
    bits == ZERO || bits == NEGATIVE_ZERO
}

proof fn lemma_order_strict(a: u64, b: u64)
    requires
        a < b,
    ensures
        magnitude(a) < magnitude(b),
{
    let h = HIDDEN as nat;
    let ea = exponent(a);
    let eb = exponent(b);
    let ma = fraction(a);
    let mb = fraction(b);
    assert(ea <= eb);
    if ea == eb {
        assert(ma < mb);
        if ea != 0 {
            let p = pow2((ea - 1) as nat);
            lemma_pow2_pos((ea - 1) as nat);
            assert((h + ma) * p < (h + mb) * p) by (nonlinear_arith)
                requires
                    ma < mb,
                    p > 0,
            ;
        }
    } else {
        let pb = pow2((eb - 1) as nat);
        lemma_pow2_pos((eb - 1) as nat);
        assert(h * pb <= (h + mb) * pb && h <= h * pb) by (nonlinear_arith)
            requires
                pb > 0,
        ;
        if ea != 0 {
            let pa = pow2((ea - 1) as nat);
            lemma_pow2_pos((ea - 1) as nat);
            lemma_pow2_unfold(ea);
            if ea < eb - 1 {
                lemma_pow2_strictly_increases(ea, (eb - 1) as nat);
            }
            assert(2 * pa <= pb);
            assert((h + ma) * pa < h * pb) by (nonlinear_arith)
                requires
                    ma < h,
                    2 * pa <= pb,
                    pa > 0,
            ;
        }
    }
}

/// The order of the keys is the order of the magnitudes.
pub proof fn lemma_order(a: u64, b: u64)
    ensures
        a < b <==> magnitude(a) < magnitude(b),
        a == b <==> magnitude(a) == magnitude(b),
{
    if a < b {
        lemma_order_strict(a, b);
    }
    if b < a {
        lemma_order_strict(b, a);
    }
}

/// The order of the ranks is the order of the numbers, below zero as
/// above it.
pub proof fn lemma_rank_order(a: u64, b: u64)
    ensures
        rank(a) < rank(b) <==> signed_magnitude(a) < signed_magnitude(b),
        rank(a) == rank(b) <==> signed_magnitude(a) == signed_magnitude(b),
{
    let ma: u64 = if a >= SIGN {
        (a - SIGN) as u64
    } else {
        a
    };
    let mb: u64 = if b >= SIGN {
        (b - SIGN) as u64
    } else {
        b
    };
    lemma_order(ma, mb);
    lemma_order(ma, ZERO);
    lemma_order(mb, ZERO);
    assert(magnitude(ZERO) == 0);
}

/// The whole part of a number is the one whole number that is not above
/// it and less than one below it.
pub proof fn lemma_whole_part(bits: u64)
    ensures
        whole_part(bits) * pow2(1074) <= signed_magnitude(bits) < (whole_part(bits) + 1) * pow2(
            1074,
        ),
{
    let p = pow2(1074) as int;
    let x = signed_magnitude(bits);
    lemma_pow2_pos(1074);
    lemma_fundamental_div_mod(x, p);
    lemma_mod_bound(x, p);
    let q = x / p;
    assert(q * p == p * q && (q + 1) * p == p * q + p) by (nonlinear_arith);
}

/// A number from zero up to, but not including, a whole number `n` has its
/// whole part from zero up to, but not including, `n`.
pub proof fn lemma_whole_part_within(bits: u64, n: int)
    requires
        0 <= signed_magnitude(bits) < n * pow2(1074),
    ensures
        0 <= whole_part(bits) < n,
{
    let p = pow2(1074) as int;
    let x = signed_magnitude(bits);
    lemma_whole_part(bits);
    lemma_pow2_pos(1074);
    let q = whole_part(bits);
    assert(0 <= q < n) by (nonlinear_arith)
        requires
            q * p <= x < (q + 1) * p,
            0 <= x < n * p,
            p > 0,
    ;
}

/// `ONE` stands for one, and `ZERO` for zero.
pub proof fn lemma_one()
    ensures
        magnitude(ONE) == pow2(1074),
        magnitude(ZERO) == 0,
{
    lemma2_to64_rest();
    lemma_pow2_adds(52, 1022);
}

/// The keys of the finite magnitudes are those up to `LARGEST`: their
/// exponent field is not all ones. `INFINITE` follows at once.
pub proof fn lemma_finite(k: u64)
    ensures
        k <= LARGEST <==> exponent(k) <= 2046,
        INFINITE == LARGEST + 1,
        exponent(INFINITE) == 2047 && fraction(INFINITE) == 0,
{
}

/// The key of `n / 2^32`.
///
/// The quotient is written exactly: `n` has no more than 32 significant
/// bits, and a key holds 53.
pub fn unit(n: u32) -> (k: u64)
    ensures
        magnitude(k) * pow2(32) == n * pow2(1074),
        k < ONE,
{
    if n == 0 {
        assert(magnitude(0) * pow2(32) == 0 * pow2(1074)) by (nonlinear_arith)
            requires
                magnitude(0) == 0,
        ;
        return 0;
    }
    let zeros: u32 = n.leading_zeros();
    proof {
        axiom_u32_leading_zeros(n);
    }
    let shift: u32 = 21 + zeros;
    let wide: u64 = n as u64;
    let significand: u64 = wide << shift;
    proof {
        let top: u32 = (31 - zeros) as u32;
        let above: u32 = (32 - zeros) as u32;
        assert((n >> top) & 1u32 != 0u32);
        assert(n >> above == 0);
        assert(wide <= (0x1f_ffff_ffff_ffffu64 >> (shift as u64))) by (bit_vector)
            requires
                zeros < 32,
                above == 32 - zeros,
                shift == 21 + zeros,
                wide == n as u64,
                n >> above == 0,
        ;
        lemma_u64_mul_pow2_le_max_iff_max_shr(wide, shift as u64, 0x1f_ffff_ffff_ffffu64);
        lemma_u64_shl_is_mul(wide, shift as u64);
        assert(significand >= 0x10_0000_0000_0000u64) by (bit_vector)
            requires
                zeros < 32,
                top == 31 - zeros,
                shift == 21 + zeros,
                wide == n as u64,
                (n >> top) & 1u32 != 0u32,
                significand == wide << shift,
        ;
    }
    let e: u64 = 1022 - zeros as u64;
    let k: u64 = e * HIDDEN + (significand - HIDDEN);
    proof {
        assert(exponent(k) == e);
        assert(fraction(k) == significand - HIDDEN);
        let p1 = pow2(shift as nat);
        let p2 = pow2((e - 1) as nat);
        let p3 = pow2(32);
        lemma_pow2_adds(shift as nat, (e - 1) as nat);
        lemma_pow2_adds((shift + (e - 1)) as nat, 32);
        assert(shift + (e - 1) + 32 == 1074);
        assert(p1 * p2 * p3 == pow2(1074));
        assert(magnitude(k) == (n * p1) * p2);
        assert(((n * p1) * p2) * p3 == n * (p1 * p2 * p3)) by (nonlinear_arith);
    }
    k
}

proof fn lemma_floor(x: int, p: int, r: int)
    requires
        p > 0,
        r * p <= x < (r + 1) * p,
    ensures
        x / p == r,
{
    lemma_fundamental_div_mod(x, p);
    lemma_mod_bound(x, p);
    let q = x / p;
    let rem = x % p;
    assert(q == r) by (nonlinear_arith)
        requires
            x == p * q + rem,
            0 <= rem < p,
            r * p <= x < (r + 1) * p,
            p > 0,
    ;
}

proof fn lemma_floor_beyond(x: int, p: int, bound: int)
    requires
        p > 0,
    ensures
        x >= bound * p ==> x / p >= bound,
        x <= bound * p ==> x / p <= bound,
{
    lemma_fundamental_div_mod(x, p);
    lemma_mod_bound(x, p);
    let q = x / p;
    let rem = x % p;
    assert(x >= bound * p ==> q >= bound) by (nonlinear_arith)
        requires
            x == p * q + rem,
            0 <= rem < p,
            p > 0,
    ;
    assert(x <= bound * p ==> q <= bound) by (nonlinear_arith)
        requires
            x == p * q + rem,
            0 <= rem < p,
            p > 0,
    ;
}

/// Cuts a number down to a whole number: the greatest that is not above
/// it, held within the range of the 64-bit integers. What is not a number
/// gives zero.
pub fn floor(bits: u64) -> (w: i64)
    ensures
        w == floor_of(bits),
{
    if is_nan(bits) {
        return 0;
    }
    let negative = bits >= SIGN;
    let m: u64 = bits % SIGN;
    let e: u64 = m / HIDDEN;
    let p = Ghost(pow2(1074) as int);
    let mag = Ghost(magnitude(m) as int);
    proof {
        lemma_pow2_pos(1074);
        lemma_one();
        lemma2_to64();
        lemma2_to64_rest();
        assert(negative ==> m == bits - SIGN);
        assert(!negative ==> m == bits);
        assert(signed_magnitude(bits) == if negative {
            -mag@
        } else {
            mag@
        });
    }
    if e < 1023 {
        proof {
            assert(m < ONE);
            lemma_order(m, ONE);
            lemma_order(m, ZERO);
            assert(0 * p@ == 0 && (0 + 1) * p@ == p@ && (-1) * p@ == -p@ && (-1 + 1) * p@ == 0)
                by (nonlinear_arith);
        }
        if negative && m != 0 {
            proof {
                lemma_floor(-mag@, p@, -1);
            }
            return -1;
        } else {
            proof {
                lemma_floor(signed_magnitude(bits), p@, 0);
            }
            return 0;
        }
    }
    if e >= 1086 {
        proof {
            let k63: u64 = 0x43e0_0000_0000_0000;
            assert(k63 / HIDDEN == 1086 && k63 % HIDDEN == 0);
            lemma_pow2_adds(52, 1085);
            lemma_pow2_adds(63, 1074);
            assert(magnitude(k63) == 0x8000_0000_0000_0000 * p@);
            lemma_order(k63, m);
            assert(mag@ >= 0x8000_0000_0000_0000 * p@);
            lemma_floor_beyond(mag@, p@, 0x8000_0000_0000_0000);
            assert(-mag@ <= (-0x8000_0000_0000_0000) * p@) by (nonlinear_arith)
                requires
                    mag@ >= 0x8000_0000_0000_0000 * p@,
            ;
            lemma_floor_beyond(-mag@, p@, -0x8000_0000_0000_0000);
        }
        return if negative {
            i64::MIN
        } else {
            i64::MAX
        };
    }
    let significand: u64 = HIDDEN + m % HIDDEN;
    if e <= 1075 {
        let shift: u64 = 1075 - e;
        let unit: u64 = 1u64 << shift;
        proof {
            lemma_u64_pow2_no_overflow(shift as nat);
            lemma_u64_shl_is_mul(1, shift);
        }
        let whole: u64 = significand / unit;
        let rest: u64 = significand % unit;
        proof {
            let ps = pow2(shift as nat) as int;
            let pe = pow2((e - 1) as nat) as int;
            lemma_pow2_pos((e - 1) as nat);
            lemma_pow2_adds(shift as nat, (e - 1) as nat);
            assert(p@ == ps * pe);
            assert(mag@ == significand * pe);
            lemma_fundamental_div_mod(significand as int, unit as int);
            assert(significand == ps * whole + rest);
            let part = rest * pe;
            assert(mag@ == whole * p@ + part && 0 <= part < p@ && (rest == 0 ==> part == 0) && (rest
                != 0 ==> part > 0)) by (nonlinear_arith)
                requires
                    significand == ps * whole + rest,
                    0 <= rest < ps,
                    p@ == ps * pe,
                    mag@ == significand * pe,
                    pe > 0,
                    part == rest * pe,
            ;
            assert(whole <= significand) by (nonlinear_arith)
                requires
                    significand == ps * whole + rest,
                    0 <= rest,
                    ps >= 1,
                    whole >= 0,
            ;
            if negative {
                if rest == 0 {
                    assert((-whole) * p@ <= -mag@ < (-whole + 1) * p@) by (nonlinear_arith)
                        requires
                            mag@ == whole * p@,
                            p@ > 0,
                    ;
                    lemma_floor(-mag@, p@, -(whole as int));
                } else {
                    assert((-whole - 1) * p@ <= -mag@ < (-whole - 1 + 1) * p@) by (nonlinear_arith)
                        requires
                            mag@ == whole * p@ + part,
                            0 < part < p@,
                    ;
                    lemma_floor(-mag@, p@, -(whole as int) - 1);
                }
            } else {
                assert(whole * p@ <= mag@ < (whole + 1) * p@) by (nonlinear_arith)
                    requires
                        mag@ == whole * p@ + part,
                        0 <= part < p@,
                ;
                lemma_floor(mag@, p@, whole as int);
            }
        }
        if negative {
            if rest == 0 {
                -(whole as i64)
            } else {
                -(whole as i64) - 1
            }
        } else {
            whole as i64
        }
    } else {
        let shift: u64 = e - 1075;
        let unit: u64 = 1u64 << shift;
        proof {
            lemma_u64_pow2_no_overflow(shift as nat);
            lemma_u64_shl_is_mul(1, shift);
            if shift < 10 {
                lemma_pow2_strictly_increases(shift as nat, 10);
            }
            assert(unit <= 1024);
            assert(significand * unit < 0x8000_0000_0000_0000) by (nonlinear_arith)
                requires
                    significand < 0x20_0000_0000_0000,
                    unit <= 1024,
            ;
        }
        let whole: u64 = significand * unit;
        proof {
            let ps = pow2(shift as nat) as int;
            let pe = pow2((e - 1) as nat) as int;
            lemma_pow2_adds(1074, shift as nat);
            assert(pe == p@ * ps);
            assert(mag@ == significand * pe);
            assert(mag@ == whole * p@ && (-whole) * p@ == -mag@ && (whole + 1) * p@ == mag@ + p@
                && (-whole + 1) * p@ == -mag@ + p@) by (nonlinear_arith)
                requires
                    mag@ == significand * pe,
                    pe == p@ * ps,
                    whole == significand * ps,
            ;
            if negative {
                lemma_floor(-mag@, p@, -(whole as int));
            } else {
                lemma_floor(mag@, p@, whole as int);
            }
        }
        if negative {
            -(whole as i64)
        } else {
            whole as i64
        }
    }
}

} // verus!
