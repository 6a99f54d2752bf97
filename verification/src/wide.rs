//! Exact `a * b / d` on 128-bit integers.
//!
//! The product of two 128-bit values needs 256 bits. It is held as a pair
//! `(hi, lo)` standing for `hi * 2^128 + lo`, and divided back down by
//! bit-serial long division, so that no intermediate value is ever truncated.
use crate::error::MathError;
use vstd::arithmetic::power2::{lemma2_to64, lemma_pow2_adds, lemma_pow2_unfold, pow2};
use vstd::prelude::*;

verus! {

/// `2^64`, the radix of the half-words that a 128-bit factor is split into.
pub const LIMB: u128 = 0x1_0000_0000_0000_0000;

/// `2^127`, the weight of the highest bit of a 128-bit word.
pub const TOP_BIT: u128 = 0x8000_0000_0000_0000_0000_0000_0000_0000;

/// `2^128`, the weight of the high word of a pair.
pub open spec fn word() -> int {
    0x1_0000_0000_0000_0000_0000_0000_0000_0000int
}

/// The number that the pair `(hi, lo)` stands for.
pub open spec fn wide_value(hi: u128, lo: u128) -> int {
    hi * word() + lo
}

/// `floor(a * b / d)` as a mathematical integer, for `d > 0`.
pub open spec fn mul_div_floor_int(a: int, b: int, d: int) -> int {
    (a * b) / d
}

/// `ceil(a * b / d)` as a mathematical integer, for `d > 0`.
pub open spec fn mul_div_ceil_int(a: int, b: int, d: int) -> int {
    if (a * b) % d == 0 {
        (a * b) / d
    } else {
        (a * b) / d + 1
    }
}

/// What [`mul_div_floor`] returns.
pub open spec fn spec_mul_div_floor(a: u128, b: u128, d: u128) -> Result<u128, MathError> {
    if d == 0 {
        Err(MathError::DivideByZero)
    } else if mul_div_floor_int(a as int, b as int, d as int) > u128::MAX {
        Err(MathError::Overflow)
    } else {
        Ok(mul_div_floor_int(a as int, b as int, d as int) as u128)
    }
}

/// What [`mul_div_ceil`] returns.
pub open spec fn spec_mul_div_ceil(a: u128, b: u128, d: u128) -> Result<u128, MathError> {
    if d == 0 {
        Err(MathError::DivideByZero)
    } else if mul_div_ceil_int(a as int, b as int, d as int) > u128::MAX {
        Err(MathError::Overflow)
    } else {
        Ok(mul_div_ceil_int(a as int, b as int, d as int) as u128)
    }
}

proof fn lemma_limb_product(x: u128, y: u128)
    by (nonlinear_arith)
    requires
        x < LIMB,
        y < LIMB,
    ensures
        x * y <= 0xffff_ffff_ffff_fffe_0000_0000_0000_0001,
{
    assert(x * y <= (LIMB - 1) * (LIMB - 1));
}

proof fn lemma_product_of_halves(a1: int, a0: int, b1: int, b0: int, l: int)
    ensures
        (a1 * l + a0) * (b1 * l + b0) == (a1 * b1) * (l * l) + (a0 * b1) * l + (a1 * b0) * l + a0
            * b0,
{
    let x: int = a1 * l;
    let y: int = b1 * l;
    assert((x + a0) * (y + b0) == x * y + x * b0 + a0 * y + a0 * b0) by (nonlinear_arith);
    assert(x * y == (a1 * b1) * (l * l)) by (nonlinear_arith)
        requires
            x == a1 * l,
            y == b1 * l,
    ;
    assert(x * b0 == (a1 * b0) * l) by (nonlinear_arith)
        requires
            x == a1 * l,
    ;
    assert(a0 * y == (a0 * b1) * l) by (nonlinear_arith)
        requires
            y == b1 * l,
    ;
}

proof fn lemma_product_below_square(a: u128, b: u128)
    by (nonlinear_arith)
    ensures
        a * b <= 0xffff_ffff_ffff_ffff_ffff_ffff_ffff_ffff * 0xffff_ffff_ffff_ffff_ffff_ffff_ffff_ffff,
{
}

/// The full 256-bit product of two 128-bit factors.
pub fn mul_wide(a: u128, b: u128) -> (r: (u128, u128))
    ensures
        wide_value(r.0, r.1) == a * b,
{
    let a0: u128 = a % LIMB;
    let a1: u128 = a / LIMB;
    let b0: u128 = b % LIMB;
    let b1: u128 = b / LIMB;
    proof {
        lemma_limb_product(a0, b0);
        lemma_limb_product(a0, b1);
        lemma_limb_product(a1, b0);
        lemma_limb_product(a1, b1);
    }
    let p00: u128 = a0 * b0;
    let p01: u128 = a0 * b1;
    let p10: u128 = a1 * b0;
    let p11: u128 = a1 * b1;
    let mid: u128 = p00 / LIMB + p01 % LIMB + p10 % LIMB;
    let lo: u128 = (mid % LIMB) * LIMB + p00 % LIMB;
    proof {
        let l: int = LIMB as int;
        lemma_product_of_halves(a1 as int, a0 as int, b1 as int, b0 as int, l);
        lemma_product_below_square(a, b);
        let total: int = p11 + p01 / LIMB + p10 / LIMB + mid / LIMB;
        assert(a * b == p11 * (l * l) + p01 * l + p10 * l + p00);
        assert(l * l == word());
        assert(total * word() + lo == a * b);
        assert(total <= u128::MAX);
    }
    let hi: u128 = p11 + p01 / LIMB + p10 / LIMB + mid / LIMB;
    (hi, lo)
}

proof fn lemma_pow2_128()
    ensures
        pow2(128) == word(),
        pow2(0) == 1,
{
    lemma2_to64();
    lemma_pow2_adds(64, 64);
}

proof fn lemma_pow2_below_word(i: nat)
    requires
        i < 128,
    ensures
        2 * pow2(i) <= word(),
        pow2(i + 1) == 2 * pow2(i),
{
    lemma_pow2_128();
    lemma_pow2_unfold(i + 1);
    if i + 1 < 128 {
        vstd::arithmetic::power2::lemma_pow2_strictly_increases(i + 1, 128);
    }
}

proof fn lemma_division_step(q: int, d: int, rem: int, cur: int, n: int, sh: int, top: int)
    by (nonlinear_arith)
    requires
        (q * d + rem) * word() + cur == n * sh,
        0 <= top <= 1,
        top * TOP_BIT <= cur < top * TOP_BIT + TOP_BIT,
    ensures
        ((2 * q) * d + (2 * rem + top)) * word() + (cur - top * TOP_BIT) * 2 == n * (2 * sh),
        ((2 * q + 1) * d + (2 * rem + top - d)) * word() + (cur - top * TOP_BIT) * 2 == n * (2
            * sh),
{
}

/// Long division of the pair `(hi, lo)` by `d`: the quotient and the remainder.
///
/// The quotient fits in one word exactly when `hi < d`.
pub fn div_wide(hi: u128, lo: u128, d: u128) -> (r: (u128, u128))
    requires
        hi < d,
    ensures
        r.0 * d + r.1 == wide_value(hi, lo),
        r.1 < d,
        r.0 == wide_value(hi, lo) / (d as int),
        r.1 == wide_value(hi, lo) % (d as int),
{
    let mut q: u128 = 0;
    let mut rem: u128 = hi;
    let mut cur: u128 = lo;
    let mut i: u32 = 0;
    proof {
        lemma_pow2_128();
    }
    while i < 128
        invariant
            i <= 128,
            rem < d,
            q < pow2(i as nat),
            (q * d + rem) * word() + cur == wide_value(hi, lo) * pow2(i as nat),
        decreases 128 - i,
    {
        let top: u128 = cur / TOP_BIT;
        proof {
            lemma_pow2_below_word(i as nat);
            lemma_division_step(
                q as int,
                d as int,
                rem as int,
                cur as int,
                wide_value(hi, lo),
                pow2(i as nat) as int,
                top as int,
            );
        }
        cur = (cur % TOP_BIT) * 2;
        if rem >= d - rem - top {
            rem = rem - (d - rem - top);
            q = 2 * q + 1;
        } else {
            rem = rem + rem + top;
            q = 2 * q;
        }
        i = i + 1;
    }
    proof {
        lemma_pow2_128();
        let n: int = wide_value(hi, lo);
        let k: int = n - (q * d + rem);
        assert(cur == k * word()) by (nonlinear_arith)
            requires
                (q * d + rem) * word() + cur == n * word(),
                k == n - (q * d + rem),
        ;
        assert(k == 0);
        vstd::arithmetic::div_mod::lemma_fundamental_div_mod_converse(
            n,
            d as int,
            q as int,
            rem as int,
        );
    }
    (q, rem)
}

proof fn lemma_quotient_fits(hi: u128, lo: u128, d: u128)
    by (nonlinear_arith)
    requires
        d > 0,
    ensures
        hi < d <==> wide_value(hi, lo) / (d as int) <= u128::MAX,
{
    let n: int = wide_value(hi, lo);
    let dd: int = d as int;
    assert(n == dd * (n / dd) + n % dd && 0 <= n % dd < dd) by {
        vstd::arithmetic::div_mod::lemma_fundamental_div_mod(n, dd);
        vstd::arithmetic::div_mod::lemma_mod_bound(n, dd);
    }
    if hi < d {
        assert(n < dd * word());
        if n / dd >= word() {
            assert(dd * (n / dd) >= dd * word());
        }
    } else {
        assert(n >= dd * word());
        if n / dd < word() {
            assert(dd * (n / dd) <= dd * (word() - 1));
        }
    }
}

/// `floor(a * b / d)` without intermediate truncation.
///
/// Fails with `DivideByZero` when `d` is zero and with `Overflow` when the
/// quotient does not fit in 128 bits.
pub fn mul_div_floor(a: u128, b: u128, d: u128) -> (r: Result<u128, MathError>)
    ensures
        r == spec_mul_div_floor(a, b, d),
{
    if d == 0 {
        return Err(MathError::DivideByZero);
    }
    let (hi, lo) = mul_wide(a, b);
    proof {
        lemma_quotient_fits(hi, lo, d);
    }
    if hi >= d {
        return Err(MathError::Overflow);
    }
    let (q, _rem) = div_wide(hi, lo, d);
    Ok(q)
}

/// `ceil(a * b / d)` without intermediate truncation.
///
/// Fails with `DivideByZero` when `d` is zero and with `Overflow` when the
/// rounded quotient does not fit in 128 bits.
pub fn mul_div_ceil(a: u128, b: u128, d: u128) -> (r: Result<u128, MathError>)
    ensures
        r == spec_mul_div_ceil(a, b, d),
{
    if d == 0 {
        return Err(MathError::DivideByZero);
    }
    let (hi, lo) = mul_wide(a, b);
    proof {
        lemma_quotient_fits(hi, lo, d);
    }
    if hi >= d {
        return Err(MathError::Overflow);
    }
    let (q, rem) = div_wide(hi, lo, d);
    if rem == 0 {
        Ok(q)
    } else if q == u128::MAX {
        Err(MathError::Overflow)
    } else {
        Ok(q + 1)
    }
}

/// `floor(a * numerator / denominator)` for a fraction that is at most one.
///
/// The result is at most `a`, so it always fits.
pub fn mul_fraction_floor(a: u128, numerator: u128, denominator: u128) -> (r: u128)
    requires
        0 < denominator,
        numerator <= denominator,
    ensures
        r == mul_div_floor_int(a as int, numerator as int, denominator as int),
        r <= a,
{
    let (hi, lo) = mul_wide(a, numerator);
    proof {
        assert(a * numerator <= a * denominator) by (nonlinear_arith)
            requires
                numerator <= denominator,
        ;
        assert(a * denominator < word() * denominator) by (nonlinear_arith)
            requires
                a < word(),
                0 < denominator,
        ;
        assert(hi < denominator) by (nonlinear_arith)
            requires
                hi * word() + lo < word() * denominator,
                0 <= lo,
        ;
        vstd::arithmetic::div_mod::lemma_div_is_ordered(
            a * numerator,
            a * denominator,
            denominator as int,
        );
        vstd::arithmetic::div_mod::lemma_div_by_multiple(a as int, denominator as int);
    }
    let (q, _rem) = div_wide(hi, lo, denominator);
    q
}

} // verus!
