//! The scaled decimal: an unsigned fixed-point number at one compute scale.
//!
//! A [`Decimal`] with mantissa `m` stands for the real number `m / 10^12`.
//! Every operation is checked: it returns the exactly rounded result or says
//! why there is none. Amounts enter and leave at a caller-chosen decimal count
//! through [`Decimal::from_native`] and [`Decimal::to_native`]; the latter asks
//! for the rounding direction, because the direction decides who keeps the
//! dust.
use crate::error::MathError;
use crate::root::{isqrt, sqrt_of_product};
use crate::wide::{mul_div_ceil, mul_div_ceil_int, mul_div_floor};
use vstd::arithmetic::div_mod::{
    lemma_basic_div,
    lemma_div_by_multiple,
    lemma_div_multiples_vanish_quotient,
    lemma_mod_multiples_basic,
    lemma_truncate_middle,
};
use vstd::arithmetic::power::{lemma_pow_adds, lemma_pow_increases, lemma_pow_positive, pow};
use vstd::prelude::*;

verus! {

/// The number of decimal digits that every [`Decimal`] keeps after the point.
pub const COMPUTE_SCALE: u8 = 12;

/// The mantissa of the number one: `10^12`.
pub const ONE: u128 = 1_000_000_000_000;

/// The mantissa of one quarter.
pub const QUARTER: u128 = 250_000_000_000;

/// Which way a rescale rounds when digits are dropped.
#[derive(Clone, Copy, Debug, PartialEq, Eq, Structural)]
pub enum Rounding {
    /// Toward zero.
    Floor,
    /// Away from zero.
    Ceiling,
}

/// An unsigned fixed-point number with twelve decimal digits after the point.
#[derive(Clone, Copy, Debug, PartialEq, Eq, Structural)]
pub struct Decimal {
    /// The number times `10^12`.
    pub value: u128,
}

impl View for Decimal {
    type V = nat;

    /// The mantissa, as a natural number.
    open spec fn view(&self) -> nat {
        self.value as nat
    }
}

/// `10^e`.
pub open spec fn pow10(e: nat) -> nat {
    pow(10, e) as nat
}

/// The decimal with mantissa `m`, or `Overflow` when `m` does not fit.
pub open spec fn decimal_of(m: int) -> Result<Decimal, MathError> {
    if m > u128::MAX {
        Err(MathError::Overflow)
    } else {
        Ok(Decimal { value: m as u128 })
    }
}

/// The word `m`, or `Overflow` when `m` does not fit.
pub open spec fn word_of(m: int) -> Result<u128, MathError> {
    if m > u128::MAX {
        Err(MathError::Overflow)
    } else {
        Ok(m as u128)
    }
}

/// `10^e` is positive and unfolds one factor at a time.
pub proof fn lemma_pow10_unfold(e: nat)
    ensures
        pow10(e) > 0,
        pow10(e) == pow(10, e),
        pow10(e + 1) == 10 * pow10(e),
        pow10(0) == 1,
{
    lemma_pow_positive(10, e);
    lemma_pow_positive(10, e + 1);
    reveal(pow);
    assert(pow(10, 0) == 1);
    assert(pow(10, e + 1) == 10 * pow(10, e));
}

/// The powers of ten up to the compute scale.
pub proof fn lemma_pow10_table()
    ensures
        pow10(0) == 1,
        pow10(1) == 10,
        pow10(2) == 100,
        pow10(3) == 1_000,
        pow10(4) == 10_000,
        pow10(5) == 100_000,
        pow10(6) == 1_000_000,
        pow10(7) == 10_000_000,
        pow10(8) == 100_000_000,
        pow10(9) == 1_000_000_000,
        pow10(10) == 10_000_000_000,
        pow10(11) == 100_000_000_000,
        pow10(12) == 1_000_000_000_000,
{
    lemma_pow10_unfold(0);
    lemma_pow10_unfold(1);
    lemma_pow10_unfold(2);
    lemma_pow10_unfold(3);
    lemma_pow10_unfold(4);
    lemma_pow10_unfold(5);
    lemma_pow10_unfold(6);
    lemma_pow10_unfold(7);
    lemma_pow10_unfold(8);
    lemma_pow10_unfold(9);
    lemma_pow10_unfold(10);
    lemma_pow10_unfold(11);
}

/// `10^12` is the mantissa of one.
pub proof fn lemma_pow10_compute_scale()
    ensures
        pow10(12) == ONE,
{
    lemma_pow10_table();
}

/// `10^(a + b) = 10^a * 10^b`.
pub proof fn lemma_pow10_adds(a: nat, b: nat)
    ensures
        pow10(a + b) == pow10(a) * pow10(b),
{
    lemma_pow_adds(10, a, b);
    lemma_pow_positive(10, a);
    lemma_pow_positive(10, b);
    lemma_pow_positive(10, a + b);
}

/// `10^a <= 10^b` for `a <= b`.
pub proof fn lemma_pow10_increases(a: nat, b: nat)
    requires
        a <= b,
    ensures
        pow10(a) <= pow10(b),
{
    lemma_pow_increases(10, a, b);
    lemma_pow_positive(10, a);
    lemma_pow_positive(10, b);
}

/// `10^e`, or `None` when it does not fit in 128 bits.
pub fn checked_pow10(e: u8) -> (r: Option<u128>)
    ensures
        match r {
            Some(v) => v == pow10(e as nat),
            None => pow10(e as nat) > u128::MAX,
        },
{
    let mut acc: u128 = 1;
    let mut i: u8 = 0;
    proof {
        lemma_pow10_unfold(0);
    }
    while i < e
        invariant
            i <= e,
            acc == pow10(i as nat),
        decreases e - i,
    {
        proof {
            lemma_pow10_unfold(i as nat);
        }
        if acc > u128::MAX / 10 {
            proof {
                lemma_pow10_increases((i + 1) as nat, e as nat);
            }
            return None;
        }
        acc = acc * 10;
        i = i + 1;
    }
    Some(acc)
}

/// `10^e` for an exponent up to the compute scale; it always fits.
fn pow10_within_scale(e: u8) -> (r: u128)
    requires
        e <= COMPUTE_SCALE,
    ensures
        r == pow10(e as nat),
        0 < r <= ONE,
{
    let mut acc: u128 = 1;
    let mut i: u8 = 0;
    proof {
        lemma_pow10_table();
    }
    while i < e
        invariant
            i <= e <= COMPUTE_SCALE,
            acc == pow10(i as nat),
            0 < acc <= ONE,
            pow10(12) == ONE,
        decreases e - i,
    {
        proof {
            lemma_pow10_unfold(i as nat);
            lemma_pow10_increases((i + 1) as nat, 12);
        }
        acc = acc * 10;
        i = i + 1;
    }
    acc
}

impl Decimal {
    /// The number one.
    pub fn one() -> (r: Decimal)
        ensures
            r.value == ONE,
    {
        Decimal { value: ONE }
    }

    /// The number zero.
    pub fn zero() -> (r: Decimal)
        ensures
            r.value == 0,
    {
        Decimal { value: 0 }
    }

    /// What [`Decimal::from_native`] returns: `floor(amount * 10^12 / 10^native_scale)`.
    pub open spec fn spec_from_native(amount: u128, native_scale: u8) -> Result<
        Decimal,
        MathError,
    > {
        decimal_of((amount * ONE) / (pow10(native_scale as nat) as int))
    }

    /// Rescales an integer amount with `native_scale` decimal digits to the
    /// compute scale, dropping the digits beyond the twelfth.
    ///
    /// Fails with `Overflow` when the mantissa does not fit in 128 bits.
    pub fn from_native(amount: u128, native_scale: u8) -> (r: Result<Decimal, MathError>)
        ensures
            r == Self::spec_from_native(amount, native_scale),
    {
        if native_scale <= COMPUTE_SCALE {
            let factor: u128 = pow10_within_scale(COMPUTE_SCALE - native_scale);
            proof {
                let unit: int = pow10(native_scale as nat) as int;
                lemma_pow10_compute_scale();
                lemma_pow10_adds((12 - native_scale) as nat, native_scale as nat);
                lemma_pow10_unfold(native_scale as nat);
                assert(amount * ONE == (amount * factor) * unit) by (nonlinear_arith)
                    requires
                        ONE == factor * unit,
                ;
                lemma_div_by_multiple(amount * factor, unit);
            }
            match amount.checked_mul(factor) {
                Some(value) => Ok(Decimal { value }),
                None => Err(MathError::Overflow),
            }
        } else {
            let down: u8 = native_scale - COMPUTE_SCALE;
            proof {
                lemma_pow10_compute_scale();
                lemma_pow10_adds(12, down as nat);
                lemma_pow10_unfold(down as nat);
            }
            match checked_pow10(down) {
                Some(divisor) => {
                    proof {
                        lemma_div_multiples_vanish_quotient(
                            ONE as int,
                            amount as int,
                            divisor as int,
                        );
                        assert(amount * ONE == ONE * amount) by (nonlinear_arith);
                    }
                    Ok(Decimal { value: amount / divisor })
                },
                None => {
                    proof {
                        let d: int = pow10(down as nat) as int;
                        assert(amount * ONE < ONE * d) by (nonlinear_arith)
                            requires
                                amount < d,
                        ;
                        assert(0 <= amount * ONE) by (nonlinear_arith);
                        lemma_basic_div(amount * ONE, ONE * d);
                    }
                    Ok(Decimal { value: 0 })
                },
            }
        }
    }

    /// What [`Decimal::to_native`] returns: the number times `10^scale`,
    /// rounded in the given direction.
    pub open spec fn spec_to_native(self, scale: u8, rounding: Rounding) -> Result<
        u128,
        MathError,
    > {
        match rounding {
            Rounding::Floor => word_of((self.value * pow10(scale as nat)) / (ONE as int)),
            Rounding::Ceiling => word_of(
                mul_div_ceil_int(self.value as int, pow10(scale as nat) as int, ONE as int),
            ),
        }
    }

    /// Rescales to an integer amount with `scale` decimal digits.
    ///
    /// Fails with `Overflow` when the amount does not fit in 128 bits.
    pub fn to_native(self, scale: u8, rounding: Rounding) -> (r: Result<u128, MathError>)
        ensures
            r == self.spec_to_native(scale, rounding),
    {
        if scale <= COMPUTE_SCALE {
            let divisor: u128 = pow10_within_scale(COMPUTE_SCALE - scale);
            proof {
                let unit: int = pow10(scale as nat) as int;
                lemma_pow10_compute_scale();
                lemma_pow10_adds(scale as nat, (12 - scale) as nat);
                lemma_pow10_unfold(scale as nat);
                lemma_div_multiples_vanish_quotient(unit, self.value as int, divisor as int);
                lemma_truncate_middle(self.value as int, unit, divisor as int);
                assert(self.value * unit == unit * self.value) by (nonlinear_arith);
                assert(unit * (self.value % divisor) == 0 <==> self.value % divisor == 0)
                    by (nonlinear_arith)
                    requires
                        unit > 0,
                ;
            }
            let q: u128 = self.value / divisor;
            match rounding {
                Rounding::Floor => Ok(q),
                Rounding::Ceiling => if self.value % divisor == 0 {
                    Ok(q)
                } else {
                    assert(q < u128::MAX) by (nonlinear_arith)
                        requires
                            q == self.value / divisor,
                            self.value % divisor != 0,
                            divisor > 0,
                    {
                        assert(divisor >= 2);
                        assert(q * divisor <= self.value);
                    }
                    Ok(q + 1)
                },
            }
        } else {
            let up: u8 = scale - COMPUTE_SCALE;
            proof {
                lemma_pow10_compute_scale();
                lemma_pow10_adds(12, up as nat);
                lemma_pow10_unfold(up as nat);
                let f: int = pow10(up as nat) as int;
                assert(self.value * (ONE * f) == (self.value * f) * ONE) by (nonlinear_arith);
                assert(0 <= self.value * f) by (nonlinear_arith)
                    requires
                        0 <= f,
                ;
                lemma_div_by_multiple(self.value * f, ONE as int);
                lemma_mod_multiples_basic(self.value * f, ONE as int);
                if self.value > 0 {
                    assert(self.value * f >= f) by (nonlinear_arith)
                        requires
                            self.value >= 1,
                            f >= 0,
                    ;
                }
            }
            match checked_pow10(up) {
                Some(factor) => match self.value.checked_mul(factor) {
                    Some(amount) => Ok(amount),
                    None => Err(MathError::Overflow),
                },
                None => if self.value == 0 {
                    Ok(0)
                } else {
                    Err(MathError::Overflow)
                },
            }
        }
    }

    /// What [`Decimal::checked_add`] returns.
    pub open spec fn spec_checked_add(self, other: Decimal) -> Result<Decimal, MathError> {
        decimal_of(self.value + other.value)
    }

    /// The sum; `Overflow` when it does not fit.
    pub fn checked_add(self, other: Decimal) -> (r: Result<Decimal, MathError>)
        ensures
            r == self.spec_checked_add(other),
    {
        match self.value.checked_add(other.value) {
            Some(value) => Ok(Decimal { value }),
            None => Err(MathError::Overflow),
        }
    }

    /// What [`Decimal::checked_sub`] returns.
    pub open spec fn spec_checked_sub(self, other: Decimal) -> Result<Decimal, MathError> {
        if self.value < other.value {
            Err(MathError::Underflow)
        } else {
            Ok(Decimal { value: (self.value - other.value) as u128 })
        }
    }

    /// The difference; `Underflow` when `other` is the larger. Never wraps.
    pub fn checked_sub(self, other: Decimal) -> (r: Result<Decimal, MathError>)
        ensures
            r == self.spec_checked_sub(other),
    {
        if self.value < other.value {
            Err(MathError::Underflow)
        } else {
            Ok(Decimal { value: self.value - other.value })
        }
    }

    /// What [`Decimal::checked_mul`] returns: the product, rounded down to the
    /// twelfth digit.
    pub open spec fn spec_checked_mul(self, other: Decimal) -> Result<Decimal, MathError> {
        decimal_of((self.value * other.value) / (ONE as int))
    }

    /// The product, rounded down; `Overflow` when it does not fit.
    pub fn checked_mul(self, other: Decimal) -> (r: Result<Decimal, MathError>)
        ensures
            r == self.spec_checked_mul(other),
    {
        match mul_div_floor(self.value, other.value, ONE) {
            Ok(value) => Ok(Decimal { value }),
            Err(e) => Err(e),
        }
    }

    /// What [`Decimal::checked_div_floor`] returns.
    pub open spec fn spec_checked_div_floor(self, other: Decimal) -> Result<Decimal, MathError> {
        if other.value == 0 {
            Err(MathError::DivideByZero)
        } else {
            decimal_of((self.value * ONE) / (other.value as int))
        }
    }

    /// The quotient, rounded down; `DivideByZero` for a zero divisor,
    /// `Overflow` when the quotient does not fit.
    pub fn checked_div_floor(self, other: Decimal) -> (r: Result<Decimal, MathError>)
        ensures
            r == self.spec_checked_div_floor(other),
    {
        match mul_div_floor(self.value, ONE, other.value) {
            Ok(value) => Ok(Decimal { value }),
            Err(e) => Err(e),
        }
    }

    /// What [`Decimal::checked_div_ceiling`] returns.
    pub open spec fn spec_checked_div_ceiling(self, other: Decimal) -> Result<Decimal, MathError> {
        if other.value == 0 {
            Err(MathError::DivideByZero)
        } else {
            decimal_of(mul_div_ceil_int(self.value as int, ONE as int, other.value as int))
        }
    }

    /// The quotient, rounded up; `DivideByZero` for a zero divisor, `Overflow`
    /// when the quotient does not fit.
    pub fn checked_div_ceiling(self, other: Decimal) -> (r: Result<Decimal, MathError>)
        ensures
            r == self.spec_checked_div_ceiling(other),
    {
        match mul_div_ceil(self.value, ONE, other.value) {
            Ok(value) => Ok(Decimal { value }),
            Err(e) => Err(e),
        }
    }

    /// The mantissa of the square root: the floor of `sqrt(m * 10^12)`.
    pub open spec fn spec_sqrt(self) -> Decimal {
        Decimal { value: isqrt((self.value as nat) * (ONE as nat)) as u128 }
    }

    /// The square root, rounded down to the twelfth digit.
    ///
    /// The result `r` is the largest decimal with `r * r <= self`; in mantissas,
    /// `r^2 <= m * 10^12 < (r + 1)^2`. It always exists, so the call never
    /// fails.
    pub fn sqrt(self) -> (r: Result<Decimal, MathError>)
        ensures
            r == Ok::<Decimal, MathError>(self.spec_sqrt()),
            r matches Ok(root) && root.value * root.value <= self.value * ONE < (root.value + 1)
                * (root.value + 1),
    {
        let value: u128 = sqrt_of_product(self.value, ONE);
        Ok(Decimal { value })
    }

    /// What [`Decimal::checked_pow_int`] returns.
    ///
    /// The power is built by squaring: `x^n = (x^(n / 2))^2 * x^(n % 2)`, each
    /// product rounded down to the twelfth digit, and `x^0 = 1`.
    pub open spec fn spec_pow_int(self, n: nat) -> Result<Decimal, MathError>
        decreases n,
    {
        if n == 0 {
            Ok(Decimal { value: ONE })
        } else {
            match self.spec_pow_int(n / 2) {
                Err(e) => Err(e),
                Ok(half) => match half.spec_checked_mul(half) {
                    Err(e) => Err(e),
                    Ok(square) => if n % 2 == 1 {
                        square.spec_checked_mul(self)
                    } else {
                        Ok(square)
                    },
                },
            }
        }
    }

    /// The power with a whole exponent, by repeated squaring; `Overflow` when
    /// a product on the way does not fit.
    pub fn checked_pow_int(self, n: u128) -> (r: Result<Decimal, MathError>)
        ensures
            r == self.spec_pow_int(n as nat),
        decreases n,
    {
        if n == 0 {
            return Ok(Decimal { value: ONE });
        }
        let half: Decimal = self.checked_pow_int(n / 2)?;
        let square: Decimal = half.checked_mul(half)?;
        if n % 2 == 1 {
            square.checked_mul(self)
        } else {
            Ok(square)
        }
    }

    /// Whether `fraction`, a mantissa below one, is a multiple of a quarter.
    pub open spec fn is_quarter_step(fraction: u128) -> bool {
        fraction == 0 || fraction == QUARTER || fraction == 2 * QUARTER || fraction == 3 * QUARTER
    }

    /// The power with a quarter-step exponent below one, by nested square
    /// roots: `x^(1/2) = sqrt(x)`, `x^(1/4) = sqrt(sqrt(x))`, and
    /// `x^(3/4)` is the product of the two.
    pub open spec fn spec_pow_quarters(self, fraction: u128) -> Result<Decimal, MathError> {
        if fraction == 0 {
            Ok(Decimal { value: ONE })
        } else if fraction == QUARTER {
            Ok(self.spec_sqrt().spec_sqrt())
        } else if fraction == 2 * QUARTER {
            Ok(self.spec_sqrt())
        } else if fraction == 3 * QUARTER {
            self.spec_sqrt().spec_checked_mul(self.spec_sqrt().spec_sqrt())
        } else {
            Err(MathError::InvalidExponent)
        }
    }

    /// What [`Decimal::checked_pow_fraction`] returns.
    pub open spec fn spec_checked_pow_fraction(self, exponent: Decimal) -> Result<
        Decimal,
        MathError,
    > {
        let whole: nat = (exponent.value / ONE) as nat;
        let fraction: u128 = exponent.value % ONE;
        if !Self::is_quarter_step(fraction) {
            Err(MathError::InvalidExponent)
        } else {
            match self.spec_pow_int(whole) {
                Err(e) => Err(e),
                Ok(power) => match self.spec_pow_quarters(fraction) {
                    Err(e) => Err(e),
                    Ok(root) => power.spec_checked_mul(root),
                },
            }
        }
    }

    /// The power with an exponent that is a whole number plus 0, 1/4, 1/2 or
    /// 3/4.
    ///
    /// The whole part is raised by repeated squaring and the fractional part
    /// by nested square roots; the two are then multiplied. Fails with
    /// `InvalidExponent` for any other fractional part, before anything is
    /// computed, and with `Overflow` when a product does not fit.
    pub fn checked_pow_fraction(self, exponent: Decimal) -> (r: Result<Decimal, MathError>)
        ensures
            r == self.spec_checked_pow_fraction(exponent),
    {
        let whole: u128 = exponent.value / ONE;
        let fraction: u128 = exponent.value % ONE;
        if !(fraction == 0 || fraction == QUARTER || fraction == 2 * QUARTER || fraction == 3
            * QUARTER) {
            return Err(MathError::InvalidExponent);
        }
        let power: Decimal = self.checked_pow_int(whole)?;
        let half: Decimal = Decimal { value: sqrt_of_product(self.value, ONE) };
        let root: Decimal = if fraction == 0 {
            Decimal { value: ONE }
        } else if fraction == 2 * QUARTER {
            half
        } else {
            let quarter: Decimal = Decimal { value: sqrt_of_product(half.value, ONE) };
            if fraction == QUARTER {
                quarter
            } else {
                half.checked_mul(quarter)?
            }
        };
        power.checked_mul(root)
    }
}

/// The product of two numbers that are at most one is at most either of them,
/// and never overflows.
pub proof fn lemma_mul_at_most_one(a: Decimal, b: Decimal)
    requires
        a.value <= ONE,
        b.value <= ONE,
    ensures
        a.spec_checked_mul(b) is Ok,
        a.spec_checked_mul(b)->Ok_0.value <= a.value,
        a.spec_checked_mul(b)->Ok_0.value <= b.value,
        a.spec_checked_mul(b)->Ok_0.value == (a.value * b.value) / (ONE as int),
{
    let p: int = a.value * b.value;
    assert(0 <= p <= a.value * ONE && p <= b.value * ONE) by (nonlinear_arith)
        requires
            p == a.value * b.value,
            a.value <= ONE,
            b.value <= ONE,
    ;
    vstd::arithmetic::div_mod::lemma_div_is_ordered(0, p, ONE as int);
    vstd::arithmetic::div_mod::lemma_div_is_ordered(p, a.value * ONE, ONE as int);
    vstd::arithmetic::div_mod::lemma_div_is_ordered(p, b.value * ONE, ONE as int);
    lemma_div_by_multiple(a.value as int, ONE as int);
    lemma_div_by_multiple(b.value as int, ONE as int);
}

/// The square root of a number that is at most one is at most one, and is
/// not below the number.
pub proof fn lemma_sqrt_at_most_one(a: Decimal)
    requires
        a.value <= ONE,
    ensures
        a.value <= a.spec_sqrt().value <= ONE,
        a.spec_sqrt().value == isqrt((a.value as nat) * (ONE as nat)),
{
    let n: nat = (a.value as nat) * (ONE as nat);
    let top: nat = (ONE as nat) * (ONE as nat);
    let low: nat = (a.value as nat) * (a.value as nat);
    assert(low <= n <= top) by (nonlinear_arith)
        requires
            n == (a.value as nat) * (ONE as nat),
            top == (ONE as nat) * (ONE as nat),
            low == (a.value as nat) * (a.value as nat),
            a.value <= ONE,
    ;
    crate::root::lemma_isqrt_monotonic(n, top);
    crate::root::lemma_isqrt_monotonic(low, n);
    lemma_isqrt_of_square(ONE as nat);
    lemma_isqrt_of_square(a.value as nat);
}

/// The root of a square is its base.
pub proof fn lemma_isqrt_of_square(r: nat)
    ensures
        isqrt(r * r) == r,
{
    assert((r + 1) * (r + 1) > r * r) by (nonlinear_arith);
    crate::root::lemma_isqrt_is(r * r, r);
}

/// A whole power of a number that is at most one is at most one, and never
/// overflows.
pub proof fn lemma_pow_int_at_most_one(a: Decimal, n: nat)
    requires
        a.value <= ONE,
    ensures
        a.spec_pow_int(n) is Ok,
        a.spec_pow_int(n)->Ok_0.value <= ONE,
    decreases n,
{
    if n > 0 {
        lemma_pow_int_at_most_one(a, n / 2);
        let half: Decimal = a.spec_pow_int(n / 2)->Ok_0;
        lemma_mul_at_most_one(half, half);
        let square: Decimal = half.spec_checked_mul(half)->Ok_0;
        lemma_mul_at_most_one(square, a);
    }
}

/// A quarter-step power of a number that is at most one is at most one, and
/// never overflows.
pub proof fn lemma_pow_fraction_at_most_one(a: Decimal, exponent: Decimal)
    requires
        a.value <= ONE,
        Decimal::is_quarter_step(exponent.value % ONE),
    ensures
        a.spec_checked_pow_fraction(exponent) is Ok,
        a.spec_checked_pow_fraction(exponent)->Ok_0.value <= ONE,
{
    let whole: nat = (exponent.value / ONE) as nat;
    let fraction: u128 = exponent.value % ONE;
    lemma_pow_int_at_most_one(a, whole);
    lemma_sqrt_at_most_one(a);
    lemma_sqrt_at_most_one(a.spec_sqrt());
    lemma_mul_at_most_one(a.spec_sqrt(), a.spec_sqrt().spec_sqrt());
    let power: Decimal = a.spec_pow_int(whole)->Ok_0;
    let root: Decimal = a.spec_pow_quarters(fraction)->Ok_0;
    lemma_mul_at_most_one(power, root);
}

/// Two encodings of the same quantity rescale to the same decimal: where
/// `a1 / 10^s1 = a2 / 10^s2`, `from_native` gives the same result, error
/// included, for `(a1, s1)` and for `(a2, s2)`.
pub proof fn lemma_from_native_same_quantity(a1: u128, s1: u8, a2: u128, s2: u8)
    requires
        a1 * pow10(s2 as nat) == a2 * pow10(s1 as nat),
    ensures
        Decimal::spec_from_native(a1, s1) == Decimal::spec_from_native(a2, s2),
{
    let unit1: int = pow10(s1 as nat) as int;
    let unit2: int = pow10(s2 as nat) as int;
    lemma_pow10_unfold(s1 as nat);
    lemma_pow10_unfold(s2 as nat);
    let n1: int = a1 * ONE;
    let n2: int = a2 * ONE;
    assert(0 <= n1 && 0 <= n2) by (nonlinear_arith)
        requires
            n1 == a1 * ONE,
            n2 == a2 * ONE,
    ;
    lemma_div_multiples_vanish_quotient(unit2, n1, unit1);
    lemma_div_multiples_vanish_quotient(unit1, n2, unit2);
    assert(unit2 * n1 == unit1 * n2 && unit2 * unit1 == unit1 * unit2) by (nonlinear_arith)
        requires
            a1 * unit2 == a2 * unit1,
            n1 == a1 * ONE,
            n2 == a2 * ONE,
    ;
}

/// The square root never decreases when its argument grows.
pub proof fn lemma_sqrt_monotonic(a: Decimal, b: Decimal)
    requires
        a.value <= b.value,
    ensures
        a.spec_sqrt().value <= b.spec_sqrt().value,
{
    let na: nat = (a.value as nat) * (ONE as nat);
    let nb: nat = (b.value as nat) * (ONE as nat);
    assert(na <= nb) by (nonlinear_arith)
        requires
            na == (a.value as nat) * (ONE as nat),
            nb == (b.value as nat) * (ONE as nat),
            a.value <= b.value,
    ;
    crate::root::lemma_isqrt_monotonic(na, nb);
    lemma_sqrt_fits(a);
    lemma_sqrt_fits(b);
}

/// The mantissa of a square root fits in 128 bits, and is the floor root of
/// the mantissa times `10^12`.
pub proof fn lemma_sqrt_fits(a: Decimal)
    ensures
        a.spec_sqrt().value == isqrt((a.value as nat) * (ONE as nat)),
        a.spec_sqrt().value * a.spec_sqrt().value <= a.value * ONE,
        a.value * ONE < (a.spec_sqrt().value + 1) * (a.spec_sqrt().value + 1),
{
    let n: nat = (a.value as nat) * (ONE as nat);
    crate::root::lemma_isqrt_bounds(n);
    crate::root::lemma_isqrt_of_product(a.value as nat, ONE as nat);
    assert(n == a.value * ONE) by (nonlinear_arith)
        requires
            n == (a.value as nat) * (ONE as nat),
    ;
}

/// `floor(n * m / d)` never decreases when `n` grows.
pub proof fn lemma_mul_div_monotonic(n1: int, n2: int, m: int, d: int)
    requires
        0 <= n1 <= n2,
        0 <= m,
        0 < d,
    ensures
        0 <= (n1 * m) / d <= (n2 * m) / d,
{
    assert(0 <= n1 * m <= n2 * m) by (nonlinear_arith)
        requires
            0 <= n1 <= n2,
            0 <= m,
    ;
    vstd::arithmetic::div_mod::lemma_div_is_ordered(0, n1 * m, d);
    vstd::arithmetic::div_mod::lemma_div_is_ordered(n1 * m, n2 * m, d);
}

/// Rescaling to the compute scale keeps the order of amounts: where the
/// larger amount fits, so does the smaller, and its decimal is not larger.
pub proof fn lemma_from_native_monotonic(a1: u128, a2: u128, scale: u8)
    requires
        a1 <= a2,
        Decimal::spec_from_native(a2, scale) is Ok,
    ensures
        Decimal::spec_from_native(a1, scale) is Ok,
        Decimal::spec_from_native(a1, scale)->Ok_0.value <= Decimal::spec_from_native(
            a2,
            scale,
        )->Ok_0.value,
{
    lemma_pow10_unfold(scale as nat);
    lemma_mul_div_monotonic(a1 as int, a2 as int, ONE as int, pow10(scale as nat) as int);
}

/// Multiplication keeps the order of its left factor.
pub proof fn lemma_checked_mul_monotonic(a1: Decimal, a2: Decimal, b: Decimal)
    requires
        a1.value <= a2.value,
        a2.spec_checked_mul(b) is Ok,
    ensures
        a1.spec_checked_mul(b) is Ok,
        a1.spec_checked_mul(b)->Ok_0.value <= a2.spec_checked_mul(b)->Ok_0.value,
{
    lemma_mul_div_monotonic(a1.value as int, a2.value as int, b.value as int, ONE as int);
}

/// Division keeps the order of the dividend.
pub proof fn lemma_checked_div_floor_monotonic(a1: Decimal, a2: Decimal, b: Decimal)
    requires
        a1.value <= a2.value,
        a2.spec_checked_div_floor(b) is Ok,
    ensures
        a1.spec_checked_div_floor(b) is Ok,
        a1.spec_checked_div_floor(b)->Ok_0.value <= a2.spec_checked_div_floor(b)->Ok_0.value,
{
    lemma_mul_div_monotonic(a1.value as int, a2.value as int, ONE as int, b.value as int);
}

/// Rescaling down to a native amount, rounding down, keeps the order.
pub proof fn lemma_to_native_floor_monotonic(a1: Decimal, a2: Decimal, scale: u8)
    requires
        a1.value <= a2.value,
        a2.spec_to_native(scale, Rounding::Floor) is Ok,
    ensures
        a1.spec_to_native(scale, Rounding::Floor) is Ok,
        a1.spec_to_native(scale, Rounding::Floor)->Ok_0 <= a2.spec_to_native(
            scale,
            Rounding::Floor,
        )->Ok_0,
{
    lemma_pow10_unfold(scale as nat);
    lemma_mul_div_monotonic(
        a1.value as int,
        a2.value as int,
        pow10(scale as nat) as int,
        ONE as int,
    );
}

} // verus!
