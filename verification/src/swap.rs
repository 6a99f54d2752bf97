//! Swap pricing: the constant-product rule and its blend with an oracle price.
//!
//! A swap takes `amount_in` of one asset and pays out of the other reserve.
//! The fee is a fraction of the input and stays in the pool. The net input is
//! priced by the constant-product rule. Where the pool has a compensation
//! strength and an oracle price, the paid amount is moved from the
//! constant-product amount toward the amount that the oracle price would pay,
//! the further the more the pool's marginal price and the oracle disagree.
//!
//! Nothing here moves assets: a [`SwapResult`] says what the reserves must be
//! after the caller has carried the swap out.
use crate::decimal::{Decimal, Rounding, ONE};
use crate::error::MathError;
use crate::wide::mul_fraction_floor;
use vstd::prelude::*;

verus! {

/// Which asset comes in.
#[derive(Clone, Copy, Debug, PartialEq, Eq, Structural)]
pub enum Direction {
    /// Asset x comes in, asset y is paid out.
    XToY,
    /// Asset y comes in, asset x is paid out.
    YToX,
}

/// What a swap is priced from: a snapshot of the pool and its settings.
#[derive(Clone, Copy, Debug, PartialEq, Eq, Structural)]
pub struct PoolConfig {
    /// The reserve of asset x, in native units.
    pub reserve_x: u64,
    /// The decimal count of asset x.
    pub decimals_x: u8,
    /// The reserve of asset y, in native units.
    pub reserve_y: u64,
    /// The decimal count of asset y.
    pub decimals_y: u8,
    /// The compensation strength in hundredths: 0, 100, 125 or 150.
    pub compensation_parameter: u8,
    /// The mantissa of the oracle price of one x in y; zero when there is none.
    pub oracle_price: u64,
    /// The decimal count of the oracle price.
    pub oracle_exponent: u8,
    /// The numerator of the fee rate.
    pub fee_numerator: u64,
    /// The denominator of the fee rate.
    pub fee_denominator: u64,
}

/// The record of a priced swap.
#[derive(Clone, Copy, Debug, PartialEq, Eq, Structural)]
pub struct SwapResult {
    /// The product of the two reserves before the swap.
    pub k: u128,
    /// The reserve of x after the swap.
    pub x_new: u64,
    /// The reserve of y after the swap.
    pub y_new: u64,
    /// The amount of x that changes hands: added for `XToY`, paid out for `YToX`.
    pub delta_x: u64,
    /// The amount of y that changes hands: paid out for `XToY`, added for `YToX`.
    pub delta_y: u64,
    /// The part of the input that is the fee; it stays in the pool.
    pub fee_collected: u64,
}

impl SwapResult {
    /// The amount that the pool pays out.
    pub open spec fn spec_paid(self, direction: Direction) -> u64 {
        match direction {
            Direction::XToY => self.delta_y,
            Direction::YToX => self.delta_x,
        }
    }

    /// The amount that the pool pays out: `delta_y` of a swap from x to y,
    /// `delta_x` of one from y to x.
    pub fn paid(&self, direction: Direction) -> (r: u64)
        ensures
            r == self.spec_paid(direction),
    {
        match direction {
            Direction::XToY => self.delta_y,
            Direction::YToX => self.delta_x,
        }
    }

    /// The same record with the two assets exchanged.
    pub open spec fn mirrored(self) -> SwapResult {
        SwapResult {
            x_new: self.y_new,
            y_new: self.x_new,
            delta_x: self.delta_y,
            delta_y: self.delta_x,
            ..self
        }
    }

    /// The amount that the pool takes in, fee included.
    pub open spec fn spec_received(self, direction: Direction) -> u64 {
        match direction {
            Direction::XToY => self.delta_x,
            Direction::YToX => self.delta_y,
        }
    }

    /// The amount that the pool takes in, fee included: `delta_x` of a swap
    /// from x to y, `delta_y` of one from y to x.
    pub fn received(&self, direction: Direction) -> (r: u64)
        ensures
            r == self.spec_received(direction),
    {
        match direction {
            Direction::XToY => self.delta_x,
            Direction::YToX => self.delta_y,
        }
    }
}

/// Whether `c` is one of the compensation strengths: none, 1, 1.25 or 1.5.
pub open spec fn is_compensation_parameter(c: u8) -> bool {
    c == 0 || c == 100 || c == 125 || c == 150
}

/// What [`swap_fee`] returns: `floor(amount_in * numerator / denominator)`.
pub open spec fn spec_swap_fee(amount_in: u64, numerator: u64, denominator: u64) -> Result<
    u64,
    MathError,
> {
    if denominator == 0 {
        Err(MathError::DivideByZero)
    } else if (amount_in * numerator) / (denominator as int) > amount_in {
        Err(MathError::Underflow)
    } else {
        Ok(((amount_in * numerator) / (denominator as int)) as u64)
    }
}

/// The fee on `amount_in` at the rate `numerator / denominator`, rounded down.
///
/// Fails with `DivideByZero` for a zero denominator and with `Underflow`
/// when the fee would exceed the amount, which a rate above one can cause.
pub fn swap_fee(amount_in: u64, numerator: u64, denominator: u64) -> (r: Result<u64, MathError>)
    ensures
        r == spec_swap_fee(amount_in, numerator, denominator),
{
    if denominator == 0 {
        return Err(MathError::DivideByZero);
    }
    proof {
        assert(amount_in * numerator <= u64::MAX * u64::MAX) by (nonlinear_arith);
    }
    let product: u128 = (amount_in as u128) * (numerator as u128);
    let fee: u128 = product / (denominator as u128);
    if fee > amount_in as u128 {
        Err(MathError::Underflow)
    } else {
        Ok(fee as u64)
    }
}

/// What is left in the paying reserve by the constant-product rule:
/// `floor(reserve_in * reserve_out / (reserve_in + net_in))`.
pub open spec fn spec_reserve_kept(reserve_in: u64, reserve_out: u64, net_in: u64) -> int {
    (reserve_in * reserve_out) / (reserve_in + net_in)
}

/// What [`constant_product_out`] returns.
pub open spec fn spec_constant_product_out(reserve_in: u64, reserve_out: u64, net_in: u64) -> Result<
    u64,
    MathError,
> {
    if reserve_in + net_in == 0 {
        Err(MathError::DivideByZero)
    } else {
        Ok((reserve_out - spec_reserve_kept(reserve_in, reserve_out, net_in)) as u64)
    }
}

/// The kept reserve is never more than the reserve.
pub proof fn lemma_reserve_kept_bounds(reserve_in: u64, reserve_out: u64, net_in: u64)
    requires
        reserve_in + net_in > 0,
    ensures
        0 <= spec_reserve_kept(reserve_in, reserve_out, net_in) <= reserve_out,
{
    let k: int = reserve_in * reserve_out;
    let t: int = reserve_in + net_in;
    let q: int = k / t;
    vstd::arithmetic::div_mod::lemma_fundamental_div_mod(k, t);
    vstd::arithmetic::div_mod::lemma_mod_bound(k, t);
    assert(0 <= k) by (nonlinear_arith)
        requires
            k == reserve_in * reserve_out,
    ;
    assert(0 <= q <= reserve_out) by (nonlinear_arith)
        requires
            k == t * q + k % t,
            0 <= k % t < t,
            0 <= k,
            k == reserve_in * reserve_out,
            t == reserve_in + net_in,
            t > 0,
    {
        if q > reserve_out {
            assert(t * q >= t * (reserve_out + 1));
            assert(t * (reserve_out + 1) >= reserve_in * reserve_out + t);
        }
        if q < 0 {
            assert(t * q <= -t);
        }
    }
}

/// The amount that the constant-product rule pays for `net_in`:
/// `reserve_out - floor(reserve_in * reserve_out / (reserve_in + net_in))`.
///
/// Fails with `DivideByZero` when the receiving reserve and the input are
/// both zero.
pub fn constant_product_out(reserve_in: u64, reserve_out: u64, net_in: u64) -> (r: Result<
    u64,
    MathError,
>)
    ensures
        r == spec_constant_product_out(reserve_in, reserve_out, net_in),
{
    let total: u128 = reserve_in as u128 + net_in as u128;
    if total == 0 {
        return Err(MathError::DivideByZero);
    }
    proof {
        assert(reserve_in * reserve_out <= u64::MAX * u64::MAX) by (nonlinear_arith);
        lemma_reserve_kept_bounds(reserve_in, reserve_out, net_in);
    }
    let k: u128 = (reserve_in as u128) * (reserve_out as u128);
    let kept: u128 = k / total;
    Ok((reserve_out as u128 - kept) as u64)
}

/// The weighted mean of the constant-product amount and the oracle-priced
/// amount, rounded down: `floor(cp * w + oracle * (1 - w))`, with `w` the
/// weight as a fraction of one.
pub open spec fn spec_blend(cp: u64, oracle: u128, weight: Decimal) -> int {
    (cp * weight.value + oracle * (ONE - weight.value)) / (ONE as int)
}

/// The blend lies between its two ends.
pub proof fn lemma_blend_between(cp: u64, oracle: u128, weight: Decimal)
    requires
        weight.value <= ONE,
    ensures
        cp <= oracle ==> cp <= spec_blend(cp, oracle, weight) <= oracle,
        oracle <= cp ==> oracle <= spec_blend(cp, oracle, weight) <= cp,
        cp <= oracle ==> spec_blend(cp, oracle, weight) == cp + ((oracle - cp) * (ONE
            - weight.value)) / (ONE as int),
        oracle <= cp ==> spec_blend(cp, oracle, weight) == oracle + ((cp - oracle) * weight.value)
            / (ONE as int),
{
    let w: int = weight.value as int;
    let one: int = ONE as int;
    let num: int = cp * w + oracle * (one - w);
    if cp <= oracle {
        let z: int = (oracle - cp) * (one - w);
        assert(num == z + cp * one) by (nonlinear_arith)
            requires
                num == cp * w + oracle * (one - w),
                z == (oracle - cp) * (one - w),
        ;
        vstd::arithmetic::div_mod::lemma_hoist_over_denominator(z, cp as int, one as nat);
        assert(0 <= z <= (oracle - cp) * one) by (nonlinear_arith)
            requires
                z == (oracle - cp) * (one - w),
                0 <= w <= one,
                cp <= oracle,
        ;
        vstd::arithmetic::div_mod::lemma_div_is_ordered(0, z, one);
        vstd::arithmetic::div_mod::lemma_div_is_ordered(z, (oracle - cp) * one, one);
        vstd::arithmetic::div_mod::lemma_div_by_multiple(oracle - cp, one);
    }
    if oracle <= cp {
        let z: int = (cp - oracle) * w;
        assert(num == z + oracle * one) by (nonlinear_arith)
            requires
                num == cp * w + oracle * (one - w),
                z == (cp - oracle) * w,
        ;
        vstd::arithmetic::div_mod::lemma_hoist_over_denominator(z, oracle as int, one as nat);
        assert(0 <= z <= (cp - oracle) * one) by (nonlinear_arith)
            requires
                z == (cp - oracle) * w,
                0 <= w <= one,
                oracle <= cp,
        ;
        vstd::arithmetic::div_mod::lemma_div_is_ordered(0, z, one);
        vstd::arithmetic::div_mod::lemma_div_is_ordered(z, (cp - oracle) * one, one);
        vstd::arithmetic::div_mod::lemma_div_by_multiple(cp - oracle, one);
    }
}

/// The weighted mean of the two amounts, with `weight` on the
/// constant-product amount; see [`spec_blend`].
pub fn blend(cp: u64, oracle: u128, weight: Decimal) -> (r: u128)
    requires
        weight.value <= ONE,
    ensures
        r == spec_blend(cp, oracle, weight),
{
    proof {
        lemma_blend_between(cp, oracle, weight);
    }
    if cp as u128 <= oracle {
        cp as u128 + mul_fraction_floor(oracle - cp as u128, ONE - weight.value, ONE)
    } else {
        oracle + mul_fraction_floor(cp as u128 - oracle, weight.value, ONE)
    }
}

impl PoolConfig {
    /// The fee rate is at most one and the compensation strength is one of
    /// the four that exist.
    pub open spec fn is_valid(self) -> bool {
        self.fee_numerator <= self.fee_denominator && is_compensation_parameter(
            self.compensation_parameter,
        )
    }

    /// The same pool without compensation and without an oracle.
    pub open spec fn constant_product_only(self) -> PoolConfig {
        PoolConfig { compensation_parameter: 0, oracle_price: 0, oracle_exponent: 0, ..self }
    }

    /// The same pool with the two assets exchanged.
    pub open spec fn mirrored(self) -> PoolConfig {
        PoolConfig {
            reserve_x: self.reserve_y,
            decimals_x: self.decimals_y,
            reserve_y: self.reserve_x,
            decimals_y: self.decimals_x,
            ..self
        }
    }

    /// The same pool with another fee numerator.
    pub open spec fn with_fee_numerator(self, fee_numerator: u64) -> PoolConfig {
        PoolConfig { fee_numerator, ..self }
    }

    /// Whether the oracle enters the price: there is a compensation strength
    /// and an oracle price.
    pub open spec fn is_hybrid(self) -> bool {
        self.compensation_parameter > 0 && self.oracle_price > 0
    }

    /// The reserve that receives the input.
    pub open spec fn reserve_in(self, direction: Direction) -> u64 {
        match direction {
            Direction::XToY => self.reserve_x,
            Direction::YToX => self.reserve_y,
        }
    }

    /// The reserve that pays.
    pub open spec fn reserve_out(self, direction: Direction) -> u64 {
        match direction {
            Direction::XToY => self.reserve_y,
            Direction::YToX => self.reserve_x,
        }
    }

    /// The decimal count of the asset that comes in.
    pub open spec fn decimals_in(self, direction: Direction) -> u8 {
        match direction {
            Direction::XToY => self.decimals_x,
            Direction::YToX => self.decimals_y,
        }
    }

    /// The decimal count of the asset that is paid out.
    pub open spec fn decimals_out(self, direction: Direction) -> u8 {
        match direction {
            Direction::XToY => self.decimals_y,
            Direction::YToX => self.decimals_x,
        }
    }

    /// Whether the settings are valid; see [`PoolConfig::is_valid`].
    pub fn check(&self) -> (r: bool)
        ensures
            r == self.is_valid(),
    {
        let c: u8 = self.compensation_parameter;
        self.fee_numerator <= self.fee_denominator && (c == 0 || c == 100 || c == 125 || c == 150)
    }

    /// What [`PoolConfig::price_ratio`] returns.
    ///
    /// The pool's marginal price of x in y is `Y / X`, with both reserves at
    /// the compute scale. The ratio is the smaller of that price and the
    /// oracle price, divided by the larger.
    pub open spec fn spec_price_ratio(self) -> Result<Decimal, MathError> {
        match Decimal::spec_from_native(self.reserve_x as u128, self.decimals_x) {
            Err(e) => Err(e),
            Ok(xd) => match Decimal::spec_from_native(self.reserve_y as u128, self.decimals_y) {
                Err(e) => Err(e),
                Ok(yd) => match yd.spec_checked_div_floor(xd) {
                    Err(e) => Err(e),
                    Ok(marginal) => match Decimal::spec_from_native(
                        self.oracle_price as u128,
                        self.oracle_exponent,
                    ) {
                        Err(e) => Err(e),
                        Ok(price) => if price.value <= marginal.value {
                            price.spec_checked_div_floor(marginal)
                        } else {
                            marginal.spec_checked_div_floor(price)
                        },
                    },
                },
            },
        }
    }

    /// How far the pool's marginal price and the oracle price agree: their
    /// ratio, smaller over larger, so one when they are equal and less the
    /// further they are apart.
    pub fn price_ratio(&self) -> (r: Result<Decimal, MathError>)
        ensures
            r == self.spec_price_ratio(),
    {
        let xd: Decimal = Decimal::from_native(self.reserve_x as u128, self.decimals_x)?;
        let yd: Decimal = Decimal::from_native(self.reserve_y as u128, self.decimals_y)?;
        let marginal: Decimal = yd.checked_div_floor(xd)?;
        let price: Decimal = Decimal::from_native(self.oracle_price as u128, self.oracle_exponent)?;
        if price.value <= marginal.value {
            price.checked_div_floor(marginal)
        } else {
            marginal.checked_div_floor(price)
        }
    }

    /// What [`PoolConfig::blend_weight`] returns: the price ratio raised to
    /// the compensation strength.
    pub open spec fn spec_blend_weight(self) -> Result<Decimal, MathError> {
        match self.spec_price_ratio() {
            Err(e) => Err(e),
            Ok(ratio) => match Decimal::spec_from_native(self.compensation_parameter as u128, 2) {
                Err(e) => Err(e),
                Ok(strength) => ratio.spec_checked_pow_fraction(strength),
            },
        }
    }

    /// The weight that the constant-product amount keeps in the blend: the
    /// price ratio raised to the compensation strength. It is one when the
    /// prices agree, and smaller the further they are apart and the stronger
    /// the compensation.
    pub fn blend_weight(&self) -> (r: Result<Decimal, MathError>)
        ensures
            r == self.spec_blend_weight(),
    {
        let ratio: Decimal = self.price_ratio()?;
        let strength: Decimal = Decimal::from_native(self.compensation_parameter as u128, 2)?;
        ratio.checked_pow_fraction(strength)
    }

    /// What [`PoolConfig::oracle_out`] returns.
    pub open spec fn spec_oracle_out(self, direction: Direction, net_in: u64) -> Result<
        u128,
        MathError,
    > {
        match Decimal::spec_from_native(self.oracle_price as u128, self.oracle_exponent) {
            Err(e) => Err(e),
            Ok(price) => match Decimal::spec_from_native(
                net_in as u128,
                self.decimals_in(direction),
            ) {
                Err(e) => Err(e),
                Ok(input) => match direction {
                    Direction::XToY => match input.spec_checked_mul(price) {
                        Err(e) => Err(e),
                        Ok(paid) => paid.spec_to_native(self.decimals_y, Rounding::Floor),
                    },
                    Direction::YToX => match input.spec_checked_div_floor(price) {
                        Err(e) => Err(e),
                        Ok(paid) => paid.spec_to_native(self.decimals_x, Rounding::Floor),
                    },
                },
            },
        }
    }

    /// The amount that the oracle price pays for `net_in`, in native units of
    /// the paying asset, rounded down: the input times the price for
    /// `XToY`, the input divided by the price for `YToX`.
    pub fn oracle_out(&self, direction: Direction, net_in: u64) -> (r: Result<u128, MathError>)
        ensures
            r == self.spec_oracle_out(direction, net_in),
    {
        let price: Decimal = Decimal::from_native(self.oracle_price as u128, self.oracle_exponent)?;
        match direction {
            Direction::XToY => {
                let input: Decimal = Decimal::from_native(net_in as u128, self.decimals_x)?;
                let paid: Decimal = input.checked_mul(price)?;
                paid.to_native(self.decimals_y, Rounding::Floor)
            },
            Direction::YToX => {
                let input: Decimal = Decimal::from_native(net_in as u128, self.decimals_y)?;
                let paid: Decimal = input.checked_div_floor(price)?;
                paid.to_native(self.decimals_x, Rounding::Floor)
            },
        }
    }
}

impl PoolConfig {
    /// What [`PoolConfig::amount_out`] returns.
    ///
    /// Without a compensation strength or without an oracle price it is the
    /// constant-product amount. Otherwise it is the blend of that amount and
    /// the oracle-priced amount, with the blend weight on the former.
    pub open spec fn spec_amount_out(self, direction: Direction, net_in: u64) -> Result<
        u128,
        MathError,
    > {
        match spec_constant_product_out(
            self.reserve_in(direction),
            self.reserve_out(direction),
            net_in,
        ) {
            Err(e) => Err(e),
            Ok(cp) => if !self.is_hybrid() {
                Ok(cp as u128)
            } else {
                match self.spec_blend_weight() {
                    Err(e) => Err(e),
                    Ok(weight) => match self.spec_oracle_out(direction, net_in) {
                        Err(e) => Err(e),
                        Ok(oracle) => Ok(spec_blend(cp, oracle, weight) as u128),
                    },
                }
            },
        }
    }

    /// The amount paid for a net input of `net_in`, before it is held against
    /// the paying reserve.
    pub fn amount_out(&self, direction: Direction, net_in: u64) -> (r: Result<u128, MathError>)
        ensures
            r == self.spec_amount_out(direction, net_in),
    {
        let cp: u64 = match direction {
            Direction::XToY => constant_product_out(self.reserve_x, self.reserve_y, net_in)?,
            Direction::YToX => constant_product_out(self.reserve_y, self.reserve_x, net_in)?,
        };
        if self.compensation_parameter == 0 || self.oracle_price == 0 {
            return Ok(cp as u128);
        }
        let weight: Decimal = self.blend_weight()?;
        let oracle: u128 = self.oracle_out(direction, net_in)?;
        proof {
            self.lemma_blend_weight_at_most_one();
        }
        Ok(blend(cp, oracle, weight))
    }

    /// The blend weight, where it exists, is at most one.
    pub proof fn lemma_blend_weight_at_most_one(self)
        ensures
            self.spec_blend_weight() matches Ok(weight) ==> weight.value <= ONE,
            self.spec_price_ratio() matches Ok(ratio) ==> ratio.value <= ONE,
    {
        if let Ok(ratio) = self.spec_price_ratio() {
            let xd: Decimal = Decimal::spec_from_native(self.reserve_x as u128, self.decimals_x)->Ok_0;
            let yd: Decimal = Decimal::spec_from_native(self.reserve_y as u128, self.decimals_y)->Ok_0;
            let marginal: Decimal = yd.spec_checked_div_floor(xd)->Ok_0;
            let price: Decimal = Decimal::spec_from_native(
                self.oracle_price as u128,
                self.oracle_exponent,
            )->Ok_0;
            if price.value <= marginal.value {
                lemma_ratio_at_most_one(price, marginal);
            } else {
                lemma_ratio_at_most_one(marginal, price);
            }
            if let Ok(strength) = Decimal::spec_from_native(self.compensation_parameter as u128, 2) {
                if let Ok(weight) = ratio.spec_checked_pow_fraction(strength) {
                    crate::decimal::lemma_pow_fraction_at_most_one(ratio, strength);
                }
            }
        }
    }

    /// The record of a swap that takes `amount_in` in and pays `amount_out`.
    pub open spec fn spec_result(
        self,
        direction: Direction,
        amount_in: u64,
        amount_out: u64,
        fee: u64,
    ) -> SwapResult {
        match direction {
            Direction::XToY => SwapResult {
                k: (self.reserve_x * self.reserve_y) as u128,
                x_new: (self.reserve_x + amount_in) as u64,
                y_new: (self.reserve_y - amount_out) as u64,
                delta_x: amount_in,
                delta_y: amount_out,
                fee_collected: fee,
            },
            Direction::YToX => SwapResult {
                k: (self.reserve_x * self.reserve_y) as u128,
                x_new: (self.reserve_x - amount_out) as u64,
                y_new: (self.reserve_y + amount_in) as u64,
                delta_x: amount_out,
                delta_y: amount_in,
                fee_collected: fee,
            },
        }
    }

    /// What [`PoolConfig::swap`] returns.
    ///
    /// The fee is taken off the input, the rest is priced, and the priced
    /// amount must leave something in the paying reserve.
    pub open spec fn spec_swap(self, direction: Direction, amount_in: u64) -> Result<
        SwapResult,
        MathError,
    > {
        match spec_swap_fee(amount_in, self.fee_numerator, self.fee_denominator) {
            Err(e) => Err(e),
            Ok(fee) => match self.spec_amount_out(direction, (amount_in - fee) as u64) {
                Err(e) => Err(e),
                Ok(amount_out) => if amount_out >= self.reserve_out(direction) {
                    Err(MathError::InsufficientLiquidity)
                } else if self.reserve_in(direction) + amount_in > u64::MAX {
                    Err(MathError::Overflow)
                } else {
                    Ok(self.spec_result(direction, amount_in, amount_out as u64, fee))
                },
            },
        }
    }

    /// Prices a swap of `amount_in` in the given direction.
    ///
    /// Fails with `InsufficientLiquidity` when the paid amount would be the
    /// whole paying reserve or more, with `Overflow` when the receiving
    /// reserve would not fit or a step of the pricing leaves the
    /// representable range, and with `DivideByZero` when a divisor of the
    /// pricing is zero. Settings that are not valid can also give `Underflow`
    /// (a fee above the input) and `InvalidExponent` (a compensation strength
    /// that is no quarter step).
    pub fn swap(&self, direction: Direction, amount_in: u64) -> (r: Result<SwapResult, MathError>)
        ensures
            r == self.spec_swap(direction, amount_in),
    {
        let fee: u64 = swap_fee(amount_in, self.fee_numerator, self.fee_denominator)?;
        let amount_out: u128 = self.amount_out(direction, amount_in - fee)?;
        let (reserve_in, reserve_out): (u64, u64) = match direction {
            Direction::XToY => (self.reserve_x, self.reserve_y),
            Direction::YToX => (self.reserve_y, self.reserve_x),
        };
        if amount_out >= reserve_out as u128 {
            return Err(MathError::InsufficientLiquidity);
        }
        if reserve_in > u64::MAX - amount_in {
            return Err(MathError::Overflow);
        }
        proof {
            assert(self.reserve_x * self.reserve_y <= u64::MAX * u64::MAX) by (nonlinear_arith);
        }
        let k: u128 = (self.reserve_x as u128) * (self.reserve_y as u128);
        let paid: u64 = amount_out as u64;
        match direction {
            Direction::XToY => Ok(
                SwapResult {
                    k,
                    x_new: self.reserve_x + amount_in,
                    y_new: self.reserve_y - paid,
                    delta_x: amount_in,
                    delta_y: paid,
                    fee_collected: fee,
                },
            ),
            Direction::YToX => Ok(
                SwapResult {
                    k,
                    x_new: self.reserve_x - paid,
                    y_new: self.reserve_y + amount_in,
                    delta_x: paid,
                    delta_y: amount_in,
                    fee_collected: fee,
                },
            ),
        }
    }
}

/// A quotient of a smaller by a larger number is at most one.
pub proof fn lemma_ratio_at_most_one(small: Decimal, large: Decimal)
    requires
        small.value <= large.value,
    ensures
        small.spec_checked_div_floor(large) matches Ok(ratio) ==> ratio.value <= ONE,
{
    let a: int = small.value as int;
    let b: int = large.value as int;
    if b > 0 {
        assert(a * ONE <= b * ONE) by (nonlinear_arith)
            requires
                a <= b,
        ;
        vstd::arithmetic::div_mod::lemma_div_is_ordered(a * ONE, b * ONE, b);
        assert(b * ONE == ONE * b) by (nonlinear_arith);
        vstd::arithmetic::div_mod::lemma_div_by_multiple(ONE as int, b);
    }
}

/// The swap calculator: valid pool settings, ready to price swaps in either
/// direction. It holds no state beyond the settings it was made from.
#[derive(Clone, Copy, Debug)]
pub struct SwapCalculator {
    config: PoolConfig,
}

impl View for SwapCalculator {
    type V = PoolConfig;

    /// The settings that the calculator was made from.
    closed spec fn view(&self) -> PoolConfig {
        self.config
    }
}

impl SwapCalculator {
    #[verifier::type_invariant]
    spec fn holds_valid_config(self) -> bool {
        self.config.is_valid()
    }

    /// A calculator for a pool with the given reserves and settings.
    ///
    /// The fee rate must be at most one and the compensation parameter one of
    /// 0, 100, 125 and 150. An oracle price of zero means that there is none.
    pub fn new(
        x: u64,
        x_decimals: u8,
        y: u64,
        y_decimals: u8,
        compensation_parameter: u8,
        oracle_price: u64,
        oracle_exponent: u8,
        fee_numerator: u64,
        fee_denominator: u64,
    ) -> (r: SwapCalculator)
        requires
            fee_numerator <= fee_denominator,
            is_compensation_parameter(compensation_parameter),
        ensures
            r@ == (PoolConfig {
                reserve_x: x,
                decimals_x: x_decimals,
                reserve_y: y,
                decimals_y: y_decimals,
                compensation_parameter,
                oracle_price,
                oracle_exponent,
                fee_numerator,
                fee_denominator,
            }),
    {
        SwapCalculator {
            config: PoolConfig {
                reserve_x: x,
                decimals_x: x_decimals,
                reserve_y: y,
                decimals_y: y_decimals,
                compensation_parameter,
                oracle_price,
                oracle_exponent,
                fee_numerator,
                fee_denominator,
            },
        }
    }

    /// A calculator for the given settings, or `None` when they are not valid.
    pub fn from_config(config: PoolConfig) -> (r: Option<SwapCalculator>)
        ensures
            config.is_valid() ==> r is Some && r->Some_0@ == config,
            !config.is_valid() ==> r is None,
    {
        if config.check() {
            Some(SwapCalculator { config })
        } else {
            None
        }
    }

    /// The settings that the calculator was made from. They are valid.
    pub fn config(&self) -> (r: PoolConfig)
        ensures
            r == self@,
            r.is_valid(),
    {
        proof {
            use_type_invariant(self);
        }
        self.config
    }

    /// Prices a swap that takes `amount_in` of x and pays y.
    ///
    /// Fails with `InsufficientLiquidity`, `Overflow` or `DivideByZero`, as
    /// [`PoolConfig::swap`] says, and with nothing else.
    pub fn swap_x_to_y(&self, amount_in: u64) -> (r: Result<SwapResult, MathError>)
        ensures
            r == self@.spec_swap(Direction::XToY, amount_in),
            self@.is_valid(),
            r matches Err(e) ==> e == MathError::InsufficientLiquidity || e == MathError::Overflow
                || e == MathError::DivideByZero,
    {
        proof {
            use_type_invariant(self);
            lemma_swap_errors(self.config, Direction::XToY, amount_in);
        }
        self.config.swap(Direction::XToY, amount_in)
    }

    /// Prices a swap that takes `amount_in` of y and pays x.
    ///
    /// Fails with `InsufficientLiquidity`, `Overflow` or `DivideByZero`, as
    /// [`PoolConfig::swap`] says, and with nothing else.
    pub fn swap_y_to_x(&self, amount_in: u64) -> (r: Result<SwapResult, MathError>)
        ensures
            r == self@.spec_swap(Direction::YToX, amount_in),
            self@.is_valid(),
            r matches Err(e) ==> e == MathError::InsufficientLiquidity || e == MathError::Overflow
                || e == MathError::DivideByZero,
    {
        proof {
            use_type_invariant(self);
            lemma_swap_errors(self.config, Direction::YToX, amount_in);
        }
        self.config.swap(Direction::YToX, amount_in)
    }
}

/// With valid settings a swap fails in three ways only: the pool cannot pay,
/// a value leaves the representable range, or a divisor is zero.
pub proof fn lemma_swap_errors(config: PoolConfig, direction: Direction, amount_in: u64)
    requires
        config.is_valid(),
    ensures
        config.spec_swap(direction, amount_in) matches Err(e) ==> e
            == MathError::InsufficientLiquidity || e == MathError::Overflow || e
            == MathError::DivideByZero,
{
    let fee_result = spec_swap_fee(amount_in, config.fee_numerator, config.fee_denominator);
    if config.fee_denominator > 0 {
        lemma_fee_at_most_amount(amount_in, config.fee_numerator, config.fee_denominator);
        let fee: u64 = fee_result->Ok_0;
        let net: u64 = (amount_in - fee) as u64;
        if config.is_hybrid() {
            lemma_hybrid_errors(config, direction, net);
        }
    }
}

/// A fee at a rate of at most one is at most the amount.
pub proof fn lemma_fee_at_most_amount(amount_in: u64, numerator: u64, denominator: u64)
    requires
        numerator <= denominator,
        denominator > 0,
    ensures
        0 <= (amount_in * numerator) / (denominator as int) <= amount_in,
{
    let p: int = amount_in * numerator;
    assert(0 <= p <= amount_in * denominator) by (nonlinear_arith)
        requires
            p == amount_in * numerator,
            numerator <= denominator,
    ;
    vstd::arithmetic::div_mod::lemma_div_is_ordered(0, p, denominator as int);
    vstd::arithmetic::div_mod::lemma_div_is_ordered(p, amount_in * denominator, denominator as int);
    vstd::arithmetic::div_mod::lemma_div_by_multiple(amount_in as int, denominator as int);
}

/// The steps that bring the oracle in fail by overflow or by a zero divisor
/// only, when the compensation strength is one that exists.
pub proof fn lemma_hybrid_errors(config: PoolConfig, direction: Direction, net_in: u64)
    requires
        is_compensation_parameter(config.compensation_parameter),
    ensures
        config.spec_blend_weight() matches Err(e) ==> e == MathError::Overflow || e
            == MathError::DivideByZero,
        config.spec_oracle_out(direction, net_in) matches Err(e) ==> e == MathError::Overflow || e
            == MathError::DivideByZero,
{
    config.lemma_blend_weight_at_most_one();
    crate::decimal::lemma_pow10_table();
    let c: u128 = config.compensation_parameter as u128;
    assert((c * ONE) / 100 == c * 10_000_000_000);
    let strength: Decimal = Decimal { value: (c * 10_000_000_000) as u128 };
    assert(Decimal::spec_from_native(c, 2) == Ok::<Decimal, MathError>(strength));
    assert(Decimal::is_quarter_step(strength.value % ONE));
    if let Ok(ratio) = config.spec_price_ratio() {
        crate::decimal::lemma_pow_fraction_at_most_one(ratio, strength);
    }
}

} // verus!
