//! What holds of pricing whatever the inputs.
//!
//! Each law is a proof over the functions that say what a swap returns, so it
//! holds of every call of the executable functions.
use crate::decimal::{
    lemma_checked_div_floor_monotonic,
    lemma_checked_mul_monotonic,
    lemma_from_native_monotonic,
    lemma_to_native_floor_monotonic,
    Decimal,
    Rounding,
    ONE,
};
use crate::error::MathError;
use crate::liquidity::spec_calculate_k;
use crate::swap::{
    lemma_blend_between,
    lemma_reserve_kept_bounds,
    spec_blend,
    spec_constant_product_out,
    spec_reserve_kept,
    spec_swap_fee,
    Direction,
    PoolConfig,
    SwapResult,
};
use vstd::arithmetic::div_mod::{
    lemma_div_is_ordered,
    lemma_div_is_ordered_by_denominator,
    lemma_fundamental_div_mod,
    lemma_mod_bound,
};
use vstd::prelude::*;

verus! {

/// Without compensation, or without an oracle price, a swap is the
/// constant-product swap: it returns what the same pool returns with
/// compensation and oracle taken away, and the paid amount is the
/// constant-product amount of the net input.
pub proof fn lemma_compensation_boundary(config: PoolConfig, direction: Direction, amount_in: u64)
    requires
        config.compensation_parameter == 0 || config.oracle_price == 0,
    ensures
        config.spec_swap(direction, amount_in) == config.constant_product_only().spec_swap(
            direction,
            amount_in,
        ),
        config.spec_swap(direction, amount_in) matches Ok(result) ==> spec_constant_product_out(
            config.reserve_in(direction),
            config.reserve_out(direction),
            (amount_in - result.fee_collected) as u64,
        ) == Ok::<u64, MathError>(result.spec_paid(direction)),
{
    let plain: PoolConfig = config.constant_product_only();
    if let Ok(fee) = spec_swap_fee(amount_in, config.fee_numerator, config.fee_denominator) {
        let net: u64 = (amount_in - fee) as u64;
        assert(config.spec_amount_out(direction, net) == plain.spec_amount_out(direction, net));
        if config.reserve_in(direction) + net > 0 {
            lemma_reserve_kept_bounds(
                config.reserve_in(direction),
                config.reserve_out(direction),
                net,
            );
        }
    }
}

/// A swap from y to x is the swap from x to y on the pool with its two
/// assets exchanged, where the oracle does not enter the price: the results
/// are the same record with the assets exchanged, or the same error.
pub proof fn lemma_swap_mirrors(config: PoolConfig, amount_in: u64)
    requires
        !config.is_hybrid(),
    ensures
        config.spec_swap(Direction::YToX, amount_in) == match config.mirrored().spec_swap(
            Direction::XToY,
            amount_in,
        ) {
            Ok(result) => Ok::<SwapResult, MathError>(result.mirrored()),
            Err(e) => Err(e),
        },
{
    assert(config.reserve_x * config.reserve_y == config.reserve_y * config.reserve_x)
        by (nonlinear_arith);
}

/// A constant-product swap without a fee never raises the product of the
/// reserves above its value before the swap, and keeps it exactly where the
/// new receiving reserve divides the old product. Otherwise the
/// rounded-down kept reserve leaves the product lower.
pub proof fn lemma_constant_product_conservation(
    config: PoolConfig,
    direction: Direction,
    amount_in: u64,
)
    requires
        config.fee_numerator == 0,
        !config.is_hybrid(),
        config.spec_swap(direction, amount_in) is Ok,
    ensures
        ({
            let result: SwapResult = config.spec_swap(direction, amount_in)->Ok_0;
            let divides: bool = (config.reserve_x * config.reserve_y) % (config.reserve_in(
                direction,
            ) + amount_in) == 0;
            &&& result.k == config.reserve_x * config.reserve_y
            &&& result.x_new * result.y_new <= result.k
            &&& result.x_new * result.y_new >= result.k <==> divides
        }),
{
    let rin: int = config.reserve_in(direction) as int;
    let rout: int = config.reserve_out(direction) as int;
    let total: int = rin + amount_in;
    let kept: int = spec_reserve_kept(
        config.reserve_in(direction),
        config.reserve_out(direction),
        amount_in,
    );
    assert((amount_in * 0) / (config.fee_denominator as int) == 0) by {
        assert(amount_in * 0 == 0);
        vstd::arithmetic::div_mod::lemma_div_of0(config.fee_denominator as int);
    }
    lemma_reserve_kept_bounds(config.reserve_in(direction), config.reserve_out(direction), amount_in);
    let k: int = rin * rout;
    assert(config.reserve_x * config.reserve_y == k) by (nonlinear_arith)
        requires
            k == rin * rout,
            (rin == config.reserve_x && rout == config.reserve_y) || (rin == config.reserve_y
                && rout == config.reserve_x),
    ;
    assert(0 <= k <= u64::MAX * u64::MAX) by (nonlinear_arith)
        requires
            k == rin * rout,
            0 <= rin <= u64::MAX,
            0 <= rout <= u64::MAX,
    ;
    lemma_fundamental_div_mod(k, total);
    lemma_mod_bound(k, total);
    let result: SwapResult = config.spec_swap(direction, amount_in)->Ok_0;
    assert(result.x_new * result.y_new == total * kept) by (nonlinear_arith)
        requires
            (result.x_new == total && result.y_new == kept) || (result.x_new == kept
                && result.y_new == total),
    ;
}

/// The kept reserve of the constant-product rule never grows with the input,
/// so the paid amount never shrinks with it.
pub proof fn lemma_constant_product_monotonic(
    reserve_in: u64,
    reserve_out: u64,
    net1: u64,
    net2: u64,
)
    requires
        net1 <= net2,
        reserve_in + net1 > 0,
    ensures
        spec_constant_product_out(reserve_in, reserve_out, net1)->Ok_0
            <= spec_constant_product_out(reserve_in, reserve_out, net2)->Ok_0,
{
    let k: int = reserve_in * reserve_out;
    assert(0 <= k) by (nonlinear_arith)
        requires
            k == reserve_in * reserve_out,
    ;
    lemma_div_is_ordered_by_denominator(k, reserve_in + net1, reserve_in + net2);
    lemma_reserve_kept_bounds(reserve_in, reserve_out, net1);
    lemma_reserve_kept_bounds(reserve_in, reserve_out, net2);
}

/// The oracle-priced amount never shrinks when the input grows.
pub proof fn lemma_oracle_out_monotonic(
    config: PoolConfig,
    direction: Direction,
    net1: u64,
    net2: u64,
)
    requires
        net1 <= net2,
        config.spec_oracle_out(direction, net2) is Ok,
    ensures
        config.spec_oracle_out(direction, net1) is Ok,
        config.spec_oracle_out(direction, net1)->Ok_0 <= config.spec_oracle_out(
            direction,
            net2,
        )->Ok_0,
{
    let price: Decimal = Decimal::spec_from_native(
        config.oracle_price as u128,
        config.oracle_exponent,
    )->Ok_0;
    let scale: u8 = config.decimals_in(direction);
    lemma_from_native_monotonic(net1 as u128, net2 as u128, scale);
    let input1: Decimal = Decimal::spec_from_native(net1 as u128, scale)->Ok_0;
    let input2: Decimal = Decimal::spec_from_native(net2 as u128, scale)->Ok_0;
    match direction {
        Direction::XToY => {
            lemma_checked_mul_monotonic(input1, input2, price);
            lemma_to_native_floor_monotonic(
                input1.spec_checked_mul(price)->Ok_0,
                input2.spec_checked_mul(price)->Ok_0,
                config.decimals_y,
            );
        },
        Direction::YToX => {
            lemma_checked_div_floor_monotonic(input1, input2, price);
            lemma_to_native_floor_monotonic(
                input1.spec_checked_div_floor(price)->Ok_0,
                input2.spec_checked_div_floor(price)->Ok_0,
                config.decimals_x,
            );
        },
    }
}

/// The blend never shrinks when either of its ends grows.
pub proof fn lemma_blend_monotonic(cp1: u64, oracle1: u128, cp2: u64, oracle2: u128, weight: Decimal)
    requires
        weight.value <= ONE,
        cp1 <= cp2,
        oracle1 <= oracle2,
    ensures
        spec_blend(cp1, oracle1, weight) <= spec_blend(cp2, oracle2, weight),
{
    let w: int = weight.value as int;
    let one: int = ONE as int;
    let n1: int = cp1 * w + oracle1 * (one - w);
    let n2: int = cp2 * w + oracle2 * (one - w);
    assert(n1 <= n2) by (nonlinear_arith)
        requires
            n1 == cp1 * w + oracle1 * (one - w),
            n2 == cp2 * w + oracle2 * (one - w),
            0 <= w <= one,
            cp1 <= cp2,
            oracle1 <= oracle2,
    ;
    lemma_div_is_ordered(n1, n2, one);
}

/// The paid amount never shrinks when the net input grows.
pub proof fn lemma_amount_out_monotonic(
    config: PoolConfig,
    direction: Direction,
    net1: u64,
    net2: u64,
)
    requires
        net1 <= net2,
        config.spec_amount_out(direction, net1) is Ok,
        config.spec_amount_out(direction, net2) is Ok,
    ensures
        config.spec_amount_out(direction, net1)->Ok_0 <= config.spec_amount_out(
            direction,
            net2,
        )->Ok_0,
{
    let rin: u64 = config.reserve_in(direction);
    let rout: u64 = config.reserve_out(direction);
    lemma_constant_product_monotonic(rin, rout, net1, net2);
    if config.is_hybrid() {
        let weight: Decimal = config.spec_blend_weight()->Ok_0;
        config.lemma_blend_weight_at_most_one();
        lemma_oracle_out_monotonic(config, direction, net1, net2);
        let cp1: u64 = spec_constant_product_out(rin, rout, net1)->Ok_0;
        let cp2: u64 = spec_constant_product_out(rin, rout, net2)->Ok_0;
        let o1: u128 = config.spec_oracle_out(direction, net1)->Ok_0;
        let o2: u128 = config.spec_oracle_out(direction, net2)->Ok_0;
        lemma_blend_monotonic(cp1, o1, cp2, o2, weight);
        lemma_blend_between(cp1, o1, weight);
        lemma_blend_between(cp2, o2, weight);
    }
}

/// A higher fee never pays more: of two pools that differ in the fee
/// numerator only, the one with the higher numerator pays at most what the
/// other pays for the same input, and collects at least the same fee.
pub proof fn lemma_fee_monotonic(
    config: PoolConfig,
    direction: Direction,
    amount_in: u64,
    lower: u64,
    higher: u64,
)
    requires
        lower <= higher,
        config.with_fee_numerator(lower).spec_swap(direction, amount_in) is Ok,
        config.with_fee_numerator(higher).spec_swap(direction, amount_in) is Ok,
    ensures
        ({
            let cheap: SwapResult = config.with_fee_numerator(lower).spec_swap(
                direction,
                amount_in,
            )->Ok_0;
            let dear: SwapResult = config.with_fee_numerator(higher).spec_swap(
                direction,
                amount_in,
            )->Ok_0;
            &&& dear.spec_paid(direction) <= cheap.spec_paid(direction)
            &&& cheap.fee_collected <= dear.fee_collected
        }),
{
    let c1: PoolConfig = config.with_fee_numerator(lower);
    let c2: PoolConfig = config.with_fee_numerator(higher);
    let d: int = config.fee_denominator as int;
    let fee1: u64 = spec_swap_fee(amount_in, lower, config.fee_denominator)->Ok_0;
    let fee2: u64 = spec_swap_fee(amount_in, higher, config.fee_denominator)->Ok_0;
    crate::decimal::lemma_mul_div_monotonic(lower as int, higher as int, amount_in as int, d);
    assert(amount_in * lower == lower * amount_in && amount_in * higher == higher * amount_in)
        by (nonlinear_arith);
    assert(fee1 <= fee2);
    let net1: u64 = (amount_in - fee1) as u64;
    let net2: u64 = (amount_in - fee2) as u64;
    assert(c1.spec_amount_out(direction, net1) == config.spec_amount_out(direction, net1));
    assert(c2.spec_amount_out(direction, net2) == config.spec_amount_out(direction, net2));
    lemma_amount_out_monotonic(config, direction, net2, net1);
}

/// Where the quotient of a nonnegative `z` by a positive `d` stands against
/// whole numbers.
proof fn lemma_quotient_thresholds(z: int, d: int, g: int)
    requires
        0 <= z,
        0 < d,
    ensures
        z / d >= 1 <==> z >= d,
        z / d < g <==> z < g * d,
{
    lemma_fundamental_div_mod(z, d);
    lemma_mod_bound(z, d);
    let q: int = z / d;
    assert((q >= 1 <==> z >= d) && (q < g <==> z < g * d)) by (nonlinear_arith)
        requires
            z == d * q + z % d,
            0 <= z % d < d,
            0 < d,
    {
        if q >= 1 {
            assert(d * q >= d);
        } else {
            assert(d * q <= 0);
        }
        if q < g {
            assert(d * (q + 1) <= d * g);
            assert(d * g == g * d);
        } else {
            assert(d * q >= d * g);
            assert(d * g == g * d);
        }
    }
}

/// With compensation and an oracle price, the paid amount lies between the
/// constant-product amount and the oracle-priced amount, so the price of the
/// trade never passes the oracle price. It lies strictly between the two
/// exactly where the rounded blend has room to: the two amounts differ, the
/// weight is neither nothing nor everything, and the weighted gap is a whole
/// unit at least.
pub proof fn lemma_hybrid_between(config: PoolConfig, direction: Direction, net_in: u64)
    requires
        config.is_hybrid(),
        config.spec_amount_out(direction, net_in) is Ok,
    ensures
        ({
            let cp: int = spec_constant_product_out(
                config.reserve_in(direction),
                config.reserve_out(direction),
                net_in,
            )->Ok_0 as int;
            let oracle: int = config.spec_oracle_out(direction, net_in)->Ok_0 as int;
            let weight: int = config.spec_blend_weight()->Ok_0.value as int;
            let paid: int = config.spec_amount_out(direction, net_in)->Ok_0 as int;
            &&& 0 <= weight <= ONE
            &&& cp <= oracle ==> cp <= paid <= oracle
            &&& oracle <= cp ==> oracle <= paid <= cp
            &&& (oracle < paid < cp) <==> (oracle < cp && weight < ONE && (cp - oracle) * weight
                >= ONE)
            &&& (cp < paid < oracle) <==> (cp < oracle && weight > 0 && (oracle - cp) * (ONE
                - weight) >= ONE)
        }),
{
    let cp: u64 = spec_constant_product_out(
        config.reserve_in(direction),
        config.reserve_out(direction),
        net_in,
    )->Ok_0;
    let oracle: u128 = config.spec_oracle_out(direction, net_in)->Ok_0;
    let weight: Decimal = config.spec_blend_weight()->Ok_0;
    config.lemma_blend_weight_at_most_one();
    lemma_blend_between(cp, oracle, weight);
    let w: int = weight.value as int;
    let one: int = ONE as int;
    if oracle < cp {
        let g: int = cp - oracle;
        let z: int = g * w;
        assert(0 <= z && (z < g * one <==> w < one)) by (nonlinear_arith)
            requires
                z == g * w,
                g > 0,
                0 <= w <= one,
        ;
        lemma_quotient_thresholds(z, one, g);
    }
    if cp < oracle {
        let g: int = oracle - cp;
        let z: int = g * (one - w);
        assert(0 <= z && (z < g * one <==> w > 0)) by (nonlinear_arith)
            requires
                z == g * (one - w),
                g > 0,
                0 <= w <= one,
        ;
        lemma_quotient_thresholds(z, one, g);
    }
}

/// A swap is a function of its inputs: two results that both meet the
/// contract of a swap on the same pool, direction and amount are the same
/// result, the same error included.
pub proof fn lemma_swap_deterministic(
    config: PoolConfig,
    direction: Direction,
    amount_in: u64,
    first: Result<SwapResult, MathError>,
    second: Result<SwapResult, MathError>,
)
    requires
        first == config.spec_swap(direction, amount_in),
        second == config.spec_swap(direction, amount_in),
    ensures
        first == second,
{
}

/// The invariant is a function of its inputs: two results that both meet the
/// contract of `calculate_k` on the same reserves are the same result, the
/// same error included.
pub proof fn lemma_calculate_k_deterministic(
    x: u64,
    x_scale: u8,
    y: u64,
    y_scale: u8,
    first: Result<u64, MathError>,
    second: Result<u64, MathError>,
)
    requires
        first == spec_calculate_k(x, x_scale, y, y_scale),
        second == spec_calculate_k(x, x_scale, y, y_scale),
    ensures
        first == second,
{
}

/// Rescaling to the compute scale is a function of its inputs: two results
/// that both meet the contract of `from_native` on the same amount and scale
/// are the same result, the same error included.
pub proof fn lemma_from_native_deterministic(
    amount: u128,
    scale: u8,
    first: Result<Decimal, MathError>,
    second: Result<Decimal, MathError>,
)
    requires
        first == Decimal::spec_from_native(amount, scale),
        second == Decimal::spec_from_native(amount, scale),
    ensures
        first == second,
{
}

/// Rescaling to a native amount is a function of its inputs.
pub proof fn lemma_to_native_deterministic(
    value: Decimal,
    scale: u8,
    rounding: Rounding,
    first: Result<u128, MathError>,
    second: Result<u128, MathError>,
)
    requires
        first == value.spec_to_native(scale, rounding),
        second == value.spec_to_native(scale, rounding),
    ensures
        first == second,
{
}

/// The fractional power is a function of its inputs.
pub proof fn lemma_pow_fraction_deterministic(
    base: Decimal,
    exponent: Decimal,
    first: Result<Decimal, MathError>,
    second: Result<Decimal, MathError>,
)
    requires
        first == base.spec_checked_pow_fraction(exponent),
        second == base.spec_checked_pow_fraction(exponent),
    ensures
        first == second,
{
}

/// The square root is a function of its input.
pub proof fn lemma_sqrt_deterministic(
    value: Decimal,
    first: Result<Decimal, MathError>,
    second: Result<Decimal, MathError>,
)
    requires
        first == Ok::<Decimal, MathError>(value.spec_sqrt()),
        second == Ok::<Decimal, MathError>(value.spec_sqrt()),
    ensures
        first == second,
{
}

} // verus!
