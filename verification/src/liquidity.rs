//! Liquidity math: the pool invariant and the issuance and redemption of
//! shares.
//!
//! Reserves arrive as native integers with a decimal count each. The
//! invariant is computed at the compute scale; the proportional quantities are
//! exact integer ratios, rounded in the direction that each doc comment names.
use crate::decimal::{lemma_pow10_table, pow10, Decimal, Rounding, ONE};
use crate::error::MathError;
use crate::wide::mul_div_ceil_int;
use vstd::arithmetic::div_mod::{lemma_fundamental_div_mod, lemma_mod_bound};
use vstd::prelude::*;

verus! {

/// The share units that the first deposit leaves behind for good.
pub const MIN_LIQUIDITY: u64 = 100;

/// The decimal count of the share token.
pub const LIQUIDITY_POOL_SCALE: u8 = 9;

/// [`MIN_LIQUIDITY`] at the compute scale.
pub open spec fn min_liquidity() -> Decimal {
    Decimal { value: 100_000 }
}

/// The amount `n`, or `Overflow` when it does not fit in 64 bits.
pub open spec fn amount_of(n: u128) -> Result<u64, MathError> {
    if n > u64::MAX {
        Err(MathError::Overflow)
    } else {
        Ok(n as u64)
    }
}

/// What [`calculate_k`] returns.
///
/// With `X` and `Y` the reserves at the compute scale, the result is
/// `sqrt(X * Y) - MIN_LIQUIDITY`, rounded down to the share token's scale.
pub open spec fn spec_calculate_k(x: u64, x_scale: u8, y: u64, y_scale: u8) -> Result<
    u64,
    MathError,
> {
    match Decimal::spec_from_native(x as u128, x_scale) {
        Err(e) => Err(e),
        Ok(xd) => match Decimal::spec_from_native(y as u128, y_scale) {
            Err(e) => Err(e),
            Ok(yd) => match xd.spec_checked_mul(yd) {
                Err(e) => Err(e),
                Ok(product) => match product.spec_sqrt().spec_checked_sub(min_liquidity()) {
                    Err(e) => Err(e),
                    Ok(k) => match k.spec_to_native(LIQUIDITY_POOL_SCALE, Rounding::Floor) {
                        Err(e) => Err(e),
                        Ok(n) => amount_of(n),
                    },
                },
            },
        }
    }
}

/// The share amount that seeds a pool: `sqrt(x * y) - MIN_LIQUIDITY` at the
/// share token's scale, rounded down.
///
/// Fails with `Underflow` when the root is below the minimum, which means the
/// deposit is too small to seed a pool, and with `Overflow` when a step
/// leaves the representable range.
pub fn calculate_k(x: u64, x_scale: u8, y: u64, y_scale: u8) -> (r: Result<u64, MathError>)
    ensures
        r == spec_calculate_k(x, x_scale, y, y_scale),
{
    let xd: Decimal = Decimal::from_native(x as u128, x_scale)?;
    let yd: Decimal = Decimal::from_native(y as u128, y_scale)?;
    let root: Decimal = xd.checked_mul(yd)?.sqrt()?;
    proof {
        lemma_min_liquidity();
    }
    let minimum: Decimal = Decimal::from_native(MIN_LIQUIDITY as u128, LIQUIDITY_POOL_SCALE)?;
    let k: Decimal = root.checked_sub(minimum)?;
    let n: u128 = k.to_native(LIQUIDITY_POOL_SCALE, Rounding::Floor)?;
    if n > u64::MAX as u128 {
        Err(MathError::Overflow)
    } else {
        Ok(n as u64)
    }
}

/// The minimum liquidity is the constant at the share token's scale.
pub proof fn lemma_min_liquidity()
    ensures
        Decimal::spec_from_native(MIN_LIQUIDITY as u128, LIQUIDITY_POOL_SCALE) == Ok::<
            Decimal,
            MathError,
        >(min_liquidity()),
{
    lemma_pow10_table();
    assert(100 * ONE == 100_000_000_000_000);
    assert(100_000_000_000_000int / 1_000_000_000int == 100_000);
}

/// What [`calculate_x_y`] returns for one side: `ceil(lp_tokens * reserve / lp_tokens_total)`.
pub open spec fn spec_redeemed(lp_tokens: u64, reserve: u64, lp_tokens_total: u64) -> int {
    mul_div_ceil_int(lp_tokens as int, reserve as int, lp_tokens_total as int)
}

fn redeemed(lp_tokens: u64, reserve: u64, lp_tokens_total: u64) -> (r: u64)
    requires
        lp_tokens_total > 0,
        spec_redeemed(lp_tokens, reserve, lp_tokens_total) <= u64::MAX,
    ensures
        r == spec_redeemed(lp_tokens, reserve, lp_tokens_total),
{
    proof {
        assert(lp_tokens * reserve <= u64::MAX * u64::MAX) by (nonlinear_arith);
    }
    let product: u128 = (lp_tokens as u128) * (reserve as u128);
    let q: u128 = product / (lp_tokens_total as u128);
    if product % (lp_tokens_total as u128) == 0 {
        q as u64
    } else {
        (q + 1) as u64
    }
}

/// The two reserve amounts that redeeming `lp_tokens` shares takes out of the
/// pool: each is the proportional part `lp_tokens * reserve / lp_tokens_total`,
/// rounded up.
///
/// Both sides of each ratio are counted in the same units, so the decimal
/// counts cancel and do not enter the result. The total supply must not be
/// zero and both amounts must fit in 64 bits.
pub fn calculate_x_y(
    lp_tokens: u64,
    lp_tokens_scale: u8,
    x: u64,
    x_scale: u8,
    y: u64,
    y_scale: u8,
    lp_tokens_total: u64,
) -> (r: (u64, u64))
    requires
        lp_tokens_total > 0,
        spec_redeemed(lp_tokens, x, lp_tokens_total) <= u64::MAX,
        spec_redeemed(lp_tokens, y, lp_tokens_total) <= u64::MAX,
    ensures
        r.0 == spec_redeemed(lp_tokens, x, lp_tokens_total),
        r.1 == spec_redeemed(lp_tokens, y, lp_tokens_total),
{
    let x_debited: u64 = redeemed(lp_tokens, x, lp_tokens_total);
    let y_debited: u64 = redeemed(lp_tokens, y, lp_tokens_total);
    (x_debited, y_debited)
}

/// Whether [`calculate_x_y`] is defined on these amounts: the supply is not
/// zero and both redeemed amounts fit in 64 bits.
pub fn can_calculate_x_y(lp_tokens: u64, x: u64, y: u64, lp_tokens_total: u64) -> (r: bool)
    ensures
        r == (lp_tokens_total > 0 && spec_redeemed(lp_tokens, x, lp_tokens_total) <= u64::MAX
            && spec_redeemed(lp_tokens, y, lp_tokens_total) <= u64::MAX),
{
    if lp_tokens_total == 0 {
        return false;
    }
    proof {
        assert(lp_tokens * x <= u64::MAX * u64::MAX) by (nonlinear_arith);
        assert(lp_tokens * y <= u64::MAX * u64::MAX) by (nonlinear_arith);
    }
    let px: u128 = (lp_tokens as u128) * (x as u128);
    let py: u128 = (lp_tokens as u128) * (y as u128);
    let t: u128 = lp_tokens_total as u128;
    let rx: u128 = px / t + if px % t == 0 {
        0
    } else {
        1
    };
    let ry: u128 = py / t + if py % t == 0 {
        0
    } else {
        1
    };
    rx <= u64::MAX as u128 && ry <= u64::MAX as u128
}

/// `floor(amount * total_redeemable_tokens / total_token_vault)`.
pub open spec fn spec_pool_tokens_for_deposit(
    amount: int,
    total_token_vault: int,
    total_redeemable_tokens: int,
) -> int {
    (amount * total_redeemable_tokens) / total_token_vault
}

/// `floor(amount * total_tokens / total_redeemable_token_supply)`.
pub open spec fn spec_pool_tokens_for_withdraw(
    amount: int,
    total_tokens: int,
    total_redeemable_token_supply: int,
) -> int {
    (amount * total_tokens) / total_redeemable_token_supply
}

/// The shares minted for a deposit of `amount` into a pool that holds
/// `total_token_vault` against `total_redeemable_tokens` shares: the
/// proportional part, rounded down.
///
/// The vault must not be empty and the result must fit in 64 bits.
pub fn calculate_pool_tokens_for_deposit(
    amount: u64,
    total_token_vault: u64,
    total_redeemable_tokens: u64,
) -> (r: u64)
    requires
        total_token_vault > 0,
        spec_pool_tokens_for_deposit(
            amount as int,
            total_token_vault as int,
            total_redeemable_tokens as int,
        ) <= u64::MAX,
    ensures
        r == spec_pool_tokens_for_deposit(
            amount as int,
            total_token_vault as int,
            total_redeemable_tokens as int,
        ),
{
    proof {
        assert(amount * total_redeemable_tokens <= u64::MAX * u64::MAX) by (nonlinear_arith);
    }
    let product: u128 = (amount as u128) * (total_redeemable_tokens as u128);
    (product / (total_token_vault as u128)) as u64
}

/// The tokens owed for redeeming `amount` shares of a pool that holds
/// `total_tokens` against `total_redeemable_token_supply` shares: the
/// proportional part, rounded down.
///
/// The supply must not be zero and the result must fit in 64 bits.
pub fn calculate_pool_tokens_for_withdraw(
    amount: u64,
    total_tokens: u64,
    total_redeemable_token_supply: u64,
) -> (r: u64)
    requires
        total_redeemable_token_supply > 0,
        spec_pool_tokens_for_withdraw(
            amount as int,
            total_tokens as int,
            total_redeemable_token_supply as int,
        ) <= u64::MAX,
    ensures
        r == spec_pool_tokens_for_withdraw(
            amount as int,
            total_tokens as int,
            total_redeemable_token_supply as int,
        ),
{
    proof {
        assert(amount * total_tokens <= u64::MAX * u64::MAX) by (nonlinear_arith);
    }
    let product: u128 = (amount as u128) * (total_tokens as u128);
    (product / (total_redeemable_token_supply as u128)) as u64
}

/// Whether `floor(a * b / d)` is defined and fits in 64 bits: the condition
/// under which [`calculate_pool_tokens_for_deposit`] (with `d` the vault) and
/// [`calculate_pool_tokens_for_withdraw`] (with `d` the supply) may be called.
pub fn ratio_fits(a: u64, b: u64, d: u64) -> (r: bool)
    ensures
        r == (d > 0 && (a * b) / (d as int) <= u64::MAX),
{
    if d == 0 {
        return false;
    }
    proof {
        assert(a * b <= u64::MAX * u64::MAX) by (nonlinear_arith);
    }
    let product: u128 = (a as u128) * (b as u128);
    product / (d as u128) <= u64::MAX as u128
}

/// Depositing and then redeeming the minted shares at once, against the pool
/// as the deposit left it, never returns more than was deposited.
pub proof fn lemma_deposit_then_withdraw(amount: nat, reserve: nat, supply: nat)
    requires
        reserve > 0,
        supply + spec_pool_tokens_for_deposit(amount as int, reserve as int, supply as int) > 0,
    ensures
        ({
            let minted: int = spec_pool_tokens_for_deposit(
                amount as int,
                reserve as int,
                supply as int,
            );
            0 <= minted && spec_pool_tokens_for_withdraw(
                minted,
                (reserve + amount) as int,
                supply + minted,
            )
                <= amount
        }),
{
    let a: int = amount as int;
    let r: int = reserve as int;
    let s: int = supply as int;
    let minted: int = (a * s) / r;
    assert(0 <= a * s) by (nonlinear_arith)
        requires
            0 <= a,
            0 <= s,
    ;
    lemma_fundamental_div_mod(a * s, r);
    lemma_mod_bound(a * s, r);
    assert(0 <= minted) by (nonlinear_arith)
        requires
            a * s == r * minted + (a * s) % r,
            (a * s) % r < r,
            0 <= a * s,
            r > 0,
    ;
    let num: int = minted * (r + a);
    let den: int = s + minted;
    assert(num <= a * den) by (nonlinear_arith)
        requires
            a * s == r * minted + (a * s) % r,
            0 <= (a * s) % r,
            num == minted * (r + a),
            den == s + minted,
    ;
    lemma_fundamental_div_mod(num, den);
    lemma_mod_bound(num, den);
    assert(num / den <= a) by (nonlinear_arith)
        requires
            num == den * (num / den) + num % den,
            0 <= num % den,
            num <= a * den,
            den > 0,
    ;
}

/// Redeeming the minted shares against the totals from before the deposit
/// never returns more than was deposited either.
pub proof fn lemma_deposit_then_withdraw_at_old_totals(amount: nat, reserve: nat, supply: nat)
    requires
        reserve > 0,
        supply > 0,
    ensures
        spec_pool_tokens_for_withdraw(
            spec_pool_tokens_for_deposit(amount as int, reserve as int, supply as int),
            reserve as int,
            supply as int,
        ) <= amount,
{
    let a: int = amount as int;
    let r: int = reserve as int;
    let s: int = supply as int;
    let minted: int = (a * s) / r;
    lemma_fundamental_div_mod(a * s, r);
    lemma_mod_bound(a * s, r);
    let num: int = minted * r;
    assert(num <= a * s) by (nonlinear_arith)
        requires
            a * s == r * minted + (a * s) % r,
            0 <= (a * s) % r,
            num == minted * r,
    ;
    lemma_fundamental_div_mod(num, s);
    lemma_mod_bound(num, s);
    assert(num / s <= a) by (nonlinear_arith)
        requires
            num == s * (num / s) + num % s,
            0 <= num % s,
            num <= a * s,
            s > 0,
    ;
}

/// The invariant does not depend on how the reserves are written: two
/// encodings of the same two quantities, each an amount with a decimal count,
/// give the same result, error included.
pub proof fn lemma_calculate_k_same_quantities(
    x1: u64,
    x1_scale: u8,
    y1: u64,
    y1_scale: u8,
    x2: u64,
    x2_scale: u8,
    y2: u64,
    y2_scale: u8,
)
    requires
        x1 * pow10(x2_scale as nat) == x2 * pow10(x1_scale as nat),
        y1 * pow10(y2_scale as nat) == y2 * pow10(y1_scale as nat),
    ensures
        spec_calculate_k(x1, x1_scale, y1, y1_scale) == spec_calculate_k(
            x2,
            x2_scale,
            y2,
            y2_scale,
        ),
{
    crate::decimal::lemma_from_native_same_quantity(x1 as u128, x1_scale, x2 as u128, x2_scale);
    crate::decimal::lemma_from_native_same_quantity(y1 as u128, y1_scale, y2 as u128, y2_scale);
}

} // verus!
