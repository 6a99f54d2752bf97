//! The rules that the ledger side applies around the arithmetic.
//!
//! The caller reads mints, balances and settings from its accounts, hands
//! them over as plain values, carries out the transfers that the plan names,
//! reads the balances again and has them checked against the plan. Nothing
//! here touches an account.
use crate::error::MathError;
use crate::liquidity::{
    calculate_pool_tokens_for_deposit,
    calculate_pool_tokens_for_withdraw,
    ratio_fits,
    spec_pool_tokens_for_deposit,
    spec_pool_tokens_for_withdraw,
};
use crate::pyth::{Address, PythSettings};
use crate::swap::{Direction, PoolConfig, SwapResult};
use vstd::prelude::*;

verus! {

/// Why the ledger side refuses an instruction.
#[derive(Clone, Copy, Debug, PartialEq, Eq, Structural)]
pub enum ErrorCode {
    /// A token account is of a mint that the pool does not trade.
    InvalidMintAddress,
    /// The swap would pay less than the user's minimum, or take more than
    /// the user's amount.
    SlippageExceeded,
    /// After the transfers the vaults do not hold what the swap result says.
    InvalidVaultToSwapResultAmounts,
}

/// Why a swap instruction is refused: by a rule of the ledger side, or by
/// the pricing.
#[derive(Clone, Copy, Debug, PartialEq, Eq, Structural)]
pub enum SwapRefusal {
    /// A rule of the ledger side refuses it.
    Ledger(ErrorCode),
    /// The pricing fails.
    Pricing(MathError),
}

/// What a swap instruction sees of the ledger: the mints of the user's two
/// token accounts, and the pool with its mints, decimal counts, vault
/// balances and settings.
#[derive(Clone, Copy, Debug, PartialEq, Eq)]
pub struct Swap {
    /// The mint of the token account that the user pays from.
    pub user_from_token_mint: Address,
    /// The mint of the token account that the user is paid to.
    pub user_to_token_mint: Address,
    /// The mint of asset x.
    pub token_x_mint: Address,
    /// The mint of asset y.
    pub token_y_mint: Address,
    /// The decimal count of asset x.
    pub token_x_decimals: u8,
    /// The decimal count of asset y.
    pub token_y_decimals: u8,
    /// The balance of the vault of asset x.
    pub token_x_vault_amount: u64,
    /// The balance of the vault of asset y.
    pub token_y_vault_amount: u64,
    /// The compensation strength of the pool.
    pub compensation_parameter: u8,
    /// The numerator of the swap fee rate.
    pub swap_fee_numerator: u64,
    /// The denominator of the swap fee rate.
    pub swap_fee_denominator: u64,
    /// The oracle settings of the pool, where it has an oracle.
    pub pyth: Option<PythSettings>,
}

/// The transfers that carry a swap out, and the record to check them against.
#[derive(Clone, Copy, Debug, PartialEq, Eq, Structural)]
pub struct SwapOrder {
    /// Which asset comes in.
    pub direction: Direction,
    /// The amount to move from the user into the vault of the asset that
    /// comes in.
    pub transfer_in_amount: u64,
    /// The amount to move from the vault of the other asset to the user.
    pub transfer_out_amount: u64,
    /// The priced swap.
    pub swap_result: SwapResult,
}

/// What [`check_slippage`] returns.
pub open spec fn spec_check_slippage(
    amount_in: u64,
    minimum_amount_out: u64,
    transfer_in_amount: u64,
    transfer_out_amount: u64,
) -> Result<(), ErrorCode> {
    if transfer_out_amount < minimum_amount_out || transfer_in_amount > amount_in {
        Err(ErrorCode::SlippageExceeded)
    } else {
        Ok(())
    }
}

/// Checks the amounts of a swap against what the user allows: the amount
/// paid out must be at least `minimum_amount_out`, and the amount taken must
/// be at most `amount_in`. Otherwise the result is `SlippageExceeded`.
pub fn check_slippage(
    amount_in: &u64,
    minimum_amount_out: &u64,
    transfer_in_amount: &u64,
    transfer_out_amount: &u64,
) -> (r: Result<(), ErrorCode>)
    ensures
        r == spec_check_slippage(
            *amount_in,
            *minimum_amount_out,
            *transfer_in_amount,
            *transfer_out_amount,
        ),
{
    if *transfer_out_amount < *minimum_amount_out {
        return Err(ErrorCode::SlippageExceeded);
    }
    if *transfer_in_amount > *amount_in {
        return Err(ErrorCode::SlippageExceeded);
    }
    Ok(())
}

impl Swap {
    /// Whether `mint` is one of the two mints that the pool trades.
    pub open spec fn trades(self, mint: Address) -> bool {
        mint.spec_same(self.token_x_mint) || mint.spec_same(self.token_y_mint)
    }

    /// What [`Swap::get_oracle_price_exponent`] returns.
    pub open spec fn spec_oracle_price_exponent(self) -> Option<u8> {
        match self.pyth {
            Some(settings) => settings.spec_price_decimals(),
            None => None,
        }
    }

    /// The decimal count of the oracle price, where the pool has oracle
    /// settings and their exponent stands for a decimal count.
    pub fn get_oracle_price_exponent(&self) -> (r: Option<u8>)
        ensures
            r == self.spec_oracle_price_exponent(),
    {
        match &self.pyth {
            Some(settings) => settings.price_decimals(),
            None => None,
        }
    }

    /// What [`Swap::pool_config`] returns.
    pub open spec fn spec_pool_config(self, oracle_price: Option<u64>) -> PoolConfig {
        PoolConfig {
            reserve_x: self.token_x_vault_amount,
            decimals_x: self.token_x_decimals,
            reserve_y: self.token_y_vault_amount,
            decimals_y: self.token_y_decimals,
            compensation_parameter: self.compensation_parameter,
            oracle_price: match oracle_price {
                Some(price) => price,
                None => 0,
            },
            oracle_exponent: match self.spec_oracle_price_exponent() {
                Some(exponent) => exponent,
                None => 0,
            },
            fee_numerator: self.swap_fee_numerator,
            fee_denominator: self.swap_fee_denominator,
        }
    }

    /// What the swap is priced from: the vault balances as reserves, the
    /// settings of the pool, and the oracle price that the caller read, zero
    /// where there is none.
    pub fn pool_config(&self, oracle_price: Option<u64>) -> (r: PoolConfig)
        ensures
            r == self.spec_pool_config(oracle_price),
    {
        PoolConfig {
            reserve_x: self.token_x_vault_amount,
            decimals_x: self.token_x_decimals,
            reserve_y: self.token_y_vault_amount,
            decimals_y: self.token_y_decimals,
            compensation_parameter: self.compensation_parameter,
            oracle_price: match oracle_price {
                Some(price) => price,
                None => 0,
            },
            oracle_exponent: match self.get_oracle_price_exponent() {
                Some(exponent) => exponent,
                None => 0,
            },
            fee_numerator: self.swap_fee_numerator,
            fee_denominator: self.swap_fee_denominator,
        }
    }

    /// What [`Swap::direction`] returns.
    pub open spec fn spec_direction(self) -> Result<Direction, ErrorCode> {
        if self.user_from_token_mint.spec_same(self.token_x_mint) {
            if self.user_to_token_mint.spec_same(self.token_y_mint) {
                Ok(Direction::XToY)
            } else {
                Err(ErrorCode::InvalidMintAddress)
            }
        } else if self.user_from_token_mint.spec_same(self.token_y_mint) {
            if self.user_to_token_mint.spec_same(self.token_x_mint) {
                Ok(Direction::YToX)
            } else {
                Err(ErrorCode::InvalidMintAddress)
            }
        } else {
            Err(ErrorCode::InvalidMintAddress)
        }
    }

    /// Which way the swap goes: from x to y where the user pays from an
    /// account of x, from y to x where the user pays from an account of y.
    /// The account that the user is paid to must be of the other mint;
    /// otherwise the result is `InvalidMintAddress`.
    pub fn direction(&self) -> (r: Result<Direction, ErrorCode>)
        ensures
            r == self.spec_direction(),
    {
        if self.user_from_token_mint.same(&self.token_x_mint) {
            if self.user_to_token_mint.same(&self.token_y_mint) {
                Ok(Direction::XToY)
            } else {
                Err(ErrorCode::InvalidMintAddress)
            }
        } else if self.user_from_token_mint.same(&self.token_y_mint) {
            if self.user_to_token_mint.same(&self.token_x_mint) {
                Ok(Direction::YToX)
            } else {
                Err(ErrorCode::InvalidMintAddress)
            }
        } else {
            Err(ErrorCode::InvalidMintAddress)
        }
    }

    /// What [`Swap::post_transfer_checks`] returns.
    pub open spec fn spec_post_transfer_checks(self, swap_result: SwapResult) -> Result<
        (),
        ErrorCode,
    > {
        if swap_result.x_new != self.token_x_vault_amount || swap_result.y_new
            != self.token_y_vault_amount {
            Err(ErrorCode::InvalidVaultToSwapResultAmounts)
        } else {
            Ok(())
        }
    }

    /// Holds the vault balances, read again after the transfers, against the
    /// swap result: both must be the new reserves that the result names.
    /// Otherwise the result is `InvalidVaultToSwapResultAmounts`.
    pub fn post_transfer_checks(&self, swap_result: SwapResult) -> (r: Result<(), ErrorCode>)
        ensures
            r == self.spec_post_transfer_checks(swap_result),
    {
        if swap_result.x_new != self.token_x_vault_amount {
            return Err(ErrorCode::InvalidVaultToSwapResultAmounts);
        }
        if swap_result.y_new != self.token_y_vault_amount {
            return Err(ErrorCode::InvalidVaultToSwapResultAmounts);
        }
        Ok(())
    }

    /// The ledger as the transfers of `order` leave it.
    pub open spec fn after(self, order: SwapOrder) -> Swap {
        match order.direction {
            Direction::XToY => Swap {
                token_x_vault_amount: (self.token_x_vault_amount + order.transfer_in_amount) as u64,
                token_y_vault_amount: (self.token_y_vault_amount - order.transfer_out_amount) as u64,
                ..self
            },
            Direction::YToX => Swap {
                token_x_vault_amount: (self.token_x_vault_amount - order.transfer_out_amount) as u64,
                token_y_vault_amount: (self.token_y_vault_amount + order.transfer_in_amount) as u64,
                ..self
            },
        }
    }
}

/// What [`mint_addresses_security_check`] returns.
pub open spec fn spec_mint_addresses_security_check(swap: Swap) -> Result<(), ErrorCode> {
    if swap.trades(swap.user_to_token_mint) && swap.trades(swap.user_from_token_mint) {
        Ok(())
    } else {
        Err(ErrorCode::InvalidMintAddress)
    }
}

/// Checks that both token accounts of the user are of mints that the pool
/// trades. Otherwise the result is `InvalidMintAddress`.
pub fn mint_addresses_security_check(swap: &Swap) -> (r: Result<(), ErrorCode>)
    ensures
        r == spec_mint_addresses_security_check(*swap),
{
    let mut user_to_token_valid: bool = false;
    let mut user_from_token_valid: bool = false;
    if swap.user_to_token_mint.same(&swap.token_x_mint) {
        user_to_token_valid = true;
    }
    if swap.user_to_token_mint.same(&swap.token_y_mint) {
        user_to_token_valid = true;
    }
    if swap.user_from_token_mint.same(&swap.token_x_mint) {
        user_from_token_valid = true;
    }
    if swap.user_from_token_mint.same(&swap.token_y_mint) {
        user_from_token_valid = true;
    }
    if !(user_to_token_valid && user_from_token_valid) {
        return Err(ErrorCode::InvalidMintAddress);
    }
    Ok(())
}

/// What [`handle`] returns.
pub open spec fn spec_handle(
    swap: Swap,
    oracle_price: Option<u64>,
    amount_in: u64,
    minimum_amount_out: u64,
) -> Result<SwapOrder, SwapRefusal> {
    match swap.spec_direction() {
        Err(e) => Err(SwapRefusal::Ledger(e)),
        Ok(direction) => match swap.spec_pool_config(oracle_price).spec_swap(direction, amount_in) {
            Err(e) => Err(SwapRefusal::Pricing(e)),
            Ok(swap_result) => match spec_check_slippage(
                amount_in,
                minimum_amount_out,
                amount_in,
                swap_result.spec_paid(direction),
            ) {
                Err(e) => Err(SwapRefusal::Ledger(e)),
                Ok(_) => Ok(
                    SwapOrder {
                        direction,
                        transfer_in_amount: amount_in,
                        transfer_out_amount: swap_result.spec_paid(direction),
                        swap_result,
                    },
                ),
            },
        },
    }
}

/// Decides a swap instruction: which way it goes, what it pays, and whether
/// the user's limits allow it.
///
/// The result names the two transfers to carry out. It is refused with
/// `InvalidMintAddress` where the user's accounts do not fit the pool's two
/// mints, with the error of the pricing where that fails, and with
/// `SlippageExceeded` where the swap would pay less than
/// `minimum_amount_out`.
pub fn handle(
    swap: &Swap,
    oracle_price: Option<u64>,
    amount_in: u64,
    minimum_amount_out: u64,
) -> (r: Result<SwapOrder, SwapRefusal>)
    ensures
        r == spec_handle(*swap, oracle_price, amount_in, minimum_amount_out),
{
    let transfer_in_amount: u64 = amount_in;
    let direction: Direction = match swap.direction() {
        Ok(direction) => direction,
        Err(e) => {
            return Err(SwapRefusal::Ledger(e));
        },
    };
    let swap_result: SwapResult = match swap.pool_config(oracle_price).swap(direction, amount_in) {
        Ok(swap_result) => swap_result,
        Err(e) => {
            return Err(SwapRefusal::Pricing(e));
        },
    };
    let transfer_out_amount: u64 = swap_result.paid(direction);
    match check_slippage(&amount_in, &minimum_amount_out, &transfer_in_amount, &transfer_out_amount) {
        Ok(_) => Ok(SwapOrder { direction, transfer_in_amount, transfer_out_amount, swap_result }),
        Err(e) => Err(SwapRefusal::Ledger(e)),
    }
}

/// A ledger that carries out the transfers of an order exactly passes the
/// check after the transfers, and the order never takes more than the user
/// offers nor pays less than the user's minimum.
pub proof fn lemma_order_passes_post_transfer_checks(
    swap: Swap,
    oracle_price: Option<u64>,
    amount_in: u64,
    minimum_amount_out: u64,
)
    requires
        spec_handle(swap, oracle_price, amount_in, minimum_amount_out) is Ok,
    ensures
        ({
            let order: SwapOrder = spec_handle(
                swap,
                oracle_price,
                amount_in,
                minimum_amount_out,
            )->Ok_0;
            &&& swap.after(order).spec_post_transfer_checks(order.swap_result) == Ok::<
                (),
                ErrorCode,
            >(())
            &&& order.transfer_in_amount == amount_in
            &&& order.transfer_out_amount >= minimum_amount_out
            &&& order.transfer_out_amount < swap.spec_pool_config(oracle_price).reserve_out(
                order.direction,
            )
        }),
{
    let config: PoolConfig = swap.spec_pool_config(oracle_price);
    let direction: Direction = swap.spec_direction()->Ok_0;
    let fee: u64 = crate::swap::spec_swap_fee(
        amount_in,
        config.fee_numerator,
        config.fee_denominator,
    )->Ok_0;
    assert(config.spec_amount_out(direction, (amount_in - fee) as u64) is Ok);
}

/// What [`redeemable_for_stake`] returns.
pub open spec fn spec_redeemable_for_stake(
    amount: u64,
    total_token_vault: u64,
    total_redeemable_tokens: u64,
) -> Result<u64, MathError> {
    if total_token_vault == 0 || total_redeemable_tokens == 0 {
        Ok(amount)
    } else {
        let minted: int = spec_pool_tokens_for_deposit(
            amount as int,
            total_token_vault as int,
            total_redeemable_tokens as int,
        );
        if minted > u64::MAX {
            Err(MathError::Overflow)
        } else {
            Ok(minted as u64)
        }
    }
}

/// The shares to mint for a stake of `amount`: the amount itself for the
/// first stake, when the vault or the supply is empty, and the proportional
/// part of the supply after that. Fails with `Overflow` when the shares do
/// not fit in 64 bits.
pub fn redeemable_for_stake(
    amount: u64,
    total_token_vault: u64,
    total_redeemable_tokens: u64,
) -> (r: Result<u64, MathError>)
    ensures
        r == spec_redeemable_for_stake(amount, total_token_vault, total_redeemable_tokens),
{
    if total_token_vault == 0 || total_redeemable_tokens == 0 {
        Ok(amount)
    } else if ratio_fits(amount, total_redeemable_tokens, total_token_vault) {
        Ok(calculate_pool_tokens_for_deposit(amount, total_token_vault, total_redeemable_tokens))
    } else {
        Err(MathError::Overflow)
    }
}

/// What [`tokens_for_unstake`] returns.
pub open spec fn spec_tokens_for_unstake(
    amount: u64,
    total_tokens: u64,
    total_redeemable_token_supply: u64,
) -> Result<u64, MathError> {
    if total_redeemable_token_supply == 0 {
        Err(MathError::DivideByZero)
    } else {
        let share: int = spec_pool_tokens_for_withdraw(
            amount as int,
            total_tokens as int,
            total_redeemable_token_supply as int,
        );
        if share > u64::MAX {
            Err(MathError::Overflow)
        } else {
            Ok(share as u64)
        }
    }
}

/// The tokens to pay for `amount` shares handed back: the proportional part
/// of the vault. Fails with `DivideByZero` when there are no shares at all
/// and with `Overflow` when the part does not fit in 64 bits.
pub fn tokens_for_unstake(
    amount: u64,
    total_tokens: u64,
    total_redeemable_token_supply: u64,
) -> (r: Result<u64, MathError>)
    ensures
        r == spec_tokens_for_unstake(amount, total_tokens, total_redeemable_token_supply),
{
    if total_redeemable_token_supply == 0 {
        Err(MathError::DivideByZero)
    } else if ratio_fits(amount, total_tokens, total_redeemable_token_supply) {
        Ok(calculate_pool_tokens_for_withdraw(amount, total_tokens, total_redeemable_token_supply))
    } else {
        Err(MathError::Overflow)
    }
}

} // verus!
