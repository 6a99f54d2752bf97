use hydra_math::error::MathError;
use hydra_math::ledger::{
    check_slippage, handle, mint_addresses_security_check, redeemable_for_stake,
    tokens_for_unstake, ErrorCode, Swap, SwapOrder, SwapRefusal,
};
use hydra_math::pyth::{Address, PythSettings};
use hydra_math::swap::{Direction, PoolConfig, SwapResult};

fn address(tag: u8) -> Address {
    let mut bytes = [0u8; 32];
    bytes[31] = tag;
    bytes[0] = 7;
    Address { bytes }
}

fn ledger(from: u8, to: u8) -> Swap {
    Swap {
        user_from_token_mint: address(from),
        user_to_token_mint: address(to),
        token_x_mint: address(1),
        token_y_mint: address(2),
        token_x_decimals: 9,
        token_y_decimals: 6,
        token_x_vault_amount: 2_000_000_000,
        token_y_vault_amount: 4_000_000_000,
        compensation_parameter: 150,
        swap_fee_numerator: 3,
        swap_fee_denominator: 1000,
        pyth: Some(PythSettings {
            pyth_product_account: address(8),
            pyth_price_account: address(9),
            last_known_price: 250_000,
            price_exponent: -2,
        }),
    }
}

#[test]
fn addresses_compare_by_their_bytes() {
    assert!(address(1).same(&address(1)));
    assert!(!address(1).same(&address(2)));
    let mut first_differs = address(1);
    first_differs.bytes[0] = 8;
    assert!(!address(1).same(&first_differs));
    let mut middle_differs = address(1);
    middle_differs.bytes[16] = 1;
    assert!(!address(1).same(&middle_differs));
}

#[test]
fn slippage_limits() {
    assert_eq!(check_slippage(&100, &90, &100, &91), Ok(()));
    assert_eq!(check_slippage(&100, &91, &100, &91), Ok(()));
    assert_eq!(check_slippage(&100, &92, &100, &91), Err(ErrorCode::SlippageExceeded));
    assert_eq!(check_slippage(&100, &0, &101, &91), Err(ErrorCode::SlippageExceeded));
    assert_eq!(check_slippage(&100, &0, &100, &0), Ok(()));
    assert_eq!(check_slippage(&0, &1, &0, &0), Err(ErrorCode::SlippageExceeded));
}

#[test]
fn mint_addresses_must_be_the_pools() {
    assert_eq!(mint_addresses_security_check(&ledger(1, 2)), Ok(()));
    assert_eq!(mint_addresses_security_check(&ledger(2, 1)), Ok(()));
    assert_eq!(mint_addresses_security_check(&ledger(1, 1)), Ok(()));
    assert_eq!(mint_addresses_security_check(&ledger(3, 2)), Err(ErrorCode::InvalidMintAddress));
    assert_eq!(mint_addresses_security_check(&ledger(1, 3)), Err(ErrorCode::InvalidMintAddress));
    assert_eq!(mint_addresses_security_check(&ledger(3, 4)), Err(ErrorCode::InvalidMintAddress));
}

#[test]
fn direction_follows_the_paying_account() {
    assert_eq!(ledger(1, 2).direction(), Ok(Direction::XToY));
    assert_eq!(ledger(2, 1).direction(), Ok(Direction::YToX));
    assert_eq!(ledger(1, 1).direction(), Err(ErrorCode::InvalidMintAddress));
    assert_eq!(ledger(2, 2).direction(), Err(ErrorCode::InvalidMintAddress));
    assert_eq!(ledger(3, 2).direction(), Err(ErrorCode::InvalidMintAddress));
    assert_eq!(ledger(1, 3).direction(), Err(ErrorCode::InvalidMintAddress));
}

#[test]
fn oracle_exponent_is_a_decimal_count() {
    let mut swap = ledger(1, 2);
    assert_eq!(swap.get_oracle_price_exponent(), Some(2));
    swap.pyth.as_mut().unwrap().price_exponent = 0;
    assert_eq!(swap.get_oracle_price_exponent(), Some(0));
    swap.pyth.as_mut().unwrap().price_exponent = -255;
    assert_eq!(swap.get_oracle_price_exponent(), Some(255));
    swap.pyth.as_mut().unwrap().price_exponent = -256;
    assert_eq!(swap.get_oracle_price_exponent(), None);
    swap.pyth.as_mut().unwrap().price_exponent = 1;
    assert_eq!(swap.get_oracle_price_exponent(), None);
    swap.pyth.as_mut().unwrap().price_exponent = i32::MIN;
    assert_eq!(swap.get_oracle_price_exponent(), None);
    swap.pyth = None;
    assert_eq!(swap.get_oracle_price_exponent(), None);
}

#[test]
fn pool_config_takes_balances_and_settings() {
    let swap = ledger(1, 2);
    assert_eq!(
        swap.pool_config(Some(250_000)),
        PoolConfig {
            reserve_x: 2_000_000_000,
            decimals_x: 9,
            reserve_y: 4_000_000_000,
            decimals_y: 6,
            compensation_parameter: 150,
            oracle_price: 250_000,
            oracle_exponent: 2,
            fee_numerator: 3,
            fee_denominator: 1000,
        }
    );
    assert_eq!(swap.pool_config(None).oracle_price, 0);
    let mut bare = swap;
    bare.pyth = None;
    assert_eq!(bare.pool_config(Some(5)).oracle_exponent, 0);
    assert_eq!(bare.pool_config(Some(5)).oracle_price, 5);
}

#[test]
fn handle_plans_both_directions() {
    let order = handle(&ledger(1, 2), Some(250_000), 100_000_000, 200_000_000).unwrap();
    assert_eq!(
        order,
        SwapOrder {
            direction: Direction::XToY,
            transfer_in_amount: 100_000_000,
            transfer_out_amount: 206_805_419,
            swap_result: SwapResult {
                k: 8_000_000_000_000_000_000,
                x_new: 2_100_000_000,
                y_new: 3_793_194_581,
                delta_x: 100_000_000,
                delta_y: 206_805_419,
                fee_collected: 300_000,
            },
        }
    );
    let back = handle(&ledger(2, 1), Some(250_000), 100_000_000, 0).unwrap();
    assert_eq!(back.direction, Direction::YToX);
    assert_eq!(back.transfer_out_amount, 46_146_504);
    assert_eq!(back.swap_result.x_new, 2_000_000_000 - 46_146_504);
    assert_eq!(back.swap_result.y_new, 4_100_000_000);
}

#[test]
fn handle_without_an_oracle_price_is_constant_product() {
    let order = handle(&ledger(1, 2), None, 100_000_000, 0).unwrap();
    // net 99700000; 4000000000 - floor(8e18 / 2099700000)
    assert_eq!(order.transfer_out_amount, 189_931_896);
}

#[test]
fn handle_refusals() {
    assert_eq!(
        handle(&ledger(3, 2), None, 100, 0),
        Err(SwapRefusal::Ledger(ErrorCode::InvalidMintAddress))
    );
    assert_eq!(
        handle(&ledger(1, 2), Some(250_000), 100_000_000, 206_805_420),
        Err(SwapRefusal::Ledger(ErrorCode::SlippageExceeded))
    );
    assert!(handle(&ledger(1, 2), Some(250_000), 100_000_000, 206_805_419).is_ok());
    let mut no_fee_rate = ledger(1, 2);
    no_fee_rate.swap_fee_numerator = 0;
    no_fee_rate.swap_fee_denominator = 0;
    assert_eq!(
        handle(&no_fee_rate, None, 100, 0),
        Err(SwapRefusal::Pricing(MathError::DivideByZero))
    );
    let mut empty = ledger(1, 2);
    empty.token_y_vault_amount = 0;
    assert_eq!(
        handle(&empty, None, 100, 0),
        Err(SwapRefusal::Pricing(MathError::InsufficientLiquidity))
    );
    let mut full = ledger(1, 2);
    full.token_x_vault_amount = u64::MAX;
    assert_eq!(handle(&full, None, 1, 0), Err(SwapRefusal::Pricing(MathError::Overflow)));
}

#[test]
fn post_transfer_checks_hold_the_vaults_to_the_result() {
    let before = ledger(1, 2);
    let order = handle(&before, Some(250_000), 100_000_000, 0).unwrap();
    let mut after = before;
    after.token_x_vault_amount += order.transfer_in_amount;
    after.token_y_vault_amount -= order.transfer_out_amount;
    assert_eq!(after.post_transfer_checks(order.swap_result), Ok(()));
    assert_eq!(
        before.post_transfer_checks(order.swap_result),
        Err(ErrorCode::InvalidVaultToSwapResultAmounts)
    );
    let mut short_x = after;
    short_x.token_x_vault_amount -= 1;
    assert_eq!(
        short_x.post_transfer_checks(order.swap_result),
        Err(ErrorCode::InvalidVaultToSwapResultAmounts)
    );
    let mut long_y = after;
    long_y.token_y_vault_amount += 1;
    assert_eq!(
        long_y.post_transfer_checks(order.swap_result),
        Err(ErrorCode::InvalidVaultToSwapResultAmounts)
    );
}

#[test]
fn first_stake_mints_the_amount() {
    assert_eq!(redeemable_for_stake(500, 0, 0), Ok(500));
    assert_eq!(redeemable_for_stake(500, 0, 77), Ok(500));
    assert_eq!(redeemable_for_stake(500, 77, 0), Ok(500));
    assert_eq!(redeemable_for_stake(u64::MAX, 0, 0), Ok(u64::MAX));
}

#[test]
fn later_stakes_mint_the_proportional_part() {
    assert_eq!(redeemable_for_stake(1_000, 100_000_000, 100_000_000), Ok(1_000));
    assert_eq!(redeemable_for_stake(987, 100_000_000, 9_999_000), Ok(98));
    assert_eq!(redeemable_for_stake(u64::MAX, 1, 2), Err(MathError::Overflow));
    assert_eq!(redeemable_for_stake(u64::MAX, 2, 2), Ok(u64::MAX));
}

#[test]
fn unstake_pays_the_proportional_part() {
    assert_eq!(tokens_for_unstake(1_000, 100_000_000, 100_000_000), Ok(1_000));
    assert_eq!(tokens_for_unstake(987, 100_000_000, 9_999_000), Ok(9_870));
    assert_eq!(tokens_for_unstake(987, 100_000_000, 0), Err(MathError::DivideByZero));
    assert_eq!(tokens_for_unstake(u64::MAX, 2, 1), Err(MathError::Overflow));
    assert_eq!(tokens_for_unstake(0, 0, 1), Ok(0));
}
