use hydra_math::decimal::ONE;
use hydra_math::error::MathError;
use hydra_math::swap::{constant_product_out, Direction, PoolConfig, SwapCalculator};

fn pool(x: u64, y: u64, strength: u8, price: u64, fee_numerator: u64) -> PoolConfig {
    PoolConfig {
        reserve_x: x,
        decimals_x: 6,
        reserve_y: y,
        decimals_y: 6,
        compensation_parameter: strength,
        oracle_price: price,
        oracle_exponent: 3,
        fee_numerator,
        fee_denominator: 1000,
    }
}

#[test]
fn product_is_kept_exactly_where_the_new_reserve_divides_it() {
    let rows: [(u64, u64, u64); 8] = [
        (1000, 1000, 100),
        (1000, 1000, 1000),
        (600, 400, 200),
        (7, 13, 6),
        (7, 13, 5),
        (1_000_000, 2_000_000, 10_000),
        (123_456_789, 987_654_321, 55_555),
        (u64::MAX / 2, u64::MAX, 1_000_000_007),
    ];
    for (x, y, amount) in rows {
        for direction in [Direction::XToY, Direction::YToX] {
            let config = pool(x, y, 0, 0, 0);
            let result = match config.swap(direction, amount) {
                Ok(result) => result,
                Err(_) => continue,
            };
            let after = result.x_new as u128 * result.y_new as u128;
            let before = x as u128 * y as u128;
            assert_eq!(result.k, before);
            assert!(after <= before);
            let reserve_in = match direction {
                Direction::XToY => x,
                Direction::YToX => y,
            };
            let divides = before % (reserve_in as u128 + amount as u128) == 0;
            assert_eq!(after >= before, divides, "{} {} {}", x, y, amount);
        }
    }
}

#[test]
fn product_drops_by_rounding_in_the_plain_scenario() {
    let result = pool(1000, 1000, 0, 0, 0).swap(Direction::XToY, 100).unwrap();
    assert_eq!(result.x_new as u128 * result.y_new as u128, 999_900);
    assert_eq!(result.k, 1_000_000);
}

#[test]
fn a_higher_fee_never_pays_more() {
    for (strength, price) in [(0u8, 0u64), (100, 1_500), (125, 2_600), (150, 1_999), (150, 2_000)] {
        for direction in [Direction::XToY, Direction::YToX] {
            for amount in [1u64, 100, 10_000, 333_333] {
                let mut last_paid = u64::MAX;
                let mut last_fee = 0;
                for fee_numerator in [0u64, 1, 3, 30, 100, 500, 999, 1000] {
                    let config = pool(1_000_000, 2_000_000, strength, price, fee_numerator);
                    if let Ok(result) = config.swap(direction, amount) {
                        assert!(result.paid(direction) <= last_paid);
                        assert!(result.fee_collected >= last_fee);
                        last_paid = result.paid(direction);
                        last_fee = result.fee_collected;
                    }
                }
            }
        }
    }
}

#[test]
fn fee_steps_pay_exact_amounts() {
    let expected: [(u64, u64, u64); 7] = [
        (0, 0, 19_802),
        (1, 10, 19_783),
        (3, 30, 19_744),
        (30, 300, 19_214),
        (100, 1_000, 17_840),
        (500, 5_000, 9_951),
        (1000, 10_000, 0),
    ];
    for (fee_numerator, fee, paid) in expected {
        let result = pool(1_000_000, 2_000_000, 0, 0, fee_numerator).swap(Direction::XToY, 10_000).unwrap();
        assert_eq!(result.fee_collected, fee);
        assert_eq!(result.delta_y, paid);
    }
}

#[test]
fn a_fee_that_rounds_to_nothing_pays_the_same() {
    let free = pool(1000, 1000, 0, 0, 0).swap(Direction::XToY, 100).unwrap();
    let nearly_free = pool(1000, 1000, 0, 0, 1).swap(Direction::XToY, 100).unwrap();
    assert_eq!(free.delta_y, 91);
    assert_eq!(nearly_free.delta_y, 91);
    assert_eq!(nearly_free.fee_collected, 0);
}

#[test]
fn hybrid_amount_lies_between_its_two_ends() {
    for (x, y) in [(1_000_000u64, 2_000_000u64), (5_000, 80_000_000), (77_777_777, 1_234)] {
        for price in [1u64, 10, 500, 1_999, 2_000, 2_001, 16_000_000, u32::MAX as u64] {
            for strength in [100u8, 125, 150] {
                for direction in [Direction::XToY, Direction::YToX] {
                    for net in [1u64, 2, 17, 5_000, 999_999] {
                        let config = pool(x, y, strength, price, 0);
                        let (reserve_in, reserve_out) = match direction {
                            Direction::XToY => (x, y),
                            Direction::YToX => (y, x),
                        };
                        let cp = constant_product_out(reserve_in, reserve_out, net).unwrap() as u128;
                        let (weight, oracle, paid) = match (
                            config.blend_weight(),
                            config.oracle_out(direction, net),
                            config.amount_out(direction, net),
                        ) {
                            (Ok(weight), Ok(oracle), Ok(paid)) => (weight.value, oracle, paid),
                            _ => continue,
                        };
                        assert!(weight <= ONE);
                        assert!(cp.min(oracle) <= paid && paid <= cp.max(oracle));
                        let strictly_down = oracle < paid && paid < cp;
                        let room_down = oracle < cp && weight < ONE && (cp - oracle) * weight >= ONE;
                        assert_eq!(strictly_down, room_down);
                        let strictly_up = cp < paid && paid < oracle;
                        let room_up = cp < oracle
                            && weight > 0
                            && (oracle - cp).checked_mul(ONE - weight).map_or(true, |z| z >= ONE);
                        assert_eq!(strictly_up, room_up);
                    }
                }
            }
        }
    }
}

#[test]
fn hybrid_amount_without_room_stays_on_an_end() {
    // constant product pays 2, the oracle 1: no whole amount lies strictly between
    let config = PoolConfig {
        reserve_x: 1000,
        decimals_x: 0,
        reserve_y: 2000,
        decimals_y: 0,
        compensation_parameter: 100,
        oracle_price: 1,
        oracle_exponent: 0,
        fee_numerator: 0,
        fee_denominator: 1,
    };
    assert_eq!(constant_product_out(1000, 2000, 1), Ok(2));
    assert_eq!(config.oracle_out(Direction::XToY, 1), Ok(1));
    assert_eq!(config.blend_weight().unwrap().value, ONE / 2);
    assert_eq!(config.swap(Direction::XToY, 1).unwrap().delta_y, 1);
}

#[test]
fn a_swap_is_a_function_of_its_inputs() {
    for strength in [0u8, 100, 125, 150] {
        for amount in [0u64, 1, 5_000, 999_999, u64::MAX] {
            let first = SwapCalculator::new(1_000_000, 6, 2_000_000, 9, strength, 1_999, 3, 3, 1000);
            let second = SwapCalculator::new(1_000_000, 6, 2_000_000, 9, strength, 1_999, 3, 3, 1000);
            assert_eq!(first.swap_x_to_y(amount), second.swap_x_to_y(amount));
            assert_eq!(first.swap_y_to_x(amount), second.swap_y_to_x(amount));
            assert_eq!(first.swap_x_to_y(amount), first.swap_x_to_y(amount));
        }
    }
}

#[test]
fn valid_settings_fail_in_three_ways_only() {
    for x in [0u64, 1, 1_000_000, u64::MAX] {
        for y in [0u64, 1, 2_000_000, u64::MAX] {
            for (strength, price) in [(0u8, 0u64), (150, 0), (100, 1), (125, 2_000), (150, u64::MAX)] {
                for fee_denominator in [0u64, 1, 1000] {
                    for amount in [0u64, 1, 1_000, u64::MAX] {
                        let calculator = SwapCalculator::new(
                            x, 6, y, 18, strength, price, 3, fee_denominator.min(3), fee_denominator,
                        );
                        for result in [calculator.swap_x_to_y(amount), calculator.swap_y_to_x(amount)] {
                            if let Err(e) = result {
                                assert!(matches!(
                                    e,
                                    MathError::InsufficientLiquidity
                                        | MathError::Overflow
                                        | MathError::DivideByZero
                                ));
                            }
                        }
                    }
                }
            }
        }
    }
}
