use rust_grinder::engine::{evaluate, needs_rebalance, should_hedge_rebuy, should_long_buy};
use rust_grinder::uint256::Uint256;
use rust_grinder::{Operation, Position};

fn position(number: u64, number_max: u64, price_min: &str, price_max: &str, capital: &str) -> Position {
    Position {
        number,
        number_max,
        price_min: price_min.to_string(),
        price_max: price_max.to_string(),
        active_capital: capital.to_string(),
    }
}

fn band() -> Position {
    position(1, 5, "100", "200", "1000")
}

#[test]
fn price_below_band_buys_long() {
    let ops = evaluate(&band(), &band(), Uint256::from_u64(90));
    assert_eq!(ops, vec![Operation::LongBuy, Operation::HedgeRebuy]);
}

#[test]
fn price_above_band_sells() {
    let ops = evaluate(&band(), &band(), Uint256::from_u64(250));
    assert_eq!(ops, vec![Operation::LongSell, Operation::HedgeSell]);
}

#[test]
fn capital_skew_rebalances_only() {
    let long = position(2, 5, "100", "200", "10000");
    let hedge = position(2, 5, "100", "200", "1000");
    let ops = evaluate(&long, &hedge, Uint256::from_u64(150));
    assert_eq!(ops, vec![Operation::Rebalance]);
}

#[test]
fn price_inside_band_does_nothing() {
    assert!(evaluate(&band(), &band(), Uint256::from_u64(150)).is_empty());
}

#[test]
fn all_three_steps_can_fire() {
    let long = position(0, 5, "100", "200", "5000");
    let hedge = position(3, 5, "100", "200", "1000");
    let ops = evaluate(&long, &hedge, Uint256::from_u64(100));
    assert_eq!(ops, vec![Operation::Rebalance, Operation::LongBuy, Operation::HedgeRebuy]);
}

#[test]
fn equal_capital_never_rebalances() {
    for c in ["0", "1", "1000", "115792089237316195423570985008687907853269984665640564039457584007913129639935"] {
        let p = position(1, 5, "100", "200", c);
        assert!(!needs_rebalance(&p, &p));
    }
}

#[test]
fn rebalance_threshold_is_a_tenth_of_the_larger() {
    let a = position(1, 5, "100", "200", "1000");
    let b = position(1, 5, "100", "200", "900");
    let c = position(1, 5, "100", "200", "899");
    assert!(!needs_rebalance(&a, &b));
    assert!(!needs_rebalance(&b, &a));
    assert!(needs_rebalance(&a, &c));
    assert!(needs_rebalance(&c, &a));
}

#[test]
fn full_long_leg_never_buys() {
    let long = position(5, 5, "100", "200", "1000");
    for price in [0u64, 50, 100, 150, 1_000_000] {
        assert!(!should_long_buy(&long, Uint256::from_u64(price)));
        assert!(!evaluate(&long, &band(), Uint256::from_u64(price)).contains(&Operation::LongBuy));
    }
}

#[test]
fn legs_are_mutually_exclusive() {
    // A degenerate band where both triggers of a leg hold at once.
    let p = position(1, 5, "100", "100", "1000");
    let ops = evaluate(&p, &p, Uint256::from_u64(100));
    assert_eq!(ops, vec![Operation::LongBuy, Operation::HedgeSell]);
    let empty = position(0, 5, "100", "100", "1000");
    assert!(should_hedge_rebuy(&p, Uint256::from_u64(100)));
    assert_eq!(evaluate(&empty, &empty, Uint256::from_u64(100)), vec![Operation::LongBuy, Operation::HedgeSell]);
}

#[test]
fn malformed_price_counts_as_zero() {
    // A price_max that does not parse is zero, so selling fires at any price.
    let long = position(1, 5, "100", "abc", "1000");
    let hedge = position(1, 5, "100", "-5", "1000");
    let ops = evaluate(&long, &hedge, Uint256::from_u64(150));
    assert_eq!(ops, vec![Operation::LongSell, Operation::HedgeSell]);
}

#[test]
fn hexadecimal_text_is_not_decimal() {
    let long = position(1, 5, "0x10", "200", "1000");
    assert!(!should_long_buy(&long, Uint256::from_u64(5)));
    assert!(should_long_buy(&long, Uint256::from_u64(0)));
}

#[test]
fn large_prices_compare_as_256_bit_numbers() {
    let long = position(1, 5, "340282366920938463463374607431768211456", "400000000000000000000000000000000000000", "1");
    assert!(should_long_buy(&long, Uint256::from_u64(u64::MAX)));
    assert!(!should_long_buy(&long, Uint256::parse_amount(&"340282366920938463463374607431768211457".to_string())));
}
