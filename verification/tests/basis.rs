use arbitrage_observer::basis::{calculate_basis, consume_depth, consume_depth_at_limit};
use arbitrage_observer::decimal::Decimal;
use arbitrage_observer::delivery::calculate_delivery_basis;

#[test]
fn calculates_positive_spot_perp_carry_without_float() {
    let view = calculate_basis(
        "BTCUSDT",
        1_000,
        &[(Decimal::from_i64(100), Decimal::from_i64(10))],
        &[(Decimal::new(1005, 1), Decimal::from_i64(10))],
        Decimal::new(1005, 1),
        Decimal::from_i64(100),
        Decimal::new(1, 3),
        8,
        2_000,
        20,
        50,
        100,
    )
    .unwrap();

    assert_eq!(view.quantity, "10");
    assert_eq!(view.entry_basis, "5");
    assert!(Decimal::parse(&view.projected_net_24h).unwrap().is_positive());
    assert!(view.rejections.is_empty());
}

#[test]
fn rejects_negative_funding_for_long_spot_short_perp() {
    let view = calculate_basis(
        "ETHUSDT",
        1_000,
        &[(Decimal::from_i64(100), Decimal::from_i64(10))],
        &[(Decimal::from_i64(100), Decimal::from_i64(10))],
        Decimal::from_i64(100),
        Decimal::from_i64(100),
        Decimal::new(-1, 3),
        8,
        2_000,
        20,
        50,
        100,
    )
    .unwrap();

    assert!(view
        .rejections
        .contains(&"当前资金费率不利于买现货、空永续".into()));
    assert!(view.break_even_rounds.is_none());
}

#[test]
fn calculates_delivery_cash_and_carry_net_apr() {
    let day_ms = 24 * 60 * 60 * 1_000_i64;
    let view = calculate_delivery_basis(
        "BTCUSDT_261225",
        "BTCUSDT",
        "NEXT_QUARTER",
        31 * day_ms,
        day_ms,
        Decimal::new(1, 3),
        Decimal::new(1, 3),
        Decimal::new(1, 2),
        Decimal::new(1, 1),
        &[(Decimal::from_i64(100), Decimal::from_i64(10))],
        &[(Decimal::from_i64(102), Decimal::from_i64(10))],
        Decimal::from_i64(102),
        Decimal::from_i64(100),
        20,
        50,
        100,
    )
    .unwrap();

    assert_eq!(view.gross_basis, "20");
    assert!(Decimal::parse(&view.net_profit_at_delivery).unwrap().is_positive());
    assert!(Decimal::parse(&view.net_apr).unwrap().is_positive());
    assert!(view.rejections.is_empty());
}

#[test]
fn names_what_speaks_against_a_basis() {
    let view = calculate_basis(
        "BTCUSDT",
        1_000,
        &[(Decimal::from_i64(100), Decimal::one())],
        &[(Decimal::from_i64(101), Decimal::one())],
        Decimal::from_i64(101),
        Decimal::from_i64(100),
        Decimal::new(1, 4),
        8,
        2_000,
        1_001,
        5_001,
        100,
    )
    .unwrap();
    assert_eq!(view.quantity, "1");
    assert_eq!(view.spot_cost, "100");
    assert_eq!(view.perp_proceeds, "101");
    assert_eq!(view.entry_basis_rate, "0.01");
    assert_eq!(view.rejections.len(), 2);
}

#[test]
fn takes_no_position_without_books() {
    assert!(calculate_basis(
        "BTCUSDT",
        1_000,
        &[],
        &[(Decimal::from_i64(101), Decimal::one())],
        Decimal::from_i64(101),
        Decimal::from_i64(100),
        Decimal::zero(),
        8,
        2_000,
        0,
        0,
        0,
    )
    .is_none());
}

#[test]
fn consumes_depth_level_by_level() {
    let levels = [
        (Decimal::from_i64(100), Decimal::from_i64(2)),
        (Decimal::from_i64(101), Decimal::from_i64(2)),
    ];
    assert_eq!(
        consume_depth(&levels, Decimal::from_i64(3)),
        Some(Some(Decimal::from_i64(301)))
    );
    assert_eq!(consume_depth(&levels, Decimal::from_i64(5)), Some(None));
    assert_eq!(
        consume_depth_at_limit(&levels, Decimal::from_i64(3), Decimal::from_i64(100), true),
        Some(None)
    );
    assert_eq!(
        consume_depth_at_limit(&levels, Decimal::from_i64(3), Decimal::from_i64(101), true),
        Some(Some(Decimal::from_i64(301)))
    );
    let bids = [
        (Decimal::from_i64(101), Decimal::from_i64(2)),
        (Decimal::from_i64(100), Decimal::from_i64(2)),
    ];
    assert_eq!(
        consume_depth_at_limit(&bids, Decimal::from_i64(3), Decimal::from_i64(101), false),
        Some(None)
    );
    assert_eq!(
        consume_depth_at_limit(&bids, Decimal::from_i64(3), Decimal::from_i64(100), false),
        Some(Some(Decimal::from_i64(302)))
    );
}
