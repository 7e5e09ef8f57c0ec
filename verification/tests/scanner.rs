use arbitrage_observer::cross::{
    calculate_binance_internal, calculate_cross, calculate_polymarket_internal,
    polymarket_fee_for_quantity,
};
use arbitrage_observer::decimal::Decimal;
use arbitrage_observer::pairs::{is_paper_settlement_aligned, TrackedPairView};
use arbitrage_observer::paper::{
    paper_rejection_reasons, paper_trade, record_qualifying_sample, ActiveSignals,
};
use arbitrage_observer::quotes::{quote_skew_ms, rtds_fixed_point_price, rtds_timestamp_ms};
use arbitrage_observer::scan::ObservationView;
use arbitrage_observer::settlement::binance_outcome;

fn test_pair() -> TrackedPairView {
    TrackedPairView {
        slug: "btc-up-or-down-1h-1".into(),
        binance_topic_id: 1,
        title: "BTC".into(),
        asset: "BTC".into(),
        duration: "1h".into(),
        classification: "basis".into(),
        differences: vec!["抵押/兑付币种不同：USDT / USDC".into()],
        binance_source: "BINANCE/BTCUSDT".into(),
        polymarket_source: "https://www.binance.com/en/trade/BTC_USDT".into(),
        start_ms: 0,
        end_ms: 200_000,
        binance_fee_bps: 200,
        polymarket_fee_rate: "0.07".into(),
        liquidity: "1".into(),
        trade_volume: "1".into(),
    }
}

#[test]
fn calculates_cross_fees_with_decimal() {
    let calculation = calculate_cross(
        &[(Decimal::new(69, 2), Decimal::new(224, 0))],
        &[(Decimal::new(26, 2), Decimal::new(300, 0))],
        Decimal::new(2, 2),
        Decimal::new(7, 2),
        0,
    )
    .unwrap();
    assert_eq!(calculation.cost, Decimal::new(95, 2));
    assert_eq!(calculation.fees, Decimal::new(27268, 6));
    assert_eq!(calculation.risk_buffers, Decimal::new(29, 4));
    assert_eq!(calculation.net_edge, Decimal::new(19832, 6));
    assert_eq!(calculation.size, Decimal::from_i64(10));
    assert_eq!(
        calculation.plan.first_request.limit_price,
        Decimal::new(69, 2)
    );
    assert_eq!(
        calculation.plan.second_request.limit_price,
        Decimal::new(26, 2)
    );
}

#[test]
fn consumes_multiple_levels_and_partially_fills_last_level() {
    let calculation = calculate_cross(
        &[
            (Decimal::new(40, 2), Decimal::new(3, 0)),
            (Decimal::new(50, 2), Decimal::new(20, 0)),
        ],
        &[
            (Decimal::new(40, 2), Decimal::new(5, 0)),
            (Decimal::new(45, 2), Decimal::new(20, 0)),
        ],
        Decimal::zero(),
        Decimal::zero(),
        0,
    )
    .unwrap();
    assert_eq!(calculation.size, Decimal::from_i64(10));
    assert_eq!(calculation.cost, Decimal::new(895, 3));
    assert_eq!(
        calculation.plan.first_request.limit_price,
        Decimal::new(50, 2)
    );
    assert_eq!(
        calculation.plan.second_request.limit_price,
        Decimal::new(45, 2)
    );
    assert_eq!(calculation.risk_buffers, Decimal::new(279, 5));
    assert_eq!(calculation.net_edge, Decimal::new(10221, 5));
}

#[test]
fn rounds_polymarket_fee_to_five_decimals() {
    assert_eq!(
        polymarket_fee_for_quantity(
            &[(Decimal::new(33, 2), Decimal::one())],
            Decimal::one(),
            Decimal::new(7, 2),
        ),
        Some(Decimal::new(15477, 6).round_dp(5))
    );
}

#[test]
fn calculates_binance_internal_pair_from_full_depth_and_fees() {
    let calculation = calculate_binance_internal(
        &[
            (Decimal::new(40, 2), Decimal::from_i64(4)),
            (Decimal::new(41, 2), Decimal::from_i64(6)),
        ],
        &[
            (Decimal::new(50, 2), Decimal::from_i64(5)),
            (Decimal::new(51, 2), Decimal::from_i64(5)),
        ],
        Decimal::new(2, 2),
        3_600_000,
        120,
        500,
    )
    .unwrap();

    assert_eq!(calculation.size, "10");
    assert_eq!(
        Decimal::parse(&calculation.cost).unwrap(),
        Decimal::new(911, 3)
    );
    assert_eq!(
        Decimal::parse(&calculation.fees).unwrap(),
        Decimal::new(1822, 5)
    );
    assert!(Decimal::parse(&calculation.net_edge).unwrap().is_positive());
    assert!(calculation.rejections.is_empty());
}

#[test]
fn rejects_stale_binance_internal_pair_even_when_price_is_profitable() {
    let calculation = calculate_binance_internal(
        &[(Decimal::new(40, 2), Decimal::from_i64(10))],
        &[(Decimal::new(50, 2), Decimal::from_i64(10))],
        Decimal::new(2, 2),
        3_600_000,
        2_000,
        6_000,
    )
    .unwrap();

    assert!(calculation
        .rejections
        .contains(&"Binance 两盘口时间差超过 1 秒".into()));
    assert!(calculation
        .rejections
        .contains(&"Binance 盘口年龄超过 5 秒".into()));
}

#[test]
fn calculates_polymarket_internal_pair_with_per_level_fees() {
    let calculation = calculate_polymarket_internal(
        &[(Decimal::new(40, 2), Decimal::from_i64(10))],
        &[(Decimal::new(50, 2), Decimal::from_i64(10))],
        Decimal::new(7, 2),
        3_600_000,
        120,
        500,
    )
    .unwrap();

    assert_eq!(calculation.view.size, "10");
    assert_eq!(
        Decimal::parse(&calculation.view.cost).unwrap(),
        Decimal::new(9, 1)
    );
    assert_eq!(
        Decimal::parse(&calculation.view.fees).unwrap(),
        Decimal::new(343, 4)
    );
    assert!(Decimal::parse(&calculation.view.net_edge).unwrap().is_positive());
    assert!(calculation.view.rejections.is_empty());
}

#[test]
fn rejects_stale_polymarket_internal_pair() {
    let calculation = calculate_polymarket_internal(
        &[(Decimal::new(40, 2), Decimal::from_i64(10))],
        &[(Decimal::new(50, 2), Decimal::from_i64(10))],
        Decimal::zero(),
        3_600_000,
        2_000,
        6_000,
    )
    .unwrap();

    assert!(calculation
        .view
        .rejections
        .contains(&"Polymarket 两盘口时间差超过 1 秒".into()));
    assert!(calculation
        .view
        .rejections
        .contains(&"Polymarket 盘口年龄超过 5 秒".into()));
}

#[test]
fn creates_risk_filtered_paper_trade_capped_at_ten_shares() {
    let pair = TrackedPairView {
        slug: "btc-updown-5m-1".into(),
        binance_topic_id: 1,
        title: "BTC".into(),
        asset: "BTC".into(),
        duration: "5m".into(),
        classification: "basis".into(),
        differences: vec!["抵押/兑付币种不同：USDT / USDC".into()],
        binance_source: "source-a".into(),
        polymarket_source: "source-b".into(),
        start_ms: 0,
        end_ms: 200_000,
        binance_fee_bps: 200,
        polymarket_fee_rate: "0.07".into(),
        liquidity: "1".into(),
        trade_volume: "1".into(),
    };
    let observation = ObservationView {
        slug: pair.slug.clone(),
        observed_at_ms: 100_000,
        binance_up_ask: Some("0.45".into()),
        binance_down_ask: None,
        polymarket_up_ask: None,
        polymarket_down_ask: Some("0.50".into()),
        direction_a_cost: Some("0.95".into()),
        direction_a_fees: Some("0.02".into()),
        direction_a_net_edge: Some("0.03".into()),
        direction_a_risk_buffers: Some("0.001".into()),
        direction_a_size: Some("10".into()),
        direction_a_rejections: vec![],
        direction_b_cost: None,
        direction_b_fees: None,
        direction_b_net_edge: None,
        direction_b_risk_buffers: None,
        direction_b_size: None,
        direction_b_rejections: vec![],
        scan_latency_ms: None,
        direction_a_quote_skew_ms: Some(500),
        direction_b_quote_skew_ms: None,
        direction_a_quote_age_ms: Some(1_000),
        direction_b_quote_age_ms: None,
        remaining_time_ms: Some(100_000),
        binance_reference_price: Some("65000".into()),
        binance_reference_at_ms: Some(99_000),
        polymarket_reference_price: Some("64990".into()),
        polymarket_reference_at_ms: Some(99_000),
        binance_internal: None,
        polymarket_internal: None,
    };
    let trade = paper_trade(&pair, &observation, "A").unwrap();
    assert_eq!(trade.quantity, "10");
    assert_eq!(trade.expected_profit, "0.30");
    assert_eq!(trade.total_risk_buffers, "0.010");
}

#[test]
fn rejects_paper_trade_for_incompatible_pair() {
    let pair = TrackedPairView {
        slug: "btc-updown-1h-1".into(),
        binance_topic_id: 1,
        title: "BTC".into(),
        asset: "BTC".into(),
        duration: "1h".into(),
        classification: "incompatible".into(),
        differences: vec!["事件时间窗口不同".into()],
        binance_source: "source-a".into(),
        polymarket_source: "source-b".into(),
        start_ms: 0,
        end_ms: 1,
        binance_fee_bps: 200,
        polymarket_fee_rate: "0.07".into(),
        liquidity: "1".into(),
        trade_volume: "1".into(),
    };
    let observation = ObservationView {
        slug: pair.slug.clone(),
        observed_at_ms: 1,
        binance_up_ask: Some("0.40".into()),
        binance_down_ask: None,
        polymarket_up_ask: None,
        polymarket_down_ask: Some("0.40".into()),
        direction_a_cost: Some("0.80".into()),
        direction_a_fees: Some("0.02".into()),
        direction_a_net_edge: Some("0.18".into()),
        direction_a_risk_buffers: Some("0.001".into()),
        direction_a_size: Some("100".into()),
        direction_a_rejections: vec![],
        direction_b_cost: None,
        direction_b_fees: None,
        direction_b_net_edge: None,
        direction_b_risk_buffers: None,
        direction_b_size: None,
        direction_b_rejections: vec![],
        scan_latency_ms: None,
        direction_a_quote_skew_ms: None,
        direction_b_quote_skew_ms: None,
        direction_a_quote_age_ms: None,
        direction_b_quote_age_ms: None,
        remaining_time_ms: None,
        binance_reference_price: None,
        binance_reference_at_ms: None,
        polymarket_reference_price: None,
        polymarket_reference_at_ms: None,
        binance_internal: None,
        polymarket_internal: None,
    };

    assert!(paper_trade(&pair, &observation, "A").is_none());
}

#[test]
fn only_paper_trades_settlement_aligned_pairs() {
    let aligned = TrackedPairView {
        classification: "basis".into(),
        differences: vec!["抵押/兑付币种不同：USDT / USDC".into()],
        ..test_pair()
    };
    assert!(is_paper_settlement_aligned(&aligned));

    let cross_oracle = TrackedPairView {
        classification: "basis".into(),
        differences: vec!["价格源 Feed 不同".into()],
        ..test_pair()
    };
    assert!(!is_paper_settlement_aligned(&cross_oracle));
}

#[test]
fn reports_actionable_paper_rejection_reasons() {
    let pair = TrackedPairView {
        classification: "basis".into(),
        differences: vec!["价格源 Feed 不同".into()],
        ..test_pair()
    };
    let observation = ObservationView {
        slug: pair.slug.clone(),
        observed_at_ms: 100_000,
        binance_up_ask: Some("0.45".into()),
        binance_down_ask: None,
        polymarket_up_ask: None,
        polymarket_down_ask: Some("0.50".into()),
        direction_a_cost: Some("0.95".into()),
        direction_a_fees: Some("0.02".into()),
        direction_a_net_edge: Some("0.01".into()),
        direction_a_risk_buffers: Some("0.005".into()),
        direction_a_size: Some("10".into()),
        direction_a_rejections: vec![],
        direction_b_cost: None,
        direction_b_fees: None,
        direction_b_net_edge: None,
        direction_b_risk_buffers: None,
        direction_b_size: None,
        direction_b_rejections: vec![],
        scan_latency_ms: None,
        direction_a_quote_skew_ms: Some(1_500),
        direction_b_quote_skew_ms: None,
        direction_a_quote_age_ms: Some(1_000),
        direction_b_quote_age_ms: None,
        remaining_time_ms: Some(100_000),
        binance_reference_price: Some("65000".into()),
        binance_reference_at_ms: Some(99_000),
        polymarket_reference_price: Some("64990".into()),
        polymarket_reference_at_ms: Some(99_000),
        binance_internal: None,
        polymarket_internal: None,
    };
    let reasons = paper_rejection_reasons(&pair, &observation, "A");
    assert!(reasons.contains(&"结算规则未对齐".into()));
    assert!(reasons.contains(&"净空间低于 2%".into()));
    assert!(reasons.contains(&"盘口时间差超过 1 秒".into()));
}

#[test]
fn confirms_signal_across_normal_scan_interval_and_resets_after_gap() {
    let key = ("btc-window".to_string(), "A".to_string());
    let mut active = ActiveSignals::new();

    assert!(!record_qualifying_sample(&mut active, key.clone(), 1_000));
    assert!(record_qualifying_sample(&mut active, key.clone(), 7_000));

    active.remove("btc-window", "A");
    assert!(!record_qualifying_sample(&mut active, key.clone(), 1_000));
    assert!(!record_qualifying_sample(&mut active, key.clone(), 17_000));
    assert!(record_qualifying_sample(&mut active, key, 23_000));
}

#[test]
fn derives_binance_outcome_from_decimal_prices() {
    assert_eq!(
        binance_outcome(Some("100.01"), Some("100.02")),
        Some("Up".into())
    );
    assert_eq!(
        binance_outcome(Some("100.01"), Some("99.99")),
        Some("Down".into())
    );
    assert_eq!(
        binance_outcome(Some("100.010"), Some("100.01")),
        Some("Split".into())
    );
    assert_eq!(binance_outcome(Some("100"), None), None);
}

#[test]
fn calculates_quote_timestamp_skew_in_milliseconds() {
    assert_eq!(quote_skew_ms(1_000, "1250"), Some(250));
    assert_eq!(quote_skew_ms(1_250, "1000"), Some(250));
    assert_eq!(quote_skew_ms(1_000, "invalid"), None);
}

#[test]
fn normalizes_rtds_timestamp_units_to_milliseconds() {
    assert_eq!(rtds_timestamp_ms(1_789_460_900), Some(1_789_460_900_000));
    assert_eq!(
        rtds_timestamp_ms(1_789_460_900_123),
        Some(1_789_460_900_123)
    );
    assert_eq!(rtds_timestamp_ms(0), None);
}

#[test]
fn parses_polymarket_rtds_e18_price_without_float() {
    assert_eq!(
        rtds_fixed_point_price("65000500000000000000000"),
        Some(Decimal::new(650005, 1))
    );
    assert_eq!(rtds_fixed_point_price("invalid"), None);
}

#[test]
fn the_parts_of_a_purchase_add_up_to_what_it_pays() {
    let calculation = calculate_cross(
        &[(Decimal::new(69, 2), Decimal::new(224, 0))],
        &[(Decimal::new(26, 2), Decimal::new(300, 0))],
        Decimal::new(2, 2),
        Decimal::new(7, 2),
        0,
    )
    .unwrap();
    let charged = calculation
        .cost
        .checked_add(calculation.fees)
        .unwrap()
        .checked_add(calculation.risk_buffers)
        .unwrap();
    assert_eq!(charged.checked_add(calculation.net_edge).unwrap(), Decimal::one());
    let lost = calculate_cross(
        &[(Decimal::new(69, 2), Decimal::new(224, 0))],
        &[(Decimal::new(36, 2), Decimal::new(300, 0))],
        Decimal::new(2, 2),
        Decimal::new(7, 2),
        0,
    )
    .unwrap();
    assert!(lost.net_edge.is_negative());
}
