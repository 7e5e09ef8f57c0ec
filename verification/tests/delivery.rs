use arbitrage_observer::binance::{
    BinanceDeliveryPremiumIndex, BinanceFundingInfo, BinanceFuturesSymbol, BinancePremiumIndex,
    BinancePublicOrderBook, BinanceSpotSymbol, BinanceSymbolFilter,
};
use arbitrage_observer::basis::{basis_from_answers, funding_interval, gap_ms};
use arbitrage_observer::decimal::Decimal;
use arbitrage_observer::delivery::{
    delivery_from_answers, discover_contracts, next_requote_delay, next_requote_wait,
    requote_record, scheduled_requote, DeliveryContract, DeliveryPlan, RequoteLog,
};

const DAY_MS: i64 = 86_400_000;

fn filters(step: &str, minimum: &str, tick: &str) -> Vec<BinanceSymbolFilter> {
    vec![
        BinanceSymbolFilter {
            filter_type: "PRICE_FILTER".into(),
            tick_size: Some(tick.into()),
            step_size: None,
            min_qty: None,
        },
        BinanceSymbolFilter {
            filter_type: "LOT_SIZE".into(),
            tick_size: None,
            step_size: Some(step.into()),
            min_qty: Some(minimum.into()),
        },
    ]
}

fn future(symbol: &str, pair: &str, contract_type: &str, status: &str) -> BinanceFuturesSymbol {
    BinanceFuturesSymbol {
        symbol: symbol.into(),
        pair: pair.into(),
        contract_type: contract_type.into(),
        delivery_date: 31 * DAY_MS,
        status: status.into(),
        filters: filters("0.001", "0.002", "0.1"),
    }
}

fn book(bids: &[(&str, &str)], asks: &[(&str, &str)]) -> BinancePublicOrderBook {
    let side = |levels: &[(&str, &str)]| {
        levels
            .iter()
            .map(|(price, size)| [price.to_string(), size.to_string()])
            .collect()
    };
    BinancePublicOrderBook {
        last_update_id: 1,
        event_time: None,
        bids: side(bids),
        asks: side(asks),
    }
}

fn contract() -> DeliveryContract {
    DeliveryContract {
        symbol: "BTCUSDT_261225".into(),
        pair: "BTCUSDT".into(),
        contract_type: "NEXT_QUARTER".into(),
        delivery_date: 31 * DAY_MS,
        quantity_step: Decimal::new(1, 3),
        minimum_quantity: Decimal::new(1, 3),
        spot_price_tick: Decimal::new(1, 2),
        delivery_price_tick: Decimal::new(1, 1),
    }
}

fn premium() -> BinanceDeliveryPremiumIndex {
    BinanceDeliveryPremiumIndex {
        symbol: "BTCUSDT_261225".into(),
        mark_price: "102".into(),
        index_price: "100".into(),
        time: DAY_MS - 50,
    }
}

#[test]
fn discovers_contracts_with_the_coarser_rules() {
    let spot = vec![BinanceSpotSymbol {
        symbol: "BTCUSDT".into(),
        status: "TRADING".into(),
        filters: filters("0.00001", "0.01", "0.01"),
    }];
    let futures = vec![
        future("BTCUSDT", "BTCUSDT", "PERPETUAL", "TRADING"),
        future("BTCUSDT_261225", "BTCUSDT", "NEXT_QUARTER", "TRADING"),
        future("BTCUSDT_OLD", "BTCUSDT", "NEXT_QUARTER", "SETTLING"),
        future("DOGEUSDT_261225", "DOGEUSDT", "NEXT_QUARTER", "TRADING"),
        future("ETHUSDT_261225", "ETHUSDT", "NEXT_QUARTER", "TRADING"),
    ];
    let contracts = discover_contracts(&futures, &spot, DAY_MS);
    assert_eq!(contracts.len(), 1);
    assert_eq!(contracts[0].symbol, "BTCUSDT_261225");
    assert_eq!(contracts[0].quantity_step, Decimal::new(1, 3));
    assert_eq!(contracts[0].minimum_quantity, Decimal::new(1, 2));
    assert_eq!(contracts[0].spot_price_tick, Decimal::new(1, 2));
    assert_eq!(contracts[0].delivery_price_tick, Decimal::new(1, 1));
    assert!(discover_contracts(&futures, &spot, 31 * DAY_MS).is_empty());
}

#[test]
fn scans_a_contract_from_its_answers() {
    let spot = book(&[], &[("100", "4"), ("100.5", "20")]);
    let delivery = book(&[("102", "20")], &[]);
    let scan = delivery_from_answers(
        &contract(),
        DAY_MS,
        &spot,
        DAY_MS + 30,
        &delivery,
        DAY_MS + 10,
        &premium(),
        100,
    )
    .unwrap()
    .unwrap();
    assert_eq!(scan.observation.response_skew_ms, 20);
    assert_eq!(scan.observation.premium_age_ms, 50);
    assert_eq!(scan.observation.remaining_days, "30");
    assert_eq!(scan.plan.delivery_limit_price, Decimal::from_i64(102));
    assert_eq!(scan.plan.spot_limit_price, Decimal::new(1005, 1));
    assert_eq!(scan.plan.quantity.plain_text(), scan.observation.quantity);
}

#[test]
fn names_the_answer_that_cannot_be_read() {
    let good = book(&[("102", "20")], &[("100", "4")]);
    let mut broken = premium();
    broken.mark_price = "x".into();
    let outcome =
        delivery_from_answers(&contract(), DAY_MS, &good, 0, &good, 0, &broken, 0).unwrap();
    assert!(outcome.is_err());
    let empty = book(&[], &[]);
    let outcome =
        delivery_from_answers(&contract(), DAY_MS, &empty, 0, &empty, 0, &premium(), 0).unwrap();
    assert!(outcome.is_err());
}

#[test]
fn records_whether_a_plan_can_still_be_filled() {
    let plan = DeliveryPlan {
        quantity: Decimal::from_i64(2),
        spot_limit_price: Decimal::from_i64(100),
        delivery_limit_price: Decimal::from_i64(102),
    };
    let record = requote_record(
        "BTCUSDT_261225",
        1,
        2,
        250,
        plan,
        Ok((book(&[], &[("100", "5")]), book(&[("103", "5")], &[]))),
    )
    .unwrap();
    assert_eq!(record.status, "both_fillable");
    assert_eq!(record.spot_cost.as_deref(), Some("200"));
    assert_eq!(record.delivery_proceeds.as_deref(), Some("206"));
    assert_eq!(record.gross_basis.as_deref(), Some("6"));
    let record = requote_record(
        "BTCUSDT_261225",
        1,
        2,
        1_000,
        plan,
        Ok((book(&[], &[("101", "5")]), book(&[("103", "5")], &[]))),
    )
    .unwrap();
    assert_eq!(record.status, "cancelled");
    assert!(!record.spot_fillable);
    assert!(record.delivery_fillable);
    assert_eq!(record.gross_basis, None);
    let record =
        requote_record("BTCUSDT_261225", 1, 2, 5_000, plan, Err("timeout".into())).unwrap();
    assert_eq!(record.status, "error");
    assert_eq!(record.error.as_deref(), Some("timeout"));
    let record = requote_record(
        "BTCUSDT_261225",
        1,
        2,
        5_000,
        plan,
        Ok((book(&[], &[("x", "5")]), book(&[("103", "5")], &[]))),
    )
    .unwrap();
    assert_eq!(record.status, "error");
}

#[test]
fn follows_a_contract_up_once_an_hour() {
    let spot = book(&[], &[("100", "20")]);
    let delivery = book(&[("102", "20")], &[]);
    let observed = |at: i64| {
        delivery_from_answers(&contract(), at, &spot, at, &delivery, at, &premium(), 1)
            .unwrap()
            .unwrap()
            .observation
    };
    let mut log = RequoteLog::new();
    assert!(log.is_due(&observed(DAY_MS)));
    assert!(!log.is_due(&observed(DAY_MS + 3_599_999)));
    assert!(log.is_due(&observed(DAY_MS + 3_600_000)));
    let mut poor = observed(DAY_MS + 9_000_000);
    poor.pre_capital_net_profit = "-1".into();
    assert!(!log.is_due(&poor));
    let mut other = observed(DAY_MS + 3_600_001);
    other.symbol = "ETHUSDT_261225".into();
    assert!(log.is_due(&other));
}

#[test]
fn scans_a_perpetual_from_its_answers() {
    let index = BinancePremiumIndex {
        symbol: "BTCUSDT".into(),
        mark_price: "101".into(),
        index_price: "100".into(),
        last_funding_rate: "0.0001".into(),
        next_funding_time: 9,
        time: 990,
    };
    let spot = book(&[], &[("100", "20")]);
    let perp = book(&[("101", "20")], &[]);
    let view = basis_from_answers("BTCUSDT", 1_000, &spot, 1_010, &perp, 1_030, &index, 8, 7)
        .unwrap()
        .unwrap();
    assert_eq!(view.response_skew_ms, 20);
    assert_eq!(view.premium_age_ms, 10);
    assert_eq!(view.funding_rate, "0.0001");
    let thin = book(&[], &[]);
    assert_eq!(
        basis_from_answers("BTCUSDT", 1_000, &thin, 0, &perp, 0, &index, 8, 7)
            .unwrap()
            .unwrap_err(),
        "BTCUSDT 订单簿深度不足"
    );
    let mut broken = index.clone();
    broken.last_funding_rate = "x".into();
    assert_eq!(
        basis_from_answers("BTCUSDT", 1_000, &spot, 0, &perp, 0, &broken, 8, 7)
            .unwrap()
            .unwrap_err(),
        "资金费率无效"
    );
}

#[test]
fn knows_the_usual_funding_interval() {
    let infos = vec![
        BinanceFundingInfo { symbol: "ETHUSDT".into(), funding_interval_hours: 4 },
        BinanceFundingInfo { symbol: "ETHUSDT".into(), funding_interval_hours: 1 },
    ];
    assert_eq!(funding_interval(&infos, "ETHUSDT"), 1);
    assert_eq!(funding_interval(&infos, "BTCUSDT"), 8);
    assert_eq!(gap_ms(5, 9), 4);
}

#[test]
fn follows_a_plan_up_three_times() {
    let delays: Vec<_> = (0..5).map(next_requote_delay).collect();
    assert_eq!(delays, [Some(250), Some(1_000), Some(5_000), None, None]);
    let waits: Vec<_> = (0..5).map(next_requote_wait).collect();
    assert_eq!(waits, [Some(250), Some(750), Some(4_000), None, None]);
    let plan = DeliveryPlan {
        quantity: Decimal::one(),
        spot_limit_price: Decimal::from_i64(100),
        delivery_limit_price: Decimal::from_i64(110),
    };
    let mut done = 0;
    let mut records = Vec::new();
    while let Some(record) =
        scheduled_requote("BTCUSDT_261225", 1, 2, done, plan, Err("timeout".into())).unwrap()
    {
        records.push(record);
        done += 1;
    }
    let recorded: Vec<_> = records.iter().map(|record| record.delay_ms).collect();
    assert_eq!(recorded, [250, 1_000, 5_000]);
    assert!(records.iter().all(|record| record.status == "error" && record.quoted_at_ms == 1));
}
