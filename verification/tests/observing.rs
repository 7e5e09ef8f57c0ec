use arbitrage_observer::binance::{
    BinanceMarketDetail, BinanceMarketTopic, BinanceOrderBook, BinanceOutcome,
    BinanceOutcomeMarket, BinancePriceLevel, BinanceVariantData,
};
use arbitrage_observer::dashboard::{
    find_tracked, row_limit, track, DashboardState, ScannerMemory,
};
use arbitrage_observer::decimal::Decimal;
use arbitrage_observer::pairs::{
    build_pair, duration_label, find_live_hour, is_active, is_candidate_topic,
    is_paper_settlement_aligned, is_research_eligible, TrackedPair,
};
use arbitrage_observer::polymarket::{
    PolymarketEvent, PolymarketFeeSchedule, PolymarketMarket, PolymarketOrderBook,
    PolymarketPriceLevel,
};
use arbitrage_observer::quotes::RtdsTwapEvent;
use arbitrage_observer::scan::{
    book_tokens, direction_levels, direction_tokens, polymarket_internal_levels, scan_pair,
    ScanPairResult,
};
use arbitrage_observer::shadow::{
    automatic_internal_shadow, automatic_shadow, check_simulated_pair, check_simulation_request,
    finish_simulation, order_status_name,
    plan_simulation, shadow_record,
};
use arbitrage_observer::domain::OrderStatus;

const START: i64 = 1_789_460_400_000;
const END: i64 = START + 3_600_000;

fn topic() -> BinanceMarketTopic {
    BinanceMarketTopic {
        market_topic_id: 7,
        vendor: "PREDICT".into(),
        slug: "btc-updown-1h-1789460400".into(),
        title: "BTC".into(),
        question: "q".into(),
        symbol: "BTCUSDT".into(),
        collateral: "USDT".into(),
        fee_rate_bps: 200,
        slippage_bps: 0,
        liquidity: "5".into(),
        trade_volume: "6".into(),
        start_date: START,
        end_date: END,
        status: "ACTIVE".into(),
    }
}

fn outcome(name: &str, token: &str) -> BinanceOutcome {
    BinanceOutcome {
        name: name.into(),
        price: "0.5".into(),
        chance: "50".into(),
        index: 0,
        token_id: token.into(),
    }
}

fn detail() -> BinanceMarketDetail {
    BinanceMarketDetail {
        market_topic_id: 7,
        vendor: "PREDICT".into(),
        slug: "btc-updown-1h-1789460400".into(),
        title: "BTC".into(),
        question: "q".into(),
        description: Some("Up if the close is greater than or equal to the open.".into()),
        symbol: "BTCUSDT".into(),
        collateral: "USDT".into(),
        fee_rate_bps: 200,
        slippage_bps: 0,
        start_date: START,
        end_date: END,
        status: "ACTIVE".into(),
        variant_data: BinanceVariantData {
            variant_type: "v".into(),
            start_price: None,
            end_price: None,
            price_feed_id: None,
            price_feed_provider: "BINANCE".into(),
            price_feed_symbol: "BTCUSDT".into(),
        },
        markets: vec![BinanceOutcomeMarket {
            market_id: 70,
            external_id: "e".into(),
            title: "t".into(),
            description: None,
            condition_id: "c".into(),
            status: "ACTIVE".into(),
            trading_status: "OPEN".into(),
            decimal_precision: 2,
            outcomes: vec![outcome("DOWN", "bd"), outcome("UP", "bu")],
        }],
    }
}

fn event() -> PolymarketEvent {
    PolymarketEvent {
        id: "1".into(),
        title: "t".into(),
        slug: "btc-updown-1h-1789460400".into(),
        start_date: "".into(),
        end_date: "2026-09-15T09:20:00Z".into(),
        closed: false,
        event_metadata: None,
        markets: vec![PolymarketMarket {
            id: "1".into(),
            question: "q".into(),
            description: "d".into(),
            slug: "btc-updown-1h-1789460400".into(),
            outcomes: "[\"Up\",\"Down\"]".into(),
            outcome_prices: "[]".into(),
            clob_token_ids: "[\"pu\",\"pd\"]".into(),
            fees_enabled: true,
            fee_schedule: Some(PolymarketFeeSchedule { rate: Decimal::new(7, 2), exponent: 1 }),
            resolution_source: "https://www.Binance.com/en/trade/BTC_USDT".into(),
            event_start_time: None,
            closed: false,
            uma_resolution_status: None,
        }],
    }
}

fn pair() -> TrackedPair {
    build_pair(&topic(), detail(), Some(event())).unwrap().unwrap().unwrap()
}

fn binance_book(timestamp: i64, asks: &[(&str, &str)]) -> BinanceOrderBook {
    BinanceOrderBook {
        outcome: "Up".into(),
        token_id: "t".into(),
        timestamp,
        bids: vec![],
        asks: asks
            .iter()
            .map(|(price, size)| BinancePriceLevel {
                price: price.to_string(),
                size: size.to_string(),
            })
            .collect(),
    }
}

fn polymarket_book(timestamp: &str, asks: &[(&str, &str)]) -> PolymarketOrderBook {
    PolymarketOrderBook {
        timestamp: timestamp.into(),
        hash: "h".into(),
        bids: vec![],
        asks: asks
            .iter()
            .map(|(price, size)| PolymarketPriceLevel {
                price: price.to_string(),
                size: size.to_string(),
            })
            .collect(),
        min_order_size: "5".into(),
        tick_size: "0.01".into(),
    }
}

fn scan_at(now: i64) -> ScanPairResult {
    scan_pair(
        &pair(),
        &binance_book(now - 100, &[("0.42", "9"), ("0.40", "20")]),
        &binance_book(now - 50, &[("0.60", "20")]),
        &polymarket_book(&(now - 200).to_string(), &[("0.60", "20")]),
        &polymarket_book(&(now - 300).to_string(), &[("0.50", "20")]),
        now,
        33,
    )
    .unwrap()
    .unwrap()
}

#[test]
fn builds_an_aligned_pair() {
    let pair = pair();
    assert_eq!(pair.view.asset, "BTC");
    assert_eq!(pair.view.duration, "1h");
    assert_eq!(pair.view.classification, "basis");
    assert_eq!(
        pair.view.differences,
        vec!["抵押/兑付币种不同：USDT / USDC".to_string()]
    );
    assert_eq!(pair.view.binance_source, "BINANCE/BTCUSDT");
    assert_eq!(pair.view.polymarket_fee_rate, "0.07");
    assert_eq!(pair.polymarket_up_token, "pu");
    assert_eq!(pair.polymarket_down_token, "pd");
    assert!(is_paper_settlement_aligned(&pair.view));
    assert!(is_research_eligible("exact"));
    assert!(!is_research_eligible("incompatible"));
}

#[test]
fn tells_other_rules_and_windows_apart() {
    let mut chainlink = event();
    chainlink.markets[0].resolution_source = "https://data.chain.link/streams/btc-usd".into();
    let other = build_pair(&topic(), detail(), Some(chainlink)).unwrap().unwrap().unwrap();
    assert_eq!(other.view.classification, "basis");
    assert!(!is_paper_settlement_aligned(&other.view));
    assert!(other.view.differences.contains(&"报价币种不同：USDT / USD".to_string()));
    let mut late = event();
    late.end_date = "2026-09-15T09:25:00Z".into();
    let other = build_pair(&topic(), detail(), Some(late)).unwrap().unwrap().unwrap();
    assert_eq!(other.view.classification, "incompatible");
    let mut started = event();
    started.markets[0].event_start_time = Some("2026-09-15T09:00:00Z".into());
    let other = build_pair(&topic(), detail(), Some(started)).unwrap().unwrap().unwrap();
    assert_eq!(other.view.classification, "incompatible");
}

#[test]
fn leaves_out_what_cannot_be_paired() {
    assert!(build_pair(&topic(), detail(), None).unwrap().unwrap().is_none());
    let mut renamed = event();
    renamed.markets[0].slug = "other".into();
    assert!(build_pair(&topic(), detail(), Some(renamed)).unwrap().unwrap().is_none());
    let mut without = event();
    without.markets[0].fee_schedule = None;
    assert_eq!(
        build_pair(&topic(), detail(), Some(without)).unwrap().unwrap_err(),
        "Polymarket 市场缺少 feeSchedule：btc-updown-1h-1789460400"
    );
    let mut square = event();
    square.markets[0].fee_schedule =
        Some(PolymarketFeeSchedule { rate: Decimal::new(7, 2), exponent: 2 });
    assert_eq!(
        build_pair(&topic(), detail(), Some(square)).unwrap().unwrap_err(),
        "Polymarket 暂不支持的费用指数：btc-updown-1h-1789460400 exponent=2"
    );
    let mut free = event();
    free.markets[0].fees_enabled = false;
    free.markets[0].fee_schedule = None;
    let other = build_pair(&topic(), detail(), Some(free)).unwrap().unwrap().unwrap();
    assert_eq!(other.polymarket_fee_rate, Decimal::zero());
    let mut empty = detail();
    empty.markets.clear();
    assert_eq!(
        build_pair(&topic(), empty, Some(event())).unwrap().unwrap_err(),
        "Binance 市场缺少 outcome"
    );
    let mut single = detail();
    single.markets[0].outcomes.pop();
    assert_eq!(
        build_pair(&topic(), single, Some(event())).unwrap().unwrap_err(),
        "Binance 市场缺少 Up/Down Token"
    );
}

#[test]
fn picks_topics_by_time() {
    let topic = topic();
    assert!(is_candidate_topic(&topic, START - 86_400_000));
    assert!(!is_candidate_topic(&topic, START - 86_400_001));
    assert!(is_candidate_topic(&topic, END - 1));
    assert!(!is_candidate_topic(&topic, END));
    let view = pair().view;
    assert!(is_active(&view, START));
    assert!(!is_active(&view, START - 1));
    assert!(!is_active(&view, END));
    assert_eq!(find_live_hour(&vec![topic], "btc", START), Ok(0));
    assert!(find_live_hour(&vec![], "btc", START).is_err());
}

#[test]
fn labels_durations() {
    assert_eq!(duration_label(0, 300_000).unwrap(), "5m");
    assert_eq!(duration_label(0, 3_600_000).unwrap(), "1h");
    assert_eq!(duration_label(0, 5_400_000).unwrap(), "1h");
    assert_eq!(duration_label(0, 172_800_000).unwrap(), "2d");
    assert!(duration_label(i64::MIN, i64::MAX).is_none());
}

#[test]
fn finds_the_tokens_to_ask_for() {
    let tokens = book_tokens(&detail()).unwrap();
    assert_eq!(tokens.vendor, "predict");
    assert_eq!(tokens.market_id, 70);
    assert_eq!(tokens.up_token, "bu");
    assert_eq!(tokens.down_token, "bd");
    let a = direction_tokens(&pair(), "A").unwrap();
    assert_eq!((a.binance_token.as_str(), a.polymarket_token.as_str()), ("bu", "pd"));
    let b = direction_tokens(&pair(), "B").unwrap();
    assert_eq!((b.binance_token.as_str(), b.polymarket_token.as_str()), ("bd", "pu"));
    let mut without = detail();
    without.markets[0].outcomes[1].name = "Yes".into();
    assert_eq!(book_tokens(&without).unwrap_err(), "Binance Up Token 缺失");
}

#[test]
fn scans_both_directions_of_a_pair() {
    let now = START + 1_000;
    let scan = scan_at(now);
    let seen = &scan.observation;
    assert_eq!(seen.binance_up_ask.as_deref(), Some("0.40"));
    assert_eq!(seen.polymarket_down_ask.as_deref(), Some("0.50"));
    assert_eq!(seen.direction_a_cost.as_deref(), Some("0.90"));
    assert_eq!(seen.direction_a_size.as_deref(), Some("10"));
    assert_eq!(seen.direction_a_quote_skew_ms, Some(200));
    assert_eq!(seen.direction_a_quote_age_ms, Some(300));
    assert_eq!(seen.remaining_time_ms, Some(3_599_000));
    assert_eq!(seen.scan_latency_ms, Some(33));
    let plan = scan.direction_a_plan.unwrap();
    assert_eq!(plan.first_request.limit_price, Decimal::new(40, 2));
    assert_eq!(plan.second_request.limit_price, Decimal::new(50, 2));
    assert!(seen.binance_internal.is_some());
    assert!(seen.polymarket_internal.is_some());
    let over = scan_at(END);
    assert_eq!(over.observation.direction_a_cost, None);
    assert!(over.direction_a_plan.is_none());
}

#[test]
fn names_a_level_that_cannot_be_read() {
    let now = START + 1_000;
    let good = binance_book(now, &[("0.40", "20")]);
    let bad = polymarket_book("1", &[("x", "1")]);
    let fine = polymarket_book("1", &[("0.5", "1")]);
    let outcome = scan_pair(&pair(), &good, &good, &fine, &bad, now, 0).unwrap();
    assert!(outcome.unwrap_err().starts_with("Polymarket 响应字段无效："));
    let strange = polymarket_book("soon", &[("0.5", "20")]);
    let scan = scan_pair(&pair(), &good, &good, &strange, &fine, now, 0).unwrap().unwrap();
    assert!(scan.observation.polymarket_internal.is_none());
    assert_eq!(scan.observation.direction_b_quote_skew_ms, None);
}

#[test]
fn executes_only_on_fresh_books() {
    let now = 100_000;
    let first = binance_book(now - 10, &[("0.40", "20")]);
    assert!(direction_levels(&first, &polymarket_book("99900", &[("0.5", "1")]), now).is_ok());
    assert_eq!(
        direction_levels(&first, &polymarket_book("98000", &[]), now).unwrap_err(),
        "双边盘口时间差 1990ms 超过 1000ms"
    );
    assert_eq!(
        direction_levels(&first, &polymarket_book("x", &[]), now).unwrap_err(),
        "无法解析双边盘口时间戳"
    );
    let old = binance_book(now - 6_000, &[("0.40", "20")]);
    assert!(direction_levels(&old, &polymarket_book("94000", &[]), now).is_err());
    let up = polymarket_book("99900", &[("0.4", "9")]);
    let levels = polymarket_internal_levels(&up, &up, now).unwrap();
    assert_eq!(levels.0[0].price, Decimal::new(4, 1));
    assert!(polymarket_internal_levels(&up, &polymarket_book("y", &[]), now).is_err());
}

#[test]
fn tracks_the_last_pair_of_a_slug() {
    let mut again = pair();
    again.view.title = "again".into();
    let mut other = pair();
    other.view.slug = "other".into();
    other.view.end_ms = START;
    let watched = track(vec![pair(), other, again]);
    assert_eq!(watched.len(), 2);
    let place = find_tracked(&watched, "btc-updown-1h-1789460400").unwrap();
    assert_eq!(watched[place].view.title, "again");
    assert!(find_tracked(&watched, "missing").is_none());
    let mut dashboard = DashboardState::default();
    dashboard.discovery_failed("offline".into());
    assert_eq!(dashboard.scanner_status, "degraded");
    assert_eq!(dashboard.last_error.as_deref(), Some("offline"));
    dashboard.take_discovery(&watched, 5);
    assert_eq!(dashboard.scanner_status, "running");
    assert_eq!(dashboard.last_error, None);
    assert_eq!(dashboard.last_discovery_ms, Some(5));
    assert_eq!(dashboard.pairs[0].pair.slug, "other");
    assert_eq!(dashboard.pairs[1].pair.title, "again");
}

#[test]
fn follows_a_signal_from_first_sight_to_one_trade() {
    let watched = track(vec![pair()]);
    let mut dashboard = DashboardState::default();
    dashboard.take_discovery(&watched, 5);
    let mut memory = ScannerMemory::new();
    let place = dashboard.find_pair("btc-updown-1h-1789460400").unwrap();
    let mut observe = |dashboard: &mut DashboardState, memory: &mut ScannerMemory, now: i64| {
        assert_eq!(dashboard.note_spot_price("BTC", "65000".into(), now), Some(()));
        let event = RtdsTwapEvent {
            topic: "crypto_prices_twap_sixty".into(),
            symbol: "btc/usd".into(),
            full_accuracy_value: "64990000000000000000000".into(),
            timestamp: now,
        };
        assert_eq!(dashboard.note_rtds_event("BTC", &event, "btc/usd"), Some(true));
        let mut scan = scan_at(now);
        dashboard.annotate(place, &mut scan.observation);
        dashboard.take_scan(memory, place, scan, true).unwrap()
    };
    let now = START + 1_000;
    let first = observe(&mut dashboard, &mut memory, now);
    assert!(first.direction_a.store.is_none());
    assert!(first.direction_a.follow_up.is_some());
    assert!(first.direction_b.follow_up.is_none());
    assert_eq!(dashboard.observation_count, 1);
    assert_eq!(dashboard.opportunity_count, 1);
    let seen = dashboard.pairs[place].latest.clone().unwrap();
    assert!(seen.direction_a_rejections.is_empty());
    assert!(!seen.direction_b_rejections.is_empty());
    assert_eq!(seen.binance_reference_price.as_deref(), Some("65000"));
    let second = observe(&mut dashboard, &mut memory, now + 6_000);
    assert!(second.direction_a.follow_up.is_none());
    let trade = second.direction_a.store.unwrap();
    assert_eq!(trade.quantity, "10");
    assert_eq!(trade.direction, "A");
    memory.paper.mark_executed("btc-updown-1h-1789460400", "A");
    let third = observe(&mut dashboard, &mut memory, now + 7_000);
    assert!(third.direction_a.store.is_none());
    assert_eq!(dashboard.observation_count, 3);
}

#[test]
fn follows_orders_on_one_venue_up_once() {
    let watched = track(vec![pair()]);
    let mut dashboard = DashboardState::default();
    dashboard.take_discovery(&watched, 5);
    let now = START + 1_000;
    let cheap = |now: i64| {
        scan_pair(
            &pair(),
            &binance_book(now, &[("0.90", "20")]),
            &binance_book(now, &[("0.90", "20")]),
            &polymarket_book(&now.to_string(), &[("0.40", "20")]),
            &polymarket_book(&now.to_string(), &[("0.40", "20")]),
            now,
            1,
        )
        .unwrap()
        .unwrap()
    };
    let mut memory = ScannerMemory::new();
    let actions = dashboard.take_scan(&mut memory, 0, cheap(now), false).unwrap();
    assert!(actions.internal.is_none());
    let actions = dashboard.take_scan(&mut memory, 0, cheap(now), true).unwrap();
    assert!(actions.internal.is_some());
    let actions = dashboard.take_scan(&mut memory, 0, cheap(now + 1), true).unwrap();
    assert!(actions.internal.is_none());
}

#[test]
fn shows_what_went_wrong_with_a_pair() {
    let watched = track(vec![pair()]);
    let mut dashboard = DashboardState::default();
    dashboard.take_discovery(&watched, 5);
    dashboard.pair_failed(0, "timeout".into());
    assert_eq!(dashboard.pairs[0].error.as_deref(), Some("timeout"));
    dashboard.store_failed(0, "disk full");
    assert_eq!(dashboard.pairs[0].error.as_deref(), Some("SQLite：disk full"));
    let mut memory = ScannerMemory::new();
    dashboard.take_scan(&mut memory, 0, scan_at(START + 1), true).unwrap();
    assert_eq!(dashboard.pairs[0].error, None);
    assert!(dashboard.reference_for("BTC").is_none());
    let stray = RtdsTwapEvent {
        topic: "other".into(),
        symbol: "btc/usd".into(),
        full_accuracy_value: "1".into(),
        timestamp: 1,
    };
    assert_eq!(dashboard.note_rtds_event("BTC", &stray, "btc/usd"), Some(false));
    assert!(dashboard.reference_for("BTC").is_none());
}

#[test]
fn bounds_the_rows_of_an_answer() {
    assert_eq!(row_limit(None, 300, 2_000), 300);
    assert_eq!(row_limit(Some(5), 300, 2_000), 5);
    assert_eq!(row_limit(Some(9_999), 300, 2_000), 2_000);
}

#[test]
fn records_a_simulated_execution() {
    let scan = scan_at(START + 1_000);
    let plan = scan.direction_a_plan.unwrap();
    let now = START + 1_250;
    let levels = direction_levels(
        &binance_book(now, &[("0.40", "20")]),
        &polymarket_book(&now.to_string(), &[("0.51", "20")]),
        now,
    );
    let record =
        shadow_record(&pair().view, "A", START, now, plan, levels, "automatic").unwrap();
    assert_eq!(record.first_status, "fully_filled");
    assert_eq!(record.first_total_cost, "4.00");
    assert_eq!(record.second_status, "cancelled");
    assert_eq!(record.second_average_price, None);
    assert_eq!(record.unhedged_quantity, "10");
    assert_eq!(record.status, "unhedged");
    assert!(record.error.is_some());
    let failed =
        shadow_record(&pair().view, "A", START, now, plan, Err("stale".into()), "automatic")
            .unwrap();
    assert_eq!(failed.status, "error");
    assert_eq!(failed.first_status, "not_submitted");
    assert_eq!(failed.error.as_deref(), Some("stale"));
    assert_eq!(order_status_name(OrderStatus::PartiallyFilled), "partially_filled");
}

#[test]
fn follow_ups_name_their_trigger_and_time() {
    let plan = scan_at(START + 1_000).direction_a_plan.unwrap();
    let begun = START + 1_250;
    let came = START + 1_300;
    let (first, second) = direction_levels(
        &binance_book(came, &[("0.40", "20")]),
        &polymarket_book(&came.to_string(), &[("0.45", "20")]),
        came,
    )
    .unwrap();
    let view = pair().view;
    let across = automatic_shadow(
        &view,
        "B",
        START,
        begun,
        plan,
        Ok((first.clone(), second.clone(), came)),
    )
    .unwrap();
    assert_eq!(across.direction, "B");
    assert_eq!(across.trigger_source, "automatic");
    assert_eq!(across.executed_at_ms, came);
    assert_eq!(across.status, "hedged");
    let within =
        automatic_internal_shadow(&view, START, begun, plan, Ok((first, second, came))).unwrap();
    assert_eq!(within.direction, "PM_INTERNAL");
    assert_eq!(within.trigger_source, "automatic_polymarket_internal_250ms");
    assert_eq!(within.executed_at_ms, came);
    let failed =
        automatic_internal_shadow(&view, START, begun, plan, Err("stale".into())).unwrap();
    assert_eq!(failed.executed_at_ms, begun);
    assert_eq!(failed.status, "error");
    assert_eq!(failed.trigger_source, "automatic_polymarket_internal_250ms");
}

#[test]
fn plans_and_finishes_a_simulation() {
    let now = START;
    let (first, second) = direction_levels(
        &binance_book(now, &[("0.40", "20")]),
        &polymarket_book(&now.to_string(), &[("0.50", "20")]),
        now,
    )
    .unwrap();
    let step = Decimal::new(1, 2);
    let budget = Some(Decimal::from_i64(9));
    let plan = plan_simulation(&first, &second, None, budget, None, None, step)
        .unwrap()
        .unwrap();
    assert_eq!(plan.first_request.quantity, Decimal::from_i64(10));
    let done = finish_simulation("s", "A", 1, 2, plan, &first, &second).unwrap();
    assert_eq!(done.report.status, OrderStatus::Hedged);
    let refused = plan_simulation(
        &first,
        &second,
        Some(Decimal::from_i64(21)),
        None,
        None,
        None,
        step,
    )
    .unwrap()
    .unwrap_err();
    assert!(refused.starts_with("提交前预检拒绝：第一腿预检失败："));
    let empty = vec![];
    assert_eq!(
        plan_simulation(&empty, &second, None, None, None, None, step).unwrap().unwrap_err(),
        "第一腿没有卖盘"
    );
    assert_eq!(
        plan_simulation(&first, &empty, None, None, None, None, step).unwrap().unwrap_err(),
        "第二腿没有卖盘"
    );
    assert_eq!(
        plan_simulation(&first, &second, None, Some(Decimal::zero()), None, None, step)
            .unwrap()
            .unwrap_err(),
        "预算、限价或数量步长无效"
    );
}

#[test]
fn refuses_a_simulation_that_makes_no_sense() {
    let one = Some(Decimal::one());
    assert!(check_simulation_request("A", one, None).is_ok());
    assert_eq!(
        check_simulation_request("A", one, one).unwrap_err(),
        "份数和预算只能指定一个"
    );
    assert_eq!(
        check_simulation_request("C", None, None).unwrap_err(),
        "方向只能是 A 或 B"
    );
    assert!(check_simulated_pair(&Some(pair().view), "BTC").is_ok());
    assert_eq!(
        check_simulated_pair(&None, "BTC").unwrap_err(),
        "当前 BTC 1h 市场的结算规则未对齐"
    );
}
