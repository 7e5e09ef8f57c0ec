use arbitrage_observer::cli::{
    argument_decimal, argument_string, describe_fill, live_options, may_start, mock_book,
    mock_market, order_status_label, run_fok_simulator, scan,
};
use arbitrage_observer::decimal::Decimal;
use arbitrage_observer::domain::{
    ArbitrageDirection, MarketStatus, OrderStatus, Outcome, Venue,
};
use arbitrage_observer::execution::SimulatedExecutor;
use arbitrage_observer::time::Timestamp;

const NOW: Timestamp = Timestamp { seconds: 1_789_460_900, nanos: 0 };

fn arguments(values: &[&str]) -> Vec<String> {
    values.iter().map(|value| value.to_string()).collect()
}

#[test]
fn reads_what_follows_a_name() {
    let given = arguments(&["--asset", "ETH", "--asset", "BTC", "--quantity"]);
    assert_eq!(argument_string(&given, "--asset"), Ok(Some("ETH".to_string())));
    assert_eq!(argument_string(&given, "--direction"), Ok(None));
    assert_eq!(argument_string(&given, "--quantity"), Err("--quantity 缺少值".to_string()));
    assert_eq!(
        argument_decimal(&given, "--quantity").unwrap_err(),
        "--quantity 缺少数值"
    );
    assert_eq!(
        argument_decimal(&given, "--asset").unwrap_err(),
        "--asset 不是有效十进制定点数：ETH"
    );
    let given = arguments(&["--budget", "12.5"]);
    assert_eq!(argument_decimal(&given, "--budget"), Ok(Some(Decimal::new(125, 1))));
}

#[test]
fn never_starts_to_trade_for_real() {
    assert!(!may_start(Some("live")));
    assert!(may_start(Some("simulation")));
    assert!(may_start(None));
}

#[test]
fn makes_mock_markets_and_books() {
    let market = mock_market(Venue::Binance, Outcome::Up, NOW).unwrap();
    assert_eq!(market.market_id, "mock-Binance-Up");
    assert_eq!(market.end_time, NOW.plus_seconds(300).unwrap());
    assert_eq!(market.status, MarketStatus::Open);
    let book = mock_book(Venue::Polymarket, Outcome::Down, &[(50, 200)], NOW);
    assert_eq!(book.market_id, "mock-Polymarket-Down");
    assert_eq!(book.asks[0].price, Decimal::new(50, 2));
    assert_eq!(book.asks[0].quantity, Decimal::from_i64(200));
    assert!(mock_market(Venue::Binance, Outcome::Up, Timestamp { seconds: i64::MAX, nanos: 0 })
        .is_none());
}

#[test]
fn finds_the_mock_opportunity_at_any_time() {
    let found = scan(NOW).unwrap().unwrap();
    assert_eq!(found.direction, ArbitrageDirection::BinanceUpPolymarketDown);
    assert_eq!(found.executable_size, Decimal::from_i64(600));
    assert_eq!(found.cost, Decimal::from_i64(549));
    assert_eq!(found.net_profit, Decimal::new(49353, 3));
    assert_eq!(found.detected_at, NOW);
    assert!(scan(Timestamp { seconds: i64::MIN, nanos: 0 }).is_none());
}

#[test]
fn simulates_a_hedged_pair_by_default() {
    let mut executor = SimulatedExecutor::default();
    let (run, report) = run_fok_simulator(&arguments(&[]), &mut executor).unwrap().unwrap();
    assert_eq!(run.first_request.quantity, Decimal::from_i64(10));
    assert_eq!(report.status, OrderStatus::Hedged);
    assert_eq!(
        describe_fill(&report.first),
        "状态=FullyFilled，成交=10，均价=0.40，成本=4.00"
    );
    assert!(!executor.paused);
}

#[test]
fn simulates_a_second_leg_that_ran_away() {
    let mut executor = SimulatedExecutor::default();
    let given = arguments(&["--second-leg-price", "0.52", "--budget", "92"]);
    let (run, report) = run_fok_simulator(&given, &mut executor).unwrap().unwrap();
    assert_eq!(run.first_request.quantity, Decimal::from_i64(100));
    assert_eq!(report.status, OrderStatus::Unhedged);
    assert!(executor.paused);
    assert_eq!(
        describe_fill(&report.second),
        "状态=Cancelled，成交=0，均价=-，成本=0，原因=FOK：指定限价内深度不足，整单取消"
    );
    assert_eq!(order_status_label(OrderStatus::Unhedged), "Unhedged");
}

#[test]
fn refuses_simulations_before_any_order() {
    let mut executor = SimulatedExecutor::default();
    let mut refused = |given: &[&str]| {
        run_fok_simulator(&arguments(given), &mut executor).unwrap().unwrap_err()
    };
    assert_eq!(
        refused(&["--quantity", "1", "--budget", "1"]),
        "--quantity 与 --budget 只能指定一个"
    );
    assert_eq!(refused(&["--budget", "0"]), "预算、限价或数量步长无效");
    assert!(refused(&["--quantity", "601"]).starts_with("双腿提交前预检拒绝：第一腿预检失败："));
    assert_eq!(refused(&["--second-leg-price"]), "--second-leg-price 缺少数值");
    assert!(executor.orders.is_empty());
}

#[test]
fn reads_the_options_of_a_live_simulation() {
    let options = live_options(&arguments(&[])).unwrap();
    assert_eq!(options.asset, "BTC");
    assert_eq!(options.direction, "A");
    assert_eq!(options.quantity, None);
    assert_eq!(options.quantity_step, Decimal::new(1, 2));
    assert_eq!(options.delay_ms, 250);
    let options =
        live_options(&arguments(&["--direction", "b", "--delay-ms", "40", "--budget", "5"]))
            .unwrap();
    assert_eq!(options.direction, "B");
    assert_eq!(options.delay_ms, 40);
    assert_eq!(options.budget, Some(Decimal::from_i64(5)));
    assert_eq!(
        live_options(&arguments(&["--delay-ms", "-1"])).unwrap_err(),
        "--delay-ms 不是有效非负整数：-1"
    );
    assert_eq!(
        live_options(&arguments(&["--budget", "x", "--asset"])).unwrap_err(),
        "--asset 缺少值"
    );
}
