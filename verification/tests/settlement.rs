use arbitrage_observer::binance::{BinanceMarketDetail, BinanceVariantData};
use arbitrage_observer::decimal::Decimal;
use arbitrage_observer::polymarket::{
    PolymarketEvent, PolymarketEventMetadata, PolymarketMarket,
};
use arbitrage_observer::settlement::{
    checked_paper_trade_payout, paper_trade_payout, settle_paper_trades, settlement_update,
    OpenTrade, SettlementUpdate,
};

#[test]
fn calculates_payout_for_matching_and_divergent_settlements() {
    let quantity = Decimal::from_i64(100);
    assert_eq!(paper_trade_payout("A", quantity, "Up", "Up"), quantity);
    assert_eq!(
        paper_trade_payout("A", quantity, "Up", "Down"),
        quantity.checked_mul(Decimal::from_i64(2)).unwrap()
    );
    assert_eq!(
        paper_trade_payout("B", quantity, "Up", "Down"),
        Decimal::zero()
    );
}

fn update(binance: Option<&str>, polymarket: Option<&str>) -> SettlementUpdate {
    SettlementUpdate {
        slug: "s".into(),
        binance_status: "SETTLED".into(),
        binance_start_price: None,
        binance_end_price: None,
        binance_outcome: binance.map(str::to_string),
        polymarket_status: "resolved".into(),
        polymarket_price_to_beat: None,
        polymarket_final_price: None,
        polymarket_outcome: polymarket.map(str::to_string),
        relationship: "".into(),
        checked_at_ms: 7,
    }
}

fn trade(id: i64, direction: &str, quantity: &str) -> OpenTrade {
    OpenTrade {
        id,
        direction: direction.into(),
        quantity: quantity.into(),
        total_cost: "9.0".into(),
        total_fees: "0.2".into(),
        total_risk_buffers: "0.01".into(),
    }
}

#[test]
fn a_matching_settlement_pays_the_quantity_in_both_directions() {
    let quantity = Decimal::new(105, 1);
    for direction in ["A", "B"] {
        for outcome in ["Up", "down"] {
            assert_eq!(
                paper_trade_payout(direction, quantity, outcome, outcome),
                quantity
            );
        }
    }
    assert_eq!(
        paper_trade_payout("A", quantity, "Split", "Split"),
        Decimal::zero()
    );
}

#[test]
fn settles_the_trades_that_can_be_read() {
    let trades = vec![trade(1, "A", "10"), trade(2, "B", "x"), trade(3, "B", "10")];
    let settled = settle_paper_trades(&update(Some("Up"), Some("Down")), &trades).unwrap();
    assert_eq!(settled.len(), 2);
    assert_eq!(settled[0].id, 1);
    assert_eq!(settled[0].actual_payout, "20");
    assert_eq!(settled[0].realized_profit, "10.79");
    assert_eq!(settled[1].id, 3);
    assert_eq!(settled[1].actual_payout, "0");
    assert_eq!(settled[1].realized_profit, "-9.21");
    assert!(settle_paper_trades(&update(Some("Up"), None), &trades).unwrap().is_empty());
}

#[test]
fn reports_a_payout_that_cannot_be_represented() {
    let huge = Decimal::parse("79228162514264337593543950335").unwrap();
    assert!(checked_paper_trade_payout("A", huge, "Up", "Down").is_none());
    let trades = vec![trade(1, "A", "79228162514264337593543950335")];
    assert!(settle_paper_trades(&update(Some("Up"), Some("Down")), &trades).is_none());
}

fn detail(start: Option<&str>, end: Option<&str>) -> BinanceMarketDetail {
    BinanceMarketDetail {
        market_topic_id: 1,
        vendor: "V".into(),
        slug: "s".into(),
        title: "t".into(),
        question: "q".into(),
        description: None,
        symbol: "BTCUSDT".into(),
        collateral: "USDT".into(),
        fee_rate_bps: 200,
        slippage_bps: 0,
        start_date: 0,
        end_date: 1,
        status: "RESOLVED".into(),
        variant_data: BinanceVariantData {
            variant_type: "v".into(),
            start_price: start.map(str::to_string),
            end_price: end.map(str::to_string),
            price_feed_id: None,
            price_feed_provider: "BINANCE".into(),
            price_feed_symbol: "BTCUSDT".into(),
        },
        markets: vec![],
    }
}

fn event(markets: Vec<PolymarketMarket>) -> PolymarketEvent {
    PolymarketEvent {
        id: "1".into(),
        title: "t".into(),
        slug: "s".into(),
        start_date: "".into(),
        end_date: "".into(),
        closed: true,
        event_metadata: Some(PolymarketEventMetadata {
            price_to_beat: Some(Decimal::new(1000, 1)),
            final_price: None,
        }),
        markets,
    }
}

fn market(slug: &str, status: Option<&str>) -> PolymarketMarket {
    PolymarketMarket {
        id: "1".into(),
        question: "q".into(),
        description: "d".into(),
        slug: slug.into(),
        outcomes: "[\"Up\",\"Down\"]".into(),
        outcome_prices: "[\"1\",\"0\"]".into(),
        clob_token_ids: "[]".into(),
        fees_enabled: false,
        fee_schedule: None,
        resolution_source: "".into(),
        event_start_time: None,
        closed: true,
        uma_resolution_status: status.map(str::to_string),
    }
}

#[test]
fn compares_the_settlements_of_both_venues() {
    let resolved = Some(event(vec![market("other", None), market("s", Some("resolved"))]));
    let found =
        settlement_update("s", &detail(Some("100"), Some("101")), &resolved, 9).unwrap();
    assert_eq!(found.binance_outcome.as_deref(), Some("Up"));
    assert_eq!(found.polymarket_outcome.as_deref(), Some("Up"));
    assert_eq!(found.relationship, "matching");
    assert_eq!(found.polymarket_status, "resolved");
    assert_eq!(found.polymarket_price_to_beat.as_deref(), Some("100.0"));
    assert_eq!(found.polymarket_final_price, None);
    let found =
        settlement_update("s", &detail(Some("100"), Some("99")), &resolved, 9).unwrap();
    assert_eq!(found.relationship, "divergent");
    let found = settlement_update("s", &detail(Some("100"), None), &resolved, 9).unwrap();
    assert_eq!(found.relationship, "pending");
    let open = Some(event(vec![market("other", None)]));
    let found = settlement_update("s", &detail(Some("1"), Some("2")), &open, 9).unwrap();
    assert_eq!(found.polymarket_status, "closed");
    assert_eq!(found.relationship, "pending");
}

#[test]
fn names_what_is_missing_for_a_settlement() {
    assert_eq!(
        settlement_update("s", &detail(None, None), &None, 9).unwrap_err(),
        "Polymarket 缺少事件：s"
    );
    assert_eq!(
        settlement_update("s", &detail(None, None), &Some(event(vec![])), 9).unwrap_err(),
        "Polymarket 事件缺少市场：s"
    );
    let mut broken = market("s", Some("resolved"));
    broken.outcome_prices = "[\"0\",\"0\"]".into();
    assert_eq!(
        settlement_update("s", &detail(None, None), &Some(event(vec![broken])), 9).unwrap_err(),
        "Polymarket 响应字段无效：已结算市场缺少胜出 outcome"
    );
}
