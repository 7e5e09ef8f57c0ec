use arbitrage_observer::domain::{
    Market, MarketStatus, Outcome, PairClassification, ResolutionSpec, Venue,
};
use arbitrage_observer::matcher::{
    classify_candidate_pair, validate_settlement_compatibility, SettlementMismatch,
};
use arbitrage_observer::time::Timestamp;

const NOW: Timestamp = Timestamp { seconds: 1_789_460_900, nanos: 0 };

fn market(venue: Venue, source: Option<&str>, end_offset: i64) -> Market {
    let start = NOW;
    Market {
        venue,
        market_id: "x".into(),
        symbol: "BTC".into(),
        outcome: Outcome::Up,
        start_time: start,
        end_time: start.plus_seconds(60 * (5 + end_offset)).unwrap(),
        settlement_source: source.map(str::to_string),
        settlement_rule: Some("index close; equal is void".into()),
        status: MarketStatus::Open,
    }
}
#[test]
fn rejects_unknown_oracle() {
    let first = market(Venue::Binance, None, 0);
    let mut second = first.clone();
    second.venue = Venue::Polymarket;
    assert_eq!(
        validate_settlement_compatibility(&first, &second).unwrap_err(),
        SettlementMismatch::Unknown
    )
}

fn resolution(quote: &str, calculation: &str) -> ResolutionSpec {
    ResolutionSpec {
        asset: "BTC".into(),
        quote_currency: quote.into(),
        price_feed_provider: "CHAINLINK".into(),
        price_feed_id: Some("feed".into()),
        calculation: calculation.into(),
        up_comparison: "greater_than".into(),
        equal_rule: "split".into(),
        fallback_rule: None,
        collateral: "USDC".into(),
    }
}

#[test]
fn classifies_same_event_with_different_price_method_as_basis() {
    let assessment = classify_candidate_pair(
        true,
        true,
        &resolution("USDT", "top_of_book_close"),
        &resolution("USD", "twap_60s"),
    );
    assert_eq!(assessment.classification, PairClassification::Basis);
    assert!(assessment.differences.len() >= 2);
}

#[test]
fn rejects_different_time_window() {
    let spec = resolution("USD", "twap_60s");
    let assessment = classify_candidate_pair(true, false, &spec, &spec);
    assert_eq!(assessment.classification, PairClassification::Incompatible);
}

fn pair() -> (Market, Market) {
    let first = market(Venue::Binance, Some("index"), 0);
    let mut second = first.clone();
    second.venue = Venue::Polymarket;
    (first, second)
}

#[test]
fn accepts_markets_that_settle_alike() {
    let (mut first, second) = pair();
    first.symbol = "btc".into();
    let identity = validate_settlement_compatibility(&first, &second).unwrap();
    assert_eq!(identity.asset, "btc");
    assert_eq!(identity.start_time, NOW);
    assert_eq!(identity.settlement_source, "index");
}

#[test]
fn names_the_first_thing_that_differs() {
    let (first, second) = pair();
    let mut window = second.clone();
    window.end_time = window.end_time.plus_seconds(60).unwrap();
    assert_eq!(
        validate_settlement_compatibility(&first, &window).unwrap_err(),
        SettlementMismatch::TimeWindow
    );
    let mut oracle = second.clone();
    oracle.settlement_source = Some("spot".into());
    assert_eq!(
        validate_settlement_compatibility(&first, &oracle).unwrap_err(),
        SettlementMismatch::Oracle
    );
    let mut rule = second.clone();
    rule.settlement_rule = Some("other".into());
    let mismatch = validate_settlement_compatibility(&first, &rule).unwrap_err();
    assert_eq!(mismatch, SettlementMismatch::Rule);
    assert_eq!(mismatch.message(), "结算规则不一致");
    let mut asset = second.clone();
    asset.symbol = "ETH".into();
    assert_eq!(
        validate_settlement_compatibility(&first, &asset).unwrap_err(),
        SettlementMismatch::Unknown
    );
}

#[test]
fn puts_mismatches_in_words() {
    assert_eq!(SettlementMismatch::Oracle.message(), "oracle 不一致");
    assert_eq!(SettlementMismatch::TimeWindow.message(), "时间窗口不一致");
    assert_eq!(SettlementMismatch::ReferencePrice.message(), "参考价格规则不一致");
    assert_eq!(SettlementMismatch::Unknown.message(), "未知结算信息");
}

#[test]
fn classifies_identical_rules_as_exact() {
    let spec = resolution("USD", "twap_60s");
    let assessment = classify_candidate_pair(true, true, &spec, &spec);
    assert_eq!(assessment.classification, PairClassification::Exact);
    assert!(assessment.differences.is_empty());
}

#[test]
fn classifies_another_asset_as_incompatible() {
    let spec = resolution("USD", "twap_60s");
    let mut other = resolution("USD", "twap_60s");
    other.asset = "ETH".into();
    let assessment = classify_candidate_pair(true, true, &spec, &other);
    assert_eq!(assessment.classification, PairClassification::Incompatible);
}

#[test]
fn notes_the_collateral_in_both_currencies() {
    let spec = resolution("USD", "twap_60s");
    let mut other = resolution("USD", "twap_60s");
    other.collateral = "USDT".into();
    let assessment = classify_candidate_pair(true, true, &spec, &other);
    assert_eq!(assessment.classification, PairClassification::Basis);
    assert_eq!(assessment.differences, vec!["抵押/兑付币种不同：USDC / USDT".to_string()]);
}
