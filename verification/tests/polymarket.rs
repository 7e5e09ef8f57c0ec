use arbitrage_observer::decimal::Decimal;
use arbitrage_observer::polymarket::{
    first_event, PolymarketClient, PolymarketError, PolymarketEvent, PolymarketMarket, PolymarketOrderBook, PolymarketPriceLevel,
};

#[test]
fn maps_tokens_by_outcome_name() {
    let market = PolymarketMarket {
        id: "1".into(),
        question: "q".into(),
        description: "d".into(),
        slug: "s".into(),
        outcomes: "[\"Down\",\"Up\"]".into(),
        outcome_prices: "[]".into(),
        clob_token_ids: "[\"down-token\",\"up-token\"]".into(),
        fees_enabled: true,
        fee_schedule: None,
        resolution_source: "source".into(),
        event_start_time: None,
        closed: false,
        uma_resolution_status: None,
    };
    assert_eq!(
        market.outcome_tokens().unwrap(),
        ("up-token".into(), "down-token".into())
    );
}

#[test]
fn reads_resolved_outcome_without_floating_point() {
    let market = PolymarketMarket {
        id: "1".into(),
        question: "q".into(),
        description: "d".into(),
        slug: "s".into(),
        outcomes: "[\"Up\",\"Down\"]".into(),
        outcome_prices: "[\"0\",\"1\"]".into(),
        clob_token_ids: "[]".into(),
        fees_enabled: true,
        fee_schedule: None,
        resolution_source: "source".into(),
        event_start_time: None,
        closed: true,
        uma_resolution_status: Some("resolved".into()),
    };
    assert_eq!(market.resolved_outcome().unwrap(), Some("Down".into()));
}

fn market(outcomes: &str, prices: &str, tokens: &str) -> PolymarketMarket {
    PolymarketMarket {
        id: "1".into(),
        question: "q".into(),
        description: "d".into(),
        slug: "s".into(),
        outcomes: outcomes.into(),
        outcome_prices: prices.into(),
        clob_token_ids: tokens.into(),
        fees_enabled: true,
        fee_schedule: None,
        resolution_source: "source".into(),
        event_start_time: None,
        closed: true,
        uma_resolution_status: Some("resolved".into()),
    }
}

#[test]
fn refuses_lists_that_cannot_be_read() {
    let broken = market("[\"Up\"", "[]", "[]");
    assert!(broken.outcome_tokens().unwrap_err().message().starts_with("Polymarket 响应字段无效："));
    let short = market("[\"Up\",\"Down\"]", "[]", "[\"only\"]");
    assert_eq!(
        short.outcome_tokens().unwrap_err().message(),
        "Polymarket 响应字段无效：缺少 Up/Down Token"
    );
    let numbers = market("[1,2]", "[]", "[]");
    assert!(numbers.outcome_tokens().is_err());
}

#[test]
fn reads_escapes_in_lists() {
    let escaped = market("[\"\\u0055p\",\"Down\"]", "[\"1\",\"0\"]", "[\"a\\\"b\",\"c\"]");
    assert_eq!(escaped.outcome_tokens().unwrap(), ("a\"b".into(), "c".into()));
    assert_eq!(escaped.resolved_outcome().unwrap(), Some("Up".into()));
}

#[test]
fn resolves_only_resolved_markets() {
    let mut open = market("[\"Up\",\"Down\"]", "[\"1\",\"0\"]", "[]");
    open.uma_resolution_status = None;
    assert_eq!(open.resolved_outcome().unwrap(), None);
    let undecided = market("[\"Up\",\"Down\"]", "[\"0.5\",\"0.5\"]", "[]");
    assert_eq!(
        undecided.resolved_outcome().unwrap_err().message(),
        "Polymarket 响应字段无效：已结算市场缺少胜出 outcome"
    );
}

#[test]
fn sorts_asks_and_names_a_bad_price() {
    let book = PolymarketOrderBook {
        timestamp: "1".into(),
        hash: "h".into(),
        bids: vec![],
        asks: vec![
            PolymarketPriceLevel { price: "0.60".into(), size: "5".into() },
            PolymarketPriceLevel { price: "0.50".into(), size: "7".into() },
        ],
        min_order_size: "5".into(),
        tick_size: "0.01".into(),
    };
    assert_eq!(
        book.best_ask().unwrap(),
        Some((Decimal::new(50, 2), Decimal::from_i64(7)))
    );
    let mut broken = book.clone();
    broken.asks[1].price = "x".into();
    assert!(broken.ask_levels().is_err());
    let mut empty = book.clone();
    empty.asks.clear();
    assert_eq!(empty.best_ask().unwrap(), None);
}

#[test]
fn knows_where_to_ask() {
    let client = PolymarketClient::new("https://gamma".into(), "https://clob".into());
    assert_eq!(client.events_url(), "https://gamma/events");
    assert_eq!(client.book_url(), "https://clob/book");
    assert_eq!(
        PolymarketError::Http("timeout".into()).message(),
        "Polymarket HTTP 请求失败：timeout"
    );
}

fn event(id: &str) -> PolymarketEvent {
    PolymarketEvent {
        id: id.into(),
        title: "t".into(),
        slug: "s".into(),
        start_date: "2026-01-01T00:00:00Z".into(),
        end_date: "2026-01-01T01:00:00Z".into(),
        closed: false,
        event_metadata: None,
        markets: vec![],
    }
}

#[test]
fn takes_the_first_event_of_an_answer() {
    assert!(first_event(vec![]).is_none());
    assert_eq!(first_event(vec![event("1"), event("2")]).unwrap().id, "1");
}
