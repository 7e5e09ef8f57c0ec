use arbitrage_observer::binance::{
    decimal_ask_levels, decimal_public_levels, malformed, market_detail_request,
    market_list_request, order_book_request, refusal, ApiError, BinanceClient, BinanceError,
    BinanceOrderBook, BinancePriceLevel, BinancePublicOrderBook, BinanceSpotPrice,
    BinanceSymbolFilter,
};
use arbitrage_observer::decimal::Decimal;

#[test]
fn chooses_lowest_ask_without_floating_point() {
    let levels = vec![
        BinancePriceLevel {
            price: "0.12".into(),
            size: "5".into(),
        },
        BinancePriceLevel {
            price: "0.07".into(),
            size: "3.5".into(),
        },
    ];
    assert_eq!(
        decimal_ask_levels(&levels).unwrap().first().copied(),
        Some((Decimal::new(7, 2), Decimal::new(35, 1)))
    );
}

#[test]
fn sorts_public_bids_highest_first_and_asks_lowest_first() {
    let levels = vec![["100.1".into(), "2".into()], ["100.3".into(), "1".into()]];
    assert_eq!(
        decimal_public_levels(&levels, true)
            .unwrap()
            .first()
            .copied(),
        Some((Decimal::new(1003, 1), Decimal::one()))
    );
    assert_eq!(
        decimal_public_levels(&levels, false)
            .unwrap()
            .first()
            .copied(),
        Some((Decimal::new(1001, 1), Decimal::from_i64(2)))
    );
}

#[test]
fn signs_a_request() {
    let client = BinanceClient::new("key".into(), "secret".into()).unwrap();
    assert_eq!(
        client.signed_url_at("/path", "", 1_700_000_000_000).unwrap(),
        "https://api.binance.com/path?timestamp=1700000000000&recvWindow=10000&signature=657ef5585ddccaaacb78f58e4c27b5b1a8be0102e6ae4ceada6d14c337ff2c1b"
    );
    let request = market_detail_request(7);
    assert_eq!(
        client
            .signed_url_at(&request.path, &request.parameters, 1_700_000_000_000)
            .unwrap(),
        "https://api.binance.com/sapi/v1/w3w/wallet/prediction/market/detail?marketTopicId=7&timestamp=1700000000000&recvWindow=10000&signature=55fea47b249efaf192e15ee844650142a7e1ebeba81ca8824947919de1decd58"
    );
    assert!(client.signed_url("/path", "").unwrap().starts_with("https://api.binance.com/path?timestamp="));
}

#[test]
fn refuses_a_key_that_cannot_stand_in_a_header() {
    let error = BinanceClient::new("bad\nkey".into(), "secret".into()).unwrap_err();
    assert_eq!(error.message(), "Binance 响应字段无效：API Key 格式");
    assert!(BinanceClient::new("tab\tkey".into(), "secret".into()).is_ok());
    assert!(BinanceClient::new("bad\u{7f}".into(), "secret".into()).is_err());
    assert!(!BinanceClient::new("".into(), "".into()).unwrap().api_key_is_configured());
    assert!(BinanceClient::new("k".into(), "".into()).unwrap().api_key_is_configured());
}

#[test]
fn builds_addresses_and_requests() {
    let client = BinanceClient::new("key".into(), "secret".into()).unwrap();
    assert_eq!(client.spot_url("/api/v3/depth"), "https://api.binance.com/api/v3/depth");
    assert_eq!(client.futures_url("/fapi/v1/depth"), "https://fapi.binance.com/fapi/v1/depth");
    assert_eq!(client.clone().api_key(), "key");
    assert_eq!(
        order_book_request("predict", 12, "t1").parameters,
        "vendor=predict&marketId=12&tokenId=t1"
    );
    assert!(market_list_request().parameters.ends_with("&offset=0&limit=100"));
}

#[test]
fn puts_refusals_in_words() {
    assert_eq!(
        refusal("403 Forbidden", Some(ApiError { code: -2015, msg: "Invalid API-key".into() })).message(),
        "Binance API -2015：Invalid API-key"
    );
    assert_eq!(
        refusal("502 Bad Gateway", None).message(),
        "Binance 响应字段无效：HTTP 502 Bad Gateway"
    );
    assert_eq!(malformed("EOF").message(), "Binance 响应字段无效：JSON：EOF");
    assert_eq!(
        BinanceError::Http("timeout".into()).message(),
        "Binance HTTP 请求失败：timeout"
    );
}

#[test]
fn validates_answers() {
    let book = BinancePublicOrderBook {
        last_update_id: 1,
        event_time: None,
        bids: vec![["1".into(), "2".into()]],
        asks: vec![["x".into(), "2".into()]],
    };
    assert!(book.validate().is_err());
    assert!(book.ask_levels().is_err());
    assert_eq!(
        book.bid_levels().unwrap(),
        vec![(Decimal::one(), Decimal::from_i64(2))]
    );
    let good = BinanceSpotPrice { symbol: "BTCUSDT".into(), price: "65000.1".into() };
    assert!(good.validate().is_ok());
    let bad = BinanceSpotPrice { symbol: "BTCUSDT".into(), price: "n/a".into() };
    assert!(bad.validate().is_err());
}

#[test]
fn reads_symbol_filters() {
    let filter = BinanceSymbolFilter {
        filter_type: "LOT_SIZE".into(),
        tick_size: None,
        step_size: Some("0.001".into()),
        min_qty: Some("none".into()),
    };
    assert_eq!(filter.decimal_step_size(), Some(Decimal::new(1, 3)));
    assert_eq!(filter.decimal_tick_size(), None);
    assert_eq!(filter.decimal_min_qty(), None);
}

#[test]
fn best_ask_is_the_first_of_the_sorted_asks() {
    let book = BinanceOrderBook {
        outcome: "Up".into(),
        token_id: "t".into(),
        timestamp: 1,
        bids: vec![],
        asks: vec![
            BinancePriceLevel { price: "0.5".into(), size: "1".into() },
            BinancePriceLevel { price: "0.4".into(), size: "2".into() },
        ],
    };
    assert_eq!(
        book.best_ask().unwrap(),
        Some((Decimal::new(4, 1), Decimal::from_i64(2)))
    );
    assert_eq!(book.ask_levels().unwrap().len(), 2);
}
