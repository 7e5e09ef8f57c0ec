use arbitrage_observer::quotes::{
    checked_rtds_fixed_point_price, checked_slug_start_ms, chosen_proxy, first_line, pick_proxy,
    proxy_address, proxy_step, proxy_supported, proxy_variable, quote_age_ms, rtds_symbol,
    rtds_timestamp_ms, slug_start_ms, subscription, take_rtds_event, take_spot_price,
    tunnel_granted, tunnel_outcome, tunnel_request, update_reference_difference, ProxyParts,
    ProxyStep, ReferencePriceView, RtdsTwapEvent,
};

fn event(symbol: &str, value: &str) -> RtdsTwapEvent {
    RtdsTwapEvent {
        topic: "crypto_prices_twap_sixty".into(),
        symbol: symbol.into(),
        full_accuracy_value: value.into(),
        timestamp: 1_789_460_900,
    }
}

#[test]
fn the_older_quote_decides_the_age() {
    assert_eq!(quote_age_ms(2_000, 1_500, "1900"), Some(500));
    assert_eq!(quote_age_ms(2_000, 1_900, "3000"), Some(1_000));
    assert_eq!(quote_age_ms(2_000, 1_900, "soon"), None);
}

#[test]
fn times_in_milliseconds_stay() {
    let once = rtds_timestamp_ms(1_789_460_900).unwrap();
    assert_eq!(rtds_timestamp_ms(once), Some(once));
    assert_eq!(rtds_timestamp_ms(-5), None);
    assert_eq!(rtds_timestamp_ms(999_999_999_999), Some(999_999_999_999_000));
}

#[test]
fn a_slug_ends_in_its_start() {
    assert_eq!(slug_start_ms("btc-updown-5m-1789460900"), Some(1_789_460_900_000));
    assert_eq!(slug_start_ms("btc-updown"), None);
    assert_eq!(checked_slug_start_ms("btc-9223372036854775807"), None);
}

#[test]
fn prices_beyond_the_range_are_no_prices() {
    assert_eq!(checked_rtds_fixed_point_price(""), Some(None));
    assert_eq!(
        checked_rtds_fixed_point_price("1000000000000000000").unwrap().unwrap().plain_text(),
        "1"
    );
}

#[test]
fn keeps_the_difference_of_both_prices() {
    let mut reference = ReferencePriceView::default();
    assert_eq!(take_spot_price(&mut reference, "65000.5".into(), 10), Some(()));
    assert_eq!(reference.price_difference, None);
    let taken = take_rtds_event(
        &mut reference,
        &event("BTC/USD", "64990000000000000000000"),
        "btc/usd",
    );
    assert_eq!(taken, Some(true));
    assert_eq!(reference.polymarket_twap_60s.as_deref(), Some("64990"));
    assert_eq!(reference.polymarket_observed_at_ms, Some(1_789_460_900_000));
    assert_eq!(reference.price_difference.as_deref(), Some("10.5"));
    reference.binance_spot_price = Some("n/a".into());
    update_reference_difference(&mut reference);
    assert_eq!(reference.price_difference, None);
}

#[test]
fn ignores_messages_about_something_else() {
    let mut reference = ReferencePriceView::default();
    let mut other = event("eth/usd", "1");
    assert_eq!(take_rtds_event(&mut reference, &other, "btc/usd"), Some(false));
    other = event("btc/usd", "x");
    assert_eq!(take_rtds_event(&mut reference, &other, "btc/usd"), Some(false));
    other = event("btc/usd", "1");
    other.topic = "trades".into();
    assert_eq!(take_rtds_event(&mut reference, &other, "btc/usd"), Some(false));
    assert_eq!(reference.polymarket_twap_60s, None);
    assert_eq!(rtds_symbol("BTC"), "btc/usd");
}

#[test]
fn reads_a_proxy_answer_to_its_end() {
    assert_eq!(proxy_step(0, b""), ProxyStep::Closed);
    assert_eq!(proxy_step(5, b"HTTP/"), ProxyStep::ReadOn);
    assert_eq!(proxy_step(4, b"HTTP/1.1 200 OK\r\n\r\n"), ProxyStep::Complete);
    let long = vec![b'a'; 16_385];
    assert_eq!(proxy_step(1, &long), ProxyStep::TooLarge);
    let full = vec![b'a'; 16_384];
    assert_eq!(proxy_step(1, &full), ProxyStep::ReadOn);
}

#[test]
fn tunnels_only_through_plain_proxies() {
    assert!(proxy_supported("http", "", false).is_ok());
    assert!(proxy_supported("socks5", "", false).is_err());
    assert!(proxy_supported("http", "user", false).is_err());
    assert!(proxy_supported("http", "", true).is_err());
    assert_eq!(
        tunnel_request("h"),
        "CONNECT h:443 HTTP/1.1\r\nHost: h:443\r\nProxy-Connection: Keep-Alive\r\n\r\n"
    );
    assert!(tunnel_granted("HTTP/1.1 200 Connection established").is_ok());
    assert_eq!(
        tunnel_granted("HTTP/1.1 407 Proxy").unwrap_err(),
        "RTDS 代理隧道失败：HTTP/1.1 407 Proxy"
    );
}

#[test]
fn reads_the_address_of_a_proxy() {
    assert_eq!(proxy_address("http://127.0.0.1:7890"), Ok(("127.0.0.1".into(), 7890)));
    assert_eq!(proxy_address("http://Proxy.Local/"), Ok(("proxy.local".into(), 80)));
    let unsupported = Err("RTDS 仅支持无认证 HTTP 代理".to_string());
    assert_eq!(proxy_address("socks5://127.0.0.1:1080"), unsupported);
    assert_eq!(proxy_address("http://user@127.0.0.1:7890"), unsupported);
    assert_eq!(proxy_address("http://:secret@127.0.0.1:7890"), unsupported);
    let invalid = proxy_address("127.0.0.1").unwrap_err();
    assert_eq!(invalid, "代理地址无效：relative URL without a base");
}

#[test]
fn picks_a_proxy_from_its_parts() {
    let parts = |host: Option<&str>, port| ProxyParts {
        scheme: "http".into(),
        username: "".into(),
        has_password: false,
        host: host.map(|host| host.to_string()),
        port,
    };
    assert_eq!(pick_proxy(parts(Some("h"), Some(1))), Ok(("h".into(), 1)));
    assert_eq!(pick_proxy(parts(None, None)), Err("代理地址缺少主机".into()));
    assert_eq!(pick_proxy(parts(Some("h"), None)), Err("代理地址缺少端口".into()));
}

#[test]
fn chooses_the_first_proxy_that_is_set() {
    let names: Vec<_> = (0..6).map(proxy_variable).collect();
    assert_eq!(
        names,
        [
            Some("all_proxy"),
            Some("ALL_PROXY"),
            Some("https_proxy"),
            Some("HTTPS_PROXY"),
            None,
            None
        ]
    );
    assert_eq!(chosen_proxy(&[]), None);
    assert_eq!(chosen_proxy(&[None, Some("".into())]), None);
    let values = [Some("".into()), None, Some("b".into()), Some("c".into())];
    assert_eq!(chosen_proxy(&values), Some("b".into()));
}

#[test]
fn the_first_line_of_an_answer_decides() {
    for text in ["", "a", "a\r", "a\nb", "a\r\nb", "\r\n", "\nb", "a\rb\n"] {
        assert_eq!(first_line(text), text.lines().next().unwrap_or_default());
    }
    assert_eq!(tunnel_outcome(b"HTTP/1.1 200 OK\r\nX: 1\r\n\r\n"), Ok(()));
    assert_eq!(
        tunnel_outcome(b"HTTP/1.1 407 No\r\nX: a 200 b\r\n\r\n"),
        Err("RTDS 代理隧道失败：HTTP/1.1 407 No".into())
    );
    assert_eq!(tunnel_outcome(b"\xff\n"), Err("RTDS 代理隧道失败：\u{fffd}".into()));
}

#[test]
fn subscribes_to_the_prices_of_a_symbol() {
    assert_eq!(
        subscription("btc/usd"),
        "{\"action\":\"subscribe\",\"subscriptions\":[{\"filters\":\"{\\\"symbol\\\":\\\"btc/usd\\\"}\",\"topic\":\"crypto_prices_twap_sixty\",\"type\":\"update\"}]}"
    );
}
