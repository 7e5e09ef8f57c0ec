use arbitrage_observer::cross::BinanceInternalView;
use arbitrage_observer::same_market::{same_market_stats, SameMarketRow};

fn row(asset: &str, duration: &str, slug: &str, at: i64, edge: &str) -> SameMarketRow {
    SameMarketRow {
        asset: asset.into(),
        duration: duration.into(),
        slug: slug.into(),
        observed_at_ms: at,
        up_ask: Some("0.4".into()),
        down_ask: Some("0.5".into()),
        value: BinanceInternalView {
            cost: "0.9".into(),
            fees: "0".into(),
            risk_buffers: "0".into(),
            net_edge: edge.into(),
            size: "10".into(),
            quote_skew_ms: 5,
            quote_age_ms: 5,
            rejections: vec![],
        },
    }
}

#[test]
fn groups_by_duration_and_asset() {
    let rows = vec![
        row("ETH", "5m", "a", 1, "0.1"),
        row("BTC", "5m", "b", 2, "0.1"),
        row("BTC", "1h", "c", 3, "0.1"),
        row("BTC", "1h", "d", 4, "n/a"),
    ];
    let stats = same_market_stats(&rows).unwrap();
    let order: Vec<(&str, &str)> = stats
        .iter()
        .map(|line| (line.duration.as_str(), line.asset.as_str()))
        .collect();
    assert_eq!(order, vec![("1h", "BTC"), ("5m", "BTC"), ("5m", "ETH")]);
    assert_eq!(stats[0].samples, 1);
}

#[test]
fn counts_windows_edges_and_confirmations() {
    let mut rejected = row("BTC", "5m", "w1", 9_000, "-0.1");
    rejected.value.rejections = vec!["too old".into()];
    rejected.up_ask = Some("0.5".into());
    rejected.value.quote_skew_ms = 50;
    let rows = vec![
        row("BTC", "5m", "w1", 1_000, "0.02"),
        row("BTC", "5m", "w1", 5_999, "0.04"),
        row("BTC", "5m", "w1", 6_000, "0.03"),
        rejected,
        row("BTC", "5m", "w1", 11_000, "0.03"),
        row("BTC", "5m", "w2", 30_000, "0.03"),
        row("BTC", "5m", "w2", 45_001, "0.03"),
    ];
    let stats = same_market_stats(&rows).unwrap();
    assert_eq!(stats.len(), 1);
    let line = &stats[0];
    assert_eq!(line.samples, 7);
    assert_eq!(line.windows, 2);
    assert_eq!(line.raw_below_one_samples, 6);
    assert_eq!(line.positive_net_samples, 6);
    assert_eq!(line.eligible_samples, 6);
    assert_eq!(line.confirmed_samples, 1);
    assert_eq!(line.average_positive_edge, "0.03");
    assert_eq!(line.maximum_net_edge, "0.04");
    assert_eq!(line.maximum_theoretical_profit, "0.40");
    assert_eq!(line.maximum_quote_skew_ms, 50);
    assert_eq!(line.latest_observed_at_ms, 45_001);
}

#[test]
fn a_size_that_is_no_number_earns_nothing() {
    let mut only = row("BTC", "5m", "w", 1, "0.02");
    only.value.size = "many".into();
    only.up_ask = None;
    let stats = same_market_stats(&vec![only]).unwrap();
    assert_eq!(stats[0].maximum_theoretical_profit, "0");
    assert_eq!(stats[0].raw_below_one_samples, 0);
    assert!(same_market_stats(&vec![]).unwrap().is_empty());
}
