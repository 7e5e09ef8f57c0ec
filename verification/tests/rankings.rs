use arbitrage_observer::rankings::{
    observation_statistics, rankings, statistics_cutoff_ms, RankingRow,
};

fn row(slug: &str, at: i64, a: Option<&str>, b: Option<&str>) -> RankingRow {
    RankingRow {
        slug: slug.into(),
        asset: "BTC".into(),
        duration: "5m".into(),
        classification: "basis".into(),
        direction_a_net_edge: a.map(str::to_string),
        direction_b_net_edge: b.map(str::to_string),
        direction_a_size: Some("10".into()),
        direction_b_size: Some("x".into()),
        observed_at_ms: at,
        scan_latency_ms: Some(100),
        direction_a_quote_skew_ms: Some(20),
        direction_b_quote_skew_ms: Some(-5),
    }
}

#[test]
fn counts_observations_and_opportunities() {
    let rows = vec![
        (Some("0.1".to_string()), None),
        (Some("-0.1".to_string()), Some("0.2".to_string())),
        (Some("x".to_string()), Some("0".to_string())),
        (None, None),
    ];
    assert_eq!(observation_statistics(&rows), (4, 2));
    assert_eq!(observation_statistics(&vec![]), (0, 0));
}

#[test]
fn ranks_markets_by_their_average_edge() {
    let rows = vec![
        row("low", 0, Some("0.01"), None),
        row("none", 0, Some("-0.5"), None),
        row("high", 0, Some("0.05"), Some("0.02")),
        row("high", 1_000, Some("0.02"), Some("-0.01")),
    ];
    let ranked = rankings(&rows).unwrap();
    assert_eq!(ranked.len(), 3);
    assert_eq!(ranked[0].slug, "high");
    assert_eq!(ranked[0].samples, 2);
    assert_eq!(ranked[0].evaluated_directions, 4);
    assert_eq!(ranked[0].signals, 3);
    assert_eq!(ranked[0].signal_rate, "0.75");
    assert_eq!(ranked[0].average_positive_edge, "0.03");
    assert_eq!(ranked[0].maximum_net_edge, "0.05");
    assert_eq!(ranked[0].maximum_executable_profit, "0.50");
    assert_eq!(ranked[0].longest_positive_run_ms, 1_000);
    assert_eq!(ranked[0].average_scan_latency_ms, Some(100));
    assert_eq!(ranked[0].maximum_quote_skew_ms, Some(20));
    assert_eq!(ranked[1].slug, "low");
    assert_eq!(ranked[2].slug, "none");
    assert_eq!(ranked[2].average_positive_edge, "0");
}

#[test]
fn a_pause_ends_a_run() {
    let rows = vec![
        row("s", 0, Some("0.01"), None),
        row("s", 4_000, Some("0.01"), None),
        row("s", 10_000, Some("0.01"), None),
        row("s", 12_000, Some("0.01"), None),
    ];
    assert_eq!(rankings(&rows).unwrap()[0].longest_positive_run_ms, 4_000);
    let rows = vec![
        row("s", 0, Some("0.01"), None),
        row("s", 1_000, None, None),
        row("s", 2_000, Some("0.01"), None),
        row("s", 3_000, Some("0.01"), None),
    ];
    assert_eq!(rankings(&rows).unwrap()[0].longest_positive_run_ms, 1_000);
}

#[test]
fn leaves_out_what_was_not_measured() {
    let mut only = row("s", 0, None, None);
    only.scan_latency_ms = None;
    only.direction_a_quote_skew_ms = None;
    let ranked = rankings(&vec![only]).unwrap();
    assert_eq!(ranked[0].average_scan_latency_ms, None);
    assert_eq!(ranked[0].maximum_quote_skew_ms, None);
    assert_eq!(ranked[0].signal_rate, "0");
    assert!(rankings(&vec![]).unwrap().is_empty());
}

#[test]
fn reports_sums_that_cannot_be_represented() {
    let huge = Some("79228162514264337593543950335");
    assert!(rankings(&vec![row("s", 0, huge, huge)]).is_none());
}

#[test]
fn statistics_reach_six_hours_back() {
    assert_eq!(statistics_cutoff_ms(21_600_001), 1);
    assert_eq!(statistics_cutoff_ms(i64::MIN), i64::MIN);
}
