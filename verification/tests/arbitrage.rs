use arbitrage_observer::arbitrage::{calculate_buy_arbitrage, check_risk, RiskLimits, RiskRejection};
use arbitrage_observer::decimal::Decimal;
use arbitrage_observer::domain::{
    ArbitrageDirection, Market, MarketStatus, OrderBook, Outcome, PriceLevel, Venue,
};
use arbitrage_observer::time::{TimeSpan, Timestamp};

const NOW: Timestamp = Timestamp { seconds: 1_789_460_900, nanos: 0 };

fn book(venue: Venue, outcome: Outcome, asks: &[(i64, i64)]) -> OrderBook {
    OrderBook {
        venue,
        market_id: "id".into(),
        outcome,
        bids: vec![],
        asks: asks
            .iter()
            .map(|(p, q)| PriceLevel {
                price: Decimal::new(*p, 2),
                quantity: Decimal::new(*q, 0),
            })
            .collect(),
        timestamp: NOW,
    }
}
#[test]
fn detects_profitable_depth() {
    let o = calculate_buy_arbitrage(
        &book(Venue::Binance, Outcome::Up, &[(40, 100), (41, 500)]),
        &book(Venue::Polymarket, Outcome::Down, &[(50, 200), (51, 500)]),
        Decimal::zero(),
        Decimal::zero(),
        Decimal::zero(),
    )
    .unwrap();
    assert_eq!(o.executable_size, Decimal::new(600, 0));
    assert_eq!(o.cost, Decimal::new(549, 0));
}
#[test]
fn rejects_equal_prices() {
    assert!(calculate_buy_arbitrage(
        &book(Venue::Binance, Outcome::Up, &[(50, 100)]),
        &book(Venue::Polymarket, Outcome::Down, &[(50, 100)]),
        Decimal::zero(),
        Decimal::zero(),
        Decimal::zero()
    )
    .is_none());
}
#[test]
fn fees_can_remove_opportunity() {
    assert!(calculate_buy_arbitrage(
        &book(Venue::Binance, Outcome::Up, &[(40, 100)]),
        &book(Venue::Polymarket, Outcome::Down, &[(50, 100)]),
        Decimal::zero(),
        Decimal::new(2, 1),
        Decimal::zero()
    )
    .is_none());
}

#[test]
fn detects_second_direction() {
    let opportunity = calculate_buy_arbitrage(
        &book(Venue::Binance, Outcome::Down, &[(40, 100)]),
        &book(Venue::Polymarket, Outcome::Up, &[(50, 100)]),
        Decimal::zero(),
        Decimal::zero(),
        Decimal::zero(),
    )
    .unwrap();
    assert_eq!(
        opportunity.direction,
        ArbitrageDirection::BinanceDownPolymarketUp
    );
}

#[test]
fn rejects_stale_orderbook() {
    let now = NOW;
    let market = Market {
        venue: Venue::Binance,
        market_id: "id".into(),
        symbol: "BTC".into(),
        outcome: Outcome::Up,
        start_time: now,
        end_time: now.plus_seconds(300).unwrap(),
        settlement_source: Some("mock".into()),
        settlement_rule: Some("mock".into()),
        status: MarketStatus::Open,
    };
    let mut stale = book(Venue::Binance, Outcome::Up, &[(40, 100)]);
    stale.timestamp = now.plus_seconds(-6).unwrap();
    let fresh = book(Venue::Polymarket, Outcome::Down, &[(50, 100)]);
    let limits = RiskLimits {
        max_trade_amount: Decimal::new(1000, 0),
        minimum_remaining_time: TimeSpan::seconds(30),
        maximum_book_age: TimeSpan::seconds(5),
    };
    assert_eq!(
        check_risk(&market, &market, &stale, &fresh, now, &limits),
        Err(RiskRejection::StaleOrderBook)
    );
}

#[test]
fn rejects_books_that_add_up_to_one() {
    assert!(calculate_buy_arbitrage(
        &book(Venue::Binance, Outcome::Up, &[(40, 100)]),
        &book(Venue::Polymarket, Outcome::Down, &[(60, 100)]),
        Decimal::zero(),
        Decimal::zero(),
        Decimal::zero()
    )
    .is_none());
}

#[test]
fn rejects_books_of_one_outcome_or_venue() {
    let up = book(Venue::Binance, Outcome::Up, &[(40, 100)]);
    let other_up = book(Venue::Polymarket, Outcome::Up, &[(40, 100)]);
    let own_down = book(Venue::Binance, Outcome::Down, &[(40, 100)]);
    let zero = Decimal::zero();
    assert!(calculate_buy_arbitrage(&up, &other_up, zero, zero, zero).is_none());
    assert!(calculate_buy_arbitrage(&up, &own_down, zero, zero, zero).is_none());
}

#[test]
fn reports_every_figure_of_an_opportunity() {
    let opportunity = calculate_buy_arbitrage(
        &book(Venue::Binance, Outcome::Up, &[(40, 100)]),
        &book(Venue::Polymarket, Outcome::Down, &[(50, 200)]),
        Decimal::one(),
        Decimal::new(1, 2),
        Decimal::new(2, 2),
    )
    .unwrap();
    assert_eq!(opportunity.executable_size, Decimal::new(100, 0));
    assert_eq!(opportunity.cost, Decimal::new(90, 0));
    assert_eq!(opportunity.gross_payout, Decimal::new(100, 0));
    assert_eq!(opportunity.gross_profit, Decimal::new(10, 0));
    assert_eq!(opportunity.fees, Decimal::new(9, 1));
    assert_eq!(opportunity.slippage, Decimal::new(18, 1));
    assert_eq!(opportunity.net_profit, Decimal::new(73, 1));
    assert_eq!(
        opportunity.net_profit_rate,
        Decimal::new(73, 1).checked_div(Decimal::new(90, 0)).unwrap()
    );
}

#[test]
fn takes_only_as_much_as_still_earns() {
    let opportunity = calculate_buy_arbitrage(
        &book(Venue::Binance, Outcome::Up, &[(40, 100), (49, 100)]),
        &book(Venue::Polymarket, Outcome::Down, &[(50, 100), (90, 100)]),
        Decimal::zero(),
        Decimal::zero(),
        Decimal::zero(),
    )
    .unwrap();
    assert_eq!(opportunity.executable_size, Decimal::new(100, 0));
    assert_eq!(opportunity.net_profit, Decimal::new(10, 0));
}

#[test]
fn rejects_closed_ending_and_unusable_markets() {
    let now = NOW;
    let market = Market {
        venue: Venue::Binance,
        market_id: "id".into(),
        symbol: "BTC".into(),
        outcome: Outcome::Up,
        start_time: now,
        end_time: now.plus_seconds(300).unwrap(),
        settlement_source: None,
        settlement_rule: None,
        status: MarketStatus::Open,
    };
    let up = book(Venue::Binance, Outcome::Up, &[(40, 100)]);
    let down = book(Venue::Polymarket, Outcome::Down, &[(50, 100)]);
    let limits = RiskLimits {
        max_trade_amount: Decimal::new(1000, 0),
        minimum_remaining_time: TimeSpan::seconds(30),
        maximum_book_age: TimeSpan::seconds(5),
    };
    assert_eq!(check_risk(&market, &market, &up, &down, now, &limits), Ok(()));
    let mut closed = market.clone();
    closed.status = MarketStatus::Closed;
    assert_eq!(
        check_risk(&market, &closed, &up, &down, now, &limits),
        Err(RiskRejection::MarketNotOpen)
    );
    let mut ending = market.clone();
    ending.end_time = now.plus_seconds(29).unwrap();
    assert_eq!(
        check_risk(&ending, &market, &up, &down, now, &limits),
        Err(RiskRejection::MarketEndingSoon)
    );
    let empty = book(Venue::Polymarket, Outcome::Down, &[]);
    let worthless = book(Venue::Polymarket, Outcome::Down, &[(50, 0)]);
    assert_eq!(
        check_risk(&market, &market, &up, &empty, now, &limits),
        Err(RiskRejection::InvalidBook)
    );
    assert_eq!(
        check_risk(&market, &market, &up, &worthless, now, &limits),
        Err(RiskRejection::InvalidBook)
    );
}

#[test]
fn refuses_books_with_an_unusable_level_behind_the_rest() {
    let sound = book(Venue::Polymarket, Outcome::Down, &[(50, 100)]);
    for asks in [[(40, 100), (0, 50)], [(40, 100), (41, 0)], [(40, 100), (41, -5)]] {
        let up = book(Venue::Binance, Outcome::Up, &asks);
        assert!(calculate_buy_arbitrage(
            &up,
            &sound,
            Decimal::zero(),
            Decimal::zero(),
            Decimal::zero()
        )
        .is_none());
    }
    let down = book(Venue::Polymarket, Outcome::Down, &[(50, 100), (-1, 5)]);
    assert!(calculate_buy_arbitrage(
        &book(Venue::Binance, Outcome::Up, &[(40, 100)]),
        &down,
        Decimal::zero(),
        Decimal::zero(),
        Decimal::zero()
    )
    .is_none());
}
