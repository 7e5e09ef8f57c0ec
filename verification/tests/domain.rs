use arbitrage_observer::decimal::Decimal;
use arbitrage_observer::domain::{OrderBook, Outcome, PriceLevel, Venue};
use arbitrage_observer::time::Timestamp;

const NOW: Timestamp = Timestamp { seconds: 1_789_460_900, nanos: 0 };

#[test]
fn computes_cost_over_multiple_levels() {
    let book = OrderBook {
        venue: Venue::Binance,
        market_id: "x".into(),
        outcome: Outcome::Up,
        bids: vec![],
        asks: vec![
            PriceLevel {
                price: Decimal::new(40, 2),
                quantity: Decimal::new(100, 0),
            },
            PriceLevel {
                price: Decimal::new(41, 2),
                quantity: Decimal::new(500, 0),
            },
        ],
        timestamp: NOW,
    };
    assert_eq!(
        book.cost_for_quantity(Decimal::new(600, 0)),
        Some(Decimal::new(245, 0))
    );
}

fn book(asks: &[(i64, i64)]) -> OrderBook {
    OrderBook {
        venue: Venue::Binance,
        market_id: "x".into(),
        outcome: Outcome::Up,
        bids: vec![],
        asks: asks
            .iter()
            .map(|(price, quantity)| PriceLevel {
                price: Decimal::new(*price, 2),
                quantity: Decimal::new(*quantity, 0),
            })
            .collect(),
        timestamp: NOW,
    }
}

#[test]
fn costs_nothing_without_depth_or_quantity() {
    let asks = book(&[(40, 100), (41, 500)]);
    assert_eq!(asks.cost_for_quantity(Decimal::new(601, 0)), None);
    assert_eq!(asks.cost_for_quantity(Decimal::zero()), None);
    assert_eq!(asks.cost_for_quantity(Decimal::new(-1, 0)), None);
    assert_eq!(book(&[]).cost_for_quantity(Decimal::one()), None);
}

#[test]
fn refuses_an_unusable_level_that_is_reached() {
    let asks = book(&[(40, 100), (0, 500)]);
    assert_eq!(asks.cost_for_quantity(Decimal::new(100, 0)), Some(Decimal::new(40, 0)));
    assert_eq!(asks.cost_for_quantity(Decimal::new(101, 0)), None);
}

#[test]
fn sums_usable_levels_up_to_a_price() {
    let asks = book(&[(40, 100), (0, 7), (41, 500), (50, 1)]);
    assert_eq!(
        asks.max_quantity_at_or_below(Decimal::new(41, 2)),
        Decimal::new(600, 0)
    );
    assert_eq!(asks.max_quantity_at_or_below(Decimal::new(1, 2)), Decimal::zero());
}
