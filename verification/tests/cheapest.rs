use arbitrage_observer::arbitrage::{buy_arbitrage_at, calculate_buy_arbitrage};
use arbitrage_observer::basis::calculate_basis;
use arbitrage_observer::cross::calculate_cross;
use arbitrage_observer::decimal::Decimal;
use arbitrage_observer::domain::{OrderBook, OrderStatus, Outcome, PriceLevel, Venue};
use arbitrage_observer::execution::{
    preflight_pair_fok, quantity_for_budget_at_step, simulate_fok, FokOrderRequest,
    SimulatedExecutor,
};
use arbitrage_observer::time::Timestamp;

fn level(price: i64, quantity: i64) -> PriceLevel {
    PriceLevel {
        price: Decimal::new(price, 2),
        quantity: Decimal::from_i64(quantity),
    }
}

fn request(quantity: i64, limit: i64) -> FokOrderRequest {
    FokOrderRequest {
        quantity: Decimal::from_i64(quantity),
        limit_price: Decimal::new(limit, 2),
    }
}

#[test]
fn a_fill_does_not_depend_on_the_order_of_the_asks() {
    let expected = simulate_fok(request(10, 45), &[level(40, 4), level(42, 4), level(44, 9)]);
    for asks in [
        [level(44, 9), level(42, 4), level(40, 4)],
        [level(42, 4), level(44, 9), level(40, 4)],
    ] {
        let fill = simulate_fok(request(10, 45), &asks);
        assert_eq!(fill.status, OrderStatus::FullyFilled);
        assert_eq!(fill.total_cost, expected.total_cost);
        assert_eq!(fill.worst_price, expected.worst_price);
        assert_eq!(fill.average_price, expected.average_price);
    }
    assert_eq!(expected.total_cost, Decimal::new(416, 2));
    assert_eq!(expected.worst_price, Some(Decimal::new(44, 2)));
    assert!(expected.average_price.unwrap().at_most(&expected.worst_price.unwrap()));
}

#[test]
fn no_choice_of_levels_is_cheaper_than_a_fill() {
    let (first, second, third) = (level(44, 9), level(40, 4), level(42, 4));
    let fill = simulate_fok(request(10, 45), &[first, second, third]);
    for a in 0..=9_i64 {
        for b in 0..=4_i64 {
            let c = 10 - a - b;
            if (0..=4).contains(&c) {
                let paid = Decimal::new(a * 44 + b * 40 + c * 42, 2);
                assert!(fill.total_cost.at_most(&paid));
            }
        }
    }
}

#[test]
fn a_planned_limit_is_the_lowest_that_fills() {
    let binance = [
        (Decimal::new(40, 2), Decimal::from_i64(3)),
        (Decimal::new(45, 2), Decimal::from_i64(20)),
    ];
    let polymarket = [(Decimal::new(40, 2), Decimal::from_i64(30))];
    let plan = calculate_cross(&binance, &polymarket, Decimal::zero(), Decimal::zero(), 0)
        .unwrap()
        .plan;
    let asks = [level(40, 3), level(45, 20)];
    assert_eq!(simulate_fok(plan.first_request, &asks).status, OrderStatus::FullyFilled);
    let lower = FokOrderRequest {
        quantity: plan.first_request.quantity,
        limit_price: Decimal::new(4499, 4),
    };
    assert_eq!(simulate_fok(lower, &asks).status, OrderStatus::Cancelled);
}

#[test]
fn a_settlement_in_the_past_costs_no_capital() {
    let levels = [(Decimal::new(40, 2), Decimal::from_i64(30))];
    let at = |remaining_ms| {
        calculate_cross(&levels, &levels, Decimal::zero(), Decimal::zero(), remaining_ms).unwrap()
    };
    assert_eq!(at(-5_000).net_edge, at(0).net_edge);
    assert!(at(3_600_000).net_edge.less(&at(0).net_edge));
}

#[test]
fn a_budget_buys_the_most_steps() {
    let quantity = quantity_for_budget_at_step(
        Decimal::from_i64(9),
        Decimal::new(40, 2),
        Decimal::new(40, 2),
        Decimal::from_i64(2),
    )
    .unwrap();
    assert_eq!(quantity, Decimal::from_i64(10));
}

#[test]
fn a_rounded_budget_still_buys_the_most_steps() {
    let step = Decimal::new(1, 2);
    let (first, second) = (Decimal::new(41, 2), Decimal::new(51, 2));
    let budget = Decimal::from_i64(100);
    let quantity = quantity_for_budget_at_step(budget, first, second, step).unwrap();
    assert_eq!(quantity, Decimal::new(10_869, 2));
    let combined = first.checked_add(second).unwrap();
    assert!(quantity.checked_mul(combined).unwrap().at_most(&budget));
    let more = quantity.checked_add(step).unwrap().checked_mul(combined).unwrap();
    assert!(budget.less(&more));
}

#[test]
fn a_rounded_average_is_at_most_the_worst_price() {
    let fill = simulate_fok(request(3, 34), &[level(33, 2), level(34, 2)]);
    assert_eq!(fill.total_cost, Decimal::new(100, 2));
    let average = fill.average_price.unwrap();
    assert_eq!(average.text(), "0.3333333333333333333333333333");
    assert!(average.at_most(&fill.worst_price.unwrap()));
    let other = simulate_fok(request(3, 34), &[level(34, 2), level(33, 2)]);
    assert_eq!(other.average_price, fill.average_price);
}

#[test]
fn counts_the_fewest_fundings_to_break_even() {
    let rounds = |rate| {
        calculate_basis(
            "BTCUSDT",
            1_000,
            &[(Decimal::from_i64(100), Decimal::from_i64(10))],
            &[(Decimal::from_i64(100), Decimal::from_i64(10))],
            Decimal::from_i64(100),
            Decimal::from_i64(100),
            rate,
            8,
            2_000,
            20,
            50,
            100,
        )
        .unwrap()
        .break_even_rounds
    };
    assert_eq!(rounds(Decimal::new(1, 3)).as_deref(), Some("5"));
    assert_eq!(rounds(Decimal::new(15, 4)).as_deref(), Some("4"));
    assert_eq!(rounds(Decimal::new(-1, 3)), None);
}

#[test]
fn preflight_and_hedge_agree_for_equal_numbers() {
    let first = request(10, 45);
    let second = FokOrderRequest {
        quantity: Decimal::new(1_000, 2),
        limit_price: Decimal::new(50, 2),
    };
    for (asks, fills) in [([level(40, 20)], true), ([level(46, 20)], false)] {
        let passed = preflight_pair_fok(first, &asks, second, &[level(50, 20)]).is_ok();
        let mut executor = SimulatedExecutor::default();
        let report = executor.execute_pair_fok(first, &asks, second, &[level(50, 20)]);
        assert_eq!(passed, fills);
        assert_eq!(report.status == OrderStatus::Hedged, fills);
        assert_eq!(report.hedge.first_leg, report.first.filled_quantity);
        assert_eq!(report.hedge.second_leg, report.second.filled_quantity);
    }
}

fn book(venue: Venue, outcome: Outcome, asks: &[(i64, i64)]) -> OrderBook {
    OrderBook {
        venue,
        market_id: "m".into(),
        outcome,
        bids: vec![],
        asks: asks.iter().map(|(price, quantity)| level(*price, *quantity)).collect(),
        timestamp: Timestamp { seconds: 0, nanos: 0 },
    }
}

#[test]
fn no_size_earns_where_no_opportunity_is_reported() {
    let up = book(Venue::Binance, Outcome::Up, &[(48, 5), (49, 10), (50, 10)]);
    let down = book(Venue::Polymarket, Outcome::Down, &[(50, 7), (51, 20)]);
    let minimum = Decimal::new(17, 2);
    assert!(
        calculate_buy_arbitrage(&up, &down, minimum, Decimal::zero(), Decimal::zero()).is_none()
    );
    for size in 1..=25 {
        let size = Decimal::from_i64(size);
        let cost = up
            .cost_for_quantity(size)
            .unwrap()
            .checked_add(down.cost_for_quantity(size).unwrap())
            .unwrap();
        assert!(size.checked_sub(cost).unwrap().at_most(&minimum));
    }
    let now = Timestamp { seconds: 5, nanos: 0 };
    let found = buy_arbitrage_at(
        &up,
        &down,
        Decimal::new(11, 2),
        Decimal::zero(),
        Decimal::zero(),
        now,
    )
    .unwrap()
    .unwrap();
    assert_eq!(found.executable_size, Decimal::from_i64(15));
    assert_eq!(found.net_profit, Decimal::new(12, 2));
}
