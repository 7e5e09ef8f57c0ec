use arbitrage_observer::decimal::Decimal;
use arbitrage_observer::domain::{OrderStatus, PriceLevel};
use arbitrage_observer::execution::{
    preflight_pair_fok, quantity_for_budget, quantity_for_budget_at_step, simulate_fok,
    FokOrderRequest, SimulatedExecutor,
};

#[test]
fn partial_fill_pauses_on_unhedged() {
    let mut e = SimulatedExecutor::default();
    let p = e.assess_hedge(Decimal::new(1000, 0), Decimal::new(700, 0));
    assert_eq!(p.exposure, Decimal::new(300, 0));
    assert!(e.paused);
}

fn level(price: i64, quantity: i64) -> PriceLevel {
    PriceLevel {
        price: Decimal::new(price, 2),
        quantity: Decimal::from_i64(quantity),
    }
}

#[test]
fn fok_fills_all_levels_at_or_below_limit() {
    let fill = simulate_fok(
        FokOrderRequest {
            quantity: Decimal::from_i64(10),
            limit_price: Decimal::new(42, 2),
        },
        &[level(40, 4), level(41, 4), level(42, 5)],
    );
    assert_eq!(fill.status, OrderStatus::FullyFilled);
    assert_eq!(fill.filled_quantity, Decimal::from_i64(10));
    assert_eq!(fill.total_cost, Decimal::new(408, 2));
    assert_eq!(fill.average_price, Some(Decimal::new(408, 3)));
    assert_eq!(fill.worst_price, Some(Decimal::new(42, 2)));
}

#[test]
fn fok_cancels_without_partial_fill_when_limit_depth_is_insufficient() {
    let fill = simulate_fok(
        FokOrderRequest {
            quantity: Decimal::from_i64(10),
            limit_price: Decimal::new(40, 2),
        },
        &[level(40, 9), level(41, 100)],
    );
    assert_eq!(fill.status, OrderStatus::Cancelled);
    assert_eq!(fill.filled_quantity, Decimal::zero());
    assert_eq!(fill.total_cost, Decimal::zero());
}

#[test]
fn cross_venue_fok_detects_unhedged_race() {
    let request = FokOrderRequest {
        quantity: Decimal::from_i64(10),
        limit_price: Decimal::new(50, 2),
    };
    let mut executor = SimulatedExecutor::default();
    let report =
        executor.execute_pair_fok(request, &[level(49, 10)], request, &[level(51, 10)]);
    assert_eq!(report.first.status, OrderStatus::FullyFilled);
    assert_eq!(report.second.status, OrderStatus::Cancelled);
    assert_eq!(report.status, OrderStatus::Unhedged);
    assert_eq!(report.hedge.exposure, Decimal::from_i64(10));
    assert!(executor.paused);
}

#[test]
fn derives_quantity_from_total_pair_budget() {
    assert_eq!(
        quantity_for_budget(Decimal::from_i64(100), Decimal::new(40, 2), Decimal::new(50, 2)),
        Decimal::from_i64(100).checked_div(Decimal::new(90, 2))
    );
    assert_eq!(
        quantity_for_budget_at_step(
            Decimal::from_i64(100),
            Decimal::new(41, 2),
            Decimal::new(51, 2),
            Decimal::new(1, 2),
        ),
        Some(Decimal::new(10869, 2))
    );
}

#[test]
fn preflight_rejects_pair_before_submission_when_either_leg_cannot_fill() {
    let request = FokOrderRequest {
        quantity: Decimal::from_i64(10),
        limit_price: Decimal::new(50, 2),
    };
    let rejection =
        preflight_pair_fok(request, &[level(49, 10)], request, &[level(51, 10)]).unwrap_err();
    assert_eq!(rejection.len(), 1);
    assert!(rejection[0].starts_with("第二腿预检失败"));
}

#[test]
fn fok_rejects_an_invalid_request_or_book() {
    let request = FokOrderRequest {
        quantity: Decimal::zero(),
        limit_price: Decimal::new(50, 2),
    };
    let fill = simulate_fok(request, &[level(40, 4)]);
    assert_eq!(fill.status, OrderStatus::Rejected);
    assert_eq!(fill.filled_quantity, Decimal::zero());
    assert!(fill.reason.is_some());
    let request = FokOrderRequest {
        quantity: Decimal::one(),
        limit_price: Decimal::new(50, 2),
    };
    assert_eq!(simulate_fok(request, &[level(40, 0)]).status, OrderStatus::Rejected);
    assert_eq!(simulate_fok(request, &[]).status, OrderStatus::Cancelled);
}

#[test]
fn pair_is_hedged_or_cancelled_as_a_whole() {
    let request = FokOrderRequest {
        quantity: Decimal::from_i64(10),
        limit_price: Decimal::new(50, 2),
    };
    let mut executor = SimulatedExecutor::default();
    let report =
        executor.execute_pair_fok(request, &[level(49, 10)], request, &[level(50, 10)]);
    assert_eq!(report.status, OrderStatus::Hedged);
    assert_eq!(report.hedge.exposure, Decimal::zero());
    assert!(!executor.paused);
    let report =
        executor.execute_pair_fok(request, &[level(51, 10)], request, &[level(51, 10)]);
    assert_eq!(report.status, OrderStatus::Cancelled);
    assert!(!executor.paused);
    assert_eq!(executor.orders.len(), 4);
    assert_eq!(executor.orders[0].total_cost, Decimal::new(490, 2));
}

#[test]
fn a_passed_preflight_means_a_hedged_pair() {
    let request = FokOrderRequest {
        quantity: Decimal::from_i64(10),
        limit_price: Decimal::new(50, 2),
    };
    assert_eq!(
        preflight_pair_fok(request, &[level(49, 10)], request, &[level(50, 10)]),
        Ok(())
    );
    let reasons =
        preflight_pair_fok(request, &[level(51, 10)], request, &[level(51, 10)]).unwrap_err();
    assert_eq!(reasons.len(), 2);
    assert!(reasons[0].starts_with("第一腿预检失败"));
}

#[test]
fn a_pause_outlasts_a_later_hedge() {
    let mut executor = SimulatedExecutor::default();
    executor.assess_hedge(Decimal::new(2, 0), Decimal::new(1, 0));
    let position = executor.assess_hedge(Decimal::new(5, 0), Decimal::new(5, 0));
    assert_eq!(position.exposure, Decimal::zero());
    assert!(executor.paused);
}

#[test]
fn orders_carry_version_four_ids_and_fill_in_part() {
    let mut executor = SimulatedExecutor::default();
    let first = executor.place_order(Decimal::from_i64(10));
    let second = executor.place_order(Decimal::from_i64(10));
    assert_eq!((first.id >> 76) & 0xf, 4);
    assert_eq!((first.id >> 62) & 0x3, 2);
    assert_ne!(first.id, second.id);
    assert_eq!(first.status, OrderStatus::Submitting);
    assert!(executor.fill_order(first.id, Decimal::from_i64(4)).is_none());
    assert_eq!(executor.orders[0].status, OrderStatus::PartiallyFilled);
    assert_eq!(executor.orders[0].filled, Decimal::from_i64(4));
    executor.fill_order(second.id, Decimal::from_i64(40));
    assert_eq!(executor.orders[1].status, OrderStatus::FullyFilled);
    assert_eq!(executor.orders[1].filled, Decimal::from_i64(10));
}

#[test]
fn derives_no_quantity_from_invalid_terms() {
    let price = Decimal::new(50, 2);
    assert_eq!(quantity_for_budget(Decimal::zero(), price, price), None);
    assert_eq!(quantity_for_budget(Decimal::one(), Decimal::zero(), price), None);
    assert_eq!(
        quantity_for_budget_at_step(Decimal::one(), price, price, Decimal::zero()),
        None
    );
    assert_eq!(
        quantity_for_budget_at_step(Decimal::one(), price, price, Decimal::from_i64(2)),
        None
    );
    assert_eq!(
        quantity_for_budget_at_step(Decimal::from_i64(5), price, price, Decimal::from_i64(2)),
        Some(Decimal::from_i64(4))
    );
}
