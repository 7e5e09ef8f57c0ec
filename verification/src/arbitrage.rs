//! Risk checks on a pair of markets, and purchases of complementary outcomes below their payout.
use vstd::prelude::*;

use crate::decimal::{
    difference, difference_miss, exact_product, exact_products_multiply, exact_sum,
    exact_sums_add_up, minus, negated_units, positive_units, product, product_miss, quotient,
    quotient_miss, quotients_are_close, sum, sum_miss, view_of, whole, zero, zero_units, Decimal,
    DecimalView,
};
use crate::domain::{
    cost_is_at_least_the_lowest_price, cost_of, ladder_view, unrounded_cost, ArbitrageDirection,
    ArbitrageOpportunity, Market, MarketStatus, OrderBook, Outcome, PriceLevel, Venue,
};
use crate::execution::{all_usable, levels_usable};
use crate::figures::{close, fine};
use crate::ladder::{depth, depth_from, LevelView};
use crate::time::{current_time, TimeSpan, Timestamp};

verus! {

#[derive(Clone, Debug)]
pub struct RiskLimits {
    pub max_trade_amount: Decimal,
    pub minimum_remaining_time: TimeSpan,
    pub maximum_book_age: TimeSpan,
}

#[derive(Clone, Copy, Debug, PartialEq, Eq, Structural)]
pub enum RiskRejection {
    MarketNotOpen,
    MarketEndingSoon,
    StaleOrderBook,
    InvalidBook,
}

/// A book has asks, and all of them are usable.
pub open spec fn book_usable(asks: Seq<PriceLevel>) -> bool {
    asks.len() > 0 && all_usable(ladder_view(asks))
}

/// The verdict on a pair of markets and their books: the first rule that is broken decides.
pub open spec fn risk_verdict(
    a: Market,
    b: Market,
    first: OrderBook,
    second: OrderBook,
    now: Timestamp,
    limits: RiskLimits,
) -> Result<(), RiskRejection> {
    let remaining = limits.minimum_remaining_time.nanos;
    let age = limits.maximum_book_age.nanos;
    if a.status != MarketStatus::Open || b.status != MarketStatus::Open {
        Err(RiskRejection::MarketNotOpen)
    } else if a.end_time.instant() - now.instant() < remaining || b.end_time.instant()
        - now.instant() < remaining {
        Err(RiskRejection::MarketEndingSoon)
    } else if now.instant() - first.timestamp.instant() > age || now.instant()
        - second.timestamp.instant() > age {
        Err(RiskRejection::StaleOrderBook)
    } else if !book_usable(first.asks@) || !book_usable(second.asks@) {
        Err(RiskRejection::InvalidBook)
    } else {
        Ok(())
    }
}

fn has_usable_asks(asks: &Vec<PriceLevel>) -> (result: bool)
    ensures
        result == book_usable(asks@),
{
    asks.len() > 0 && levels_usable(asks.as_slice())
}

/// Checks that both markets are open and far enough from their end, and that both books are
/// recent and usable.
pub fn check_risk(
    a: &Market,
    b: &Market,
    first: &OrderBook,
    second: &OrderBook,
    now: Timestamp,
    limits: &RiskLimits,
) -> (result: Result<(), RiskRejection>)
    ensures
        result == risk_verdict(*a, *b, *first, *second, now, *limits),
{
    if a.status != MarketStatus::Open || b.status != MarketStatus::Open {
        return Err(RiskRejection::MarketNotOpen);
    }
    if a.end_time.since(now).nanos < limits.minimum_remaining_time.nanos || b.end_time.since(
        now,
    ).nanos < limits.minimum_remaining_time.nanos {
        return Err(RiskRejection::MarketEndingSoon);
    }
    if now.since(first.timestamp).nanos > limits.maximum_book_age.nanos || now.since(
        second.timestamp,
    ).nanos > limits.maximum_book_age.nanos {
        return Err(RiskRejection::StaleOrderBook);
    }
    if !has_usable_asks(&first.asks) || !has_usable_asks(&second.asks) {
        return Err(RiskRejection::InvalidBook);
    }
    Ok(())
}

/// The direction of a pair of books: one outcome from Binance, the other from Polymarket.
pub open spec fn direction_of(up: OrderBook, down: OrderBook) -> Option<ArbitrageDirection> {
    if up.venue == Venue::Binance && down.venue == Venue::Polymarket && up.outcome == Outcome::Up
        && down.outcome == Outcome::Down {
        Some(ArbitrageDirection::BinanceUpPolymarketDown)
    } else if up.venue == Venue::Binance && down.venue == Venue::Polymarket && up.outcome
        == Outcome::Down && down.outcome == Outcome::Up {
        Some(ArbitrageDirection::BinanceDownPolymarketUp)
    } else {
        None
    }
}

/// An opportunity as numbers.
pub struct OpportunityView {
    pub direction: ArbitrageDirection,
    pub executable_size: DecimalView,
    pub cost: DecimalView,
    pub gross_payout: DecimalView,
    pub gross_profit: DecimalView,
    pub fees: DecimalView,
    pub slippage: DecimalView,
    pub safety_buffer: DecimalView,
    pub net_profit: DecimalView,
    pub net_profit_rate: DecimalView,
    pub detected_at: Timestamp,
}

impl View for ArbitrageOpportunity {
    type V = OpportunityView;

    open spec fn view(&self) -> OpportunityView {
        OpportunityView {
            direction: self.direction,
            executable_size: self.executable_size@,
            cost: self.cost@,
            gross_payout: self.gross_payout@,
            gross_profit: self.gross_profit@,
            fees: self.fees@,
            slippage: self.slippage@,
            safety_buffer: self.safety_buffer@,
            net_profit: self.net_profit@,
            net_profit_rate: self.net_profit_rate@,
            detected_at: self.detected_at,
        }
    }
}

pub open spec fn opportunity_view(value: Option<Option<ArbitrageOpportunity>>) -> Option<
    Option<OpportunityView>,
> {
    match value {
        Some(Some(opportunity)) => Some(Some(opportunity@)),
        Some(None) => Some(None),
        None => None,
    }
}

/// The cumulated quantities of the levels from `start` on that do not exceed `maximum`;
/// `None` on overflow.
pub open spec fn breakpoints_from(
    levels: Seq<LevelView>,
    start: int,
    running: DecimalView,
    maximum: DecimalView,
) -> Option<Seq<DecimalView>>
    decreases levels.len() - start,
{
    if start < 0 || start >= levels.len() {
        Some(Seq::empty())
    } else {
        match sum(running, levels[start].quantity) {
            None => None,
            Some(next) => match breakpoints_from(levels, start + 1, next, maximum) {
                None => None,
                Some(rest) => Some(
                    if next.le(maximum) {
                        seq![next] + rest
                    } else {
                        rest
                    },
                ),
            },
        }
    }
}

/// An ascending list with one more value, unless it holds the same number already.
pub open spec fn with_value(list: Seq<DecimalView>, value: DecimalView) -> Seq<DecimalView>
    decreases list.len(),
{
    if list.len() == 0 || list.last().lt(value) {
        list.push(value)
    } else if list.last().same(value) {
        list
    } else {
        with_value(list.drop_last(), value).push(list.last())
    }
}

/// The distinct numbers of a list in ascending order; of equal ones the first is kept.
pub open spec fn ascending(values: Seq<DecimalView>) -> Seq<DecimalView>
    decreases values.len(),
{
    if values.len() == 0 {
        Seq::empty()
    } else {
        with_value(ascending(values.drop_last()), values.last())
    }
}

/// The sizes worth trying: the largest one and every size at which one of the books is
/// exhausted up to a level. `None` on overflow.
pub open spec fn candidate_sizes(
    up: Seq<LevelView>,
    down: Seq<LevelView>,
    maximum: DecimalView,
) -> Option<Seq<DecimalView>> {
    match (breakpoints_from(up, 0, zero(), maximum), breakpoints_from(down, 0, zero(), maximum)) {
        (Some(first), Some(second)) => Some(ascending(seq![maximum] + first + second)),
        _ => None,
    }
}

/// What the purchase is charged and what it must earn.
pub struct Terms {
    pub minimum_profit: DecimalView,
    pub fee_rate: DecimalView,
    pub slippage_buffer: DecimalView,
}

/// The purchase of `quantity` of both outcomes: each pair pays one in the end. The outer
/// `None` is an overflow; the inner one says that the books cannot fill the quantity or that
/// it does not earn more than the minimum.
pub open spec fn opportunity_at(
    up: Seq<LevelView>,
    down: Seq<LevelView>,
    quantity: DecimalView,
    terms: Terms,
    direction: ArbitrageDirection,
    detected_at: Timestamp,
) -> Option<Option<OpportunityView>> {
    match cost_of(up, quantity) {
        None => None,
        Some(None) => Some(None),
        Some(Some(up_cost)) => match cost_of(down, quantity) {
            None => None,
            Some(None) => Some(None),
            Some(Some(down_cost)) => match sum(up_cost, down_cost) {
                None => None,
                Some(cost) => if !cost.is_positive() {
                    Some(None)
                } else {
                    let gross = difference(quantity, cost);
                    let fees = product(cost, terms.fee_rate);
                    let slippage = product(cost, terms.slippage_buffer);
                    match minus(minus(gross, fees), slippage) {
                        None => None,
                        Some(net) => if !terms.minimum_profit.lt(net) {
                            Some(None)
                        } else {
                            match quotient(net, cost) {
                                None => None,
                                Some(rate) => Some(
                                    Some(
                                        OpportunityView {
                                            direction,
                                            executable_size: quantity,
                                            cost,
                                            gross_payout: quantity,
                                            gross_profit: gross->0,
                                            fees: fees->0,
                                            slippage: slippage->0,
                                            safety_buffer: zero(),
                                            net_profit: net,
                                            net_profit_rate: rate,
                                            detected_at,
                                        },
                                    ),
                                ),
                            }
                        },
                    }
                },
            },
        },
    }
}

/// The last of the sizes from `start` on that makes an opportunity, or else `best`;
/// the outer `None` is an overflow at any of them.
pub open spec fn last_opportunity(
    up: Seq<LevelView>,
    down: Seq<LevelView>,
    sizes: Seq<DecimalView>,
    start: int,
    terms: Terms,
    direction: ArbitrageDirection,
    detected_at: Timestamp,
    best: Option<OpportunityView>,
) -> Option<Option<OpportunityView>>
    decreases sizes.len() - start,
{
    if start < 0 || start >= sizes.len() {
        Some(best)
    } else {
        match opportunity_at(up, down, sizes[start], terms, direction, detected_at) {
            None => None,
            Some(found) => last_opportunity(
                up,
                down,
                sizes,
                start + 1,
                terms,
                direction,
                detected_at,
                if found is Some {
                    found
                } else {
                    best
                },
            ),
        }
    }
}

/// The opportunity in a pair of books: the largest candidate size that earns more than the
/// minimum. There is none in books with an unusable level, wherever it stands. The outer
/// `None` is an overflow.
pub open spec fn buy_arbitrage(
    up: OrderBook,
    down: OrderBook,
    terms: Terms,
    detected_at: Timestamp,
) -> Option<Option<OpportunityView>> {
    let up_levels = ladder_view(up.asks@);
    let down_levels = ladder_view(down.asks@);
    match direction_of(up, down) {
        None => Some(None),
        Some(direction) => if !all_usable(up_levels) || !all_usable(down_levels) {
            Some(None)
        } else {
            match (depth(up_levels), depth(down_levels)) {
                (Some(up_depth), Some(down_depth)) => {
                    let maximum = up_depth.smaller(down_depth);
                    if !maximum.is_positive() || terms.fee_rate.mantissa < 0
                        || terms.slippage_buffer.mantissa < 0 {
                        Some(None)
                    } else {
                        match candidate_sizes(up_levels, down_levels, maximum) {
                            None => None,
                            Some(sizes) => last_opportunity(
                                up_levels,
                                down_levels,
                                sizes,
                                0,
                                terms,
                                direction,
                                detected_at,
                                None,
                            ),
                        }
                    }
                },
                _ => None,
            }
        },
    }
}

/// The total quantity of the asks; `None` on overflow.
fn ask_depth(asks: &Vec<PriceLevel>) -> (result: Option<Decimal>)
    ensures
        view_of(result) == depth(ladder_view(asks@)),
{
    let mut total = Decimal::zero();
    let mut i: usize = 0;
    let ghost ladder = ladder_view(asks@);
    while i < asks.len()
        invariant
            ladder == ladder_view(asks@),
            i <= asks@.len(),
            depth(ladder) == depth_from(ladder, i as int, total@),
        decreases asks@.len() - i,
    {
        proof {
            assert(ladder[i as int].quantity == asks@[i as int].quantity@);
        }
        total = total.checked_add(asks[i].quantity)?;
        i = i + 1;
    }
    Some(total)
}

pub open spec fn values_of(list: Seq<Decimal>) -> Seq<DecimalView> {
    list.map_values(|value: Decimal| value@)
}

proof fn lemma_with_value_position(list: Seq<DecimalView>, value: DecimalView, position: int)
    requires
        0 <= position <= list.len(),
        forall|i: int| position <= i < list.len() ==> value.lt(#[trigger] list[i]),
        position > 0 ==> list[position - 1].le(value),
    ensures
        with_value(list, value) == (if position > 0 && list[position - 1].same(value) {
            list
        } else {
            list.insert(position, value)
        }),
    decreases list.len(),
{
    if position == list.len() {
        assert(list.push(value) =~= list.insert(position, value));
    } else {
        let rest = list.drop_last();
        assert(value.lt(list[list.len() - 1]));
        lemma_with_value_position(rest, value, position);
        if position > 0 && list[position - 1].same(value) {
            assert(rest.push(list.last()) =~= list);
        } else {
            assert(rest.insert(position, value).push(list.last()) =~= list.insert(position, value));
        }
    }
}

/// Puts a value into an ascending list, unless it holds the same number already.
fn insert_value(list: &mut Vec<Decimal>, value: Decimal)
    ensures
        values_of(final(list)@) == with_value(values_of(old(list)@), value@),
{
    let mut position: usize = list.len();
    while position > 0 && value.less(&list[position - 1])
        invariant
            *list == *old(list),
            position <= list@.len(),
            forall|k: int|
                position <= k < list@.len() ==> value@.lt(#[trigger] values_of(list@)[k]),
        decreases position,
    {
        proof {
            assert(values_of(list@)[position - 1] == list@[position - 1]@);
        }
        position = position - 1;
    }
    proof {
        if position > 0 {
            assert(values_of(list@)[position - 1] == list@[position - 1]@);
        }
        lemma_with_value_position(values_of(list@), value@, position as int);
    }
    if position > 0 && list[position - 1].equals(&value) {
        return ;
    }
    list.insert(position, value);
    proof {
        assert(values_of(list@) =~= values_of(old(list)@).insert(position as int, value@));
    }
}

/// Adds the cumulated quantities of a book that do not exceed `maximum`; `None` on overflow.
fn push_breakpoints(
    sizes: &mut Vec<Decimal>,
    asks: &Vec<PriceLevel>,
    maximum: Decimal,
    Ghost(listed): Ghost<Seq<DecimalView>>,
) -> (result: Option<()>)
    requires
        values_of(old(sizes)@) == ascending(listed),
    ensures
        result is None <==> breakpoints_from(ladder_view(asks@), 0, zero(), maximum@) is None,
        result is Some ==> values_of(final(sizes)@) == ascending(
            listed + breakpoints_from(ladder_view(asks@), 0, zero(), maximum@)->0,
        ),
{
    let mut running = Decimal::zero();
    let mut i: usize = 0;
    let ghost ladder = ladder_view(asks@);
    let ghost mut seen: Seq<DecimalView> = Seq::empty();
    let ghost goal = breakpoints_from(ladder, 0, zero(), maximum@);
    proof {
        assert(listed + seen =~= listed);
        if goal is Some {
            assert(goal->0 =~= seen + goal->0);
        }
    }
    while i < asks.len()
        invariant
            ladder == ladder_view(asks@),
            i <= asks@.len(),
            goal is None <==> breakpoints_from(ladder, i as int, running@, maximum@) is None,
            goal is Some ==> goal->0 == seen + breakpoints_from(
                ladder,
                i as int,
                running@,
                maximum@,
            )->0,
            values_of(sizes@) == ascending(listed + seen),
            goal == breakpoints_from(ladder_view(asks@), 0, zero(), maximum@),
        decreases asks@.len() - i,
    {
        proof {
            assert(ladder[i as int].quantity == asks@[i as int].quantity@);
        }
        running = running.checked_add(asks[i].quantity)?;
        if running.at_most(&maximum) {
            insert_value(sizes, running);
            proof {
                let rest = breakpoints_from(ladder, i + 1, running@, maximum@);
                let before = seen;
                seen = seen.push(running@);
                assert((listed + seen).drop_last() =~= listed + before);
                assert((listed + seen).last() == running@);
                if goal is Some {
                    assert(before + (seq![running@] + rest->0) =~= seen + rest->0);
                }
            }
        }
        i = i + 1;
    }
    proof {
        assert(goal is Some ==> goal->0 =~= seen);
    }
    Some(())
}

/// The purchase of `quantity` of both outcomes; the outer `None` is an overflow.
fn opportunity_for(
    up: &OrderBook,
    down: &OrderBook,
    quantity: Decimal,
    minimum_profit: Decimal,
    fee_rate: Decimal,
    slippage_buffer: Decimal,
    direction: ArbitrageDirection,
    detected_at: Timestamp,
) -> (result: Option<Option<ArbitrageOpportunity>>)
    ensures
        opportunity_view(result) == opportunity_at(
            ladder_view(up.asks@),
            ladder_view(down.asks@),
            quantity@,
            (Terms {
                minimum_profit: minimum_profit@,
                fee_rate: fee_rate@,
                slippage_buffer: slippage_buffer@,
            }),
            direction,
            detected_at,
        ),
{
    let up_cost = match up.checked_cost_for_quantity(quantity)? {
        Some(cost) => cost,
        None => return Some(None),
    };
    let down_cost = match down.checked_cost_for_quantity(quantity)? {
        Some(cost) => cost,
        None => return Some(None),
    };
    let cost = up_cost.checked_add(down_cost)?;
    if !cost.is_positive() {
        return Some(None);
    }
    let gross_profit = quantity.checked_sub(cost)?;
    let fees = cost.checked_mul(fee_rate)?;
    let slippage = cost.checked_mul(slippage_buffer)?;
    let net_profit = gross_profit.checked_sub(fees)?.checked_sub(slippage)?;
    if !minimum_profit.less(&net_profit) {
        return Some(None);
    }
    let net_profit_rate = net_profit.checked_div(cost)?;
    Some(
        Some(
            ArbitrageOpportunity {
                direction,
                executable_size: quantity,
                cost,
                gross_payout: quantity,
                gross_profit,
                fees,
                slippage,
                safety_buffer: Decimal::zero(),
                net_profit,
                net_profit_rate,
                detected_at,
            },
        ),
    )
}

/// The opportunity in a pair of books as of `detected_at`; the outer `None` is an overflow.
pub fn buy_arbitrage_at(
    up: &OrderBook,
    down: &OrderBook,
    minimum_profit: Decimal,
    fee_rate: Decimal,
    slippage_buffer: Decimal,
    detected_at: Timestamp,
) -> (result: Option<Option<ArbitrageOpportunity>>)
    ensures
        opportunity_view(result) == buy_arbitrage(
            *up,
            *down,
            (Terms {
                minimum_profit: minimum_profit@,
                fee_rate: fee_rate@,
                slippage_buffer: slippage_buffer@,
            }),
            detected_at,
        ),
{
    let direction = match (up.venue, up.outcome, down.venue, down.outcome) {
        (Venue::Binance, Outcome::Up, Venue::Polymarket, Outcome::Down) => {
            ArbitrageDirection::BinanceUpPolymarketDown
        },
        (Venue::Binance, Outcome::Down, Venue::Polymarket, Outcome::Up) => {
            ArbitrageDirection::BinanceDownPolymarketUp
        },
        _ => {
            return Some(None);
        },
    };
    if !levels_usable(up.asks.as_slice()) || !levels_usable(down.asks.as_slice()) {
        return Some(None);
    }
    let maximum = ask_depth(&up.asks)?.min(ask_depth(&down.asks)?);
    if !maximum.is_positive() || fee_rate.is_negative() || slippage_buffer.is_negative() {
        return Some(None);
    }
    let ghost terms = Terms {
        minimum_profit: minimum_profit@,
        fee_rate: fee_rate@,
        slippage_buffer: slippage_buffer@,
    };
    let ghost up_levels = ladder_view(up.asks@);
    let ghost down_levels = ladder_view(down.asks@);
    let mut sizes: Vec<Decimal> = Vec::new();
    sizes.push(maximum);
    proof {
        assert(seq![maximum@].drop_last() =~= Seq::<DecimalView>::empty());
        assert(values_of(sizes@) =~= seq![maximum@]);
        assert(Seq::<DecimalView>::empty().push(maximum@) =~= seq![maximum@]);
        reveal_with_fuel(ascending, 2);
        assert(values_of(sizes@) =~= ascending(seq![maximum@]));
    }
    let ghost first_listed = seq![maximum@];
    let up_added = push_breakpoints(&mut sizes, &up.asks, maximum, Ghost(first_listed));
    if up_added.is_none() {
        return None;
    }
    let ghost second_listed = first_listed + breakpoints_from(
        up_levels,
        0,
        zero(),
        maximum@,
    )->0;
    let down_added = push_breakpoints(&mut sizes, &down.asks, maximum, Ghost(second_listed));
    if down_added.is_none() {
        return None;
    }
    let mut best: Option<ArbitrageOpportunity> = None;
    let mut i: usize = 0;
    let ghost goal = last_opportunity(
        up_levels,
        down_levels,
        values_of(sizes@),
        0,
        terms,
        direction,
        detected_at,
        None,
    );
    while i < sizes.len()
        invariant
            i <= sizes@.len(),
            up_levels == ladder_view(up.asks@),
            down_levels == ladder_view(down.asks@),
            terms == (Terms {
                minimum_profit: minimum_profit@,
                fee_rate: fee_rate@,
                slippage_buffer: slippage_buffer@,
            }),
            goal == last_opportunity(
                up_levels,
                down_levels,
                values_of(sizes@),
                i as int,
                terms,
                direction,
                detected_at,
                opportunity_view(Some(best))->0,
            ),
            goal == buy_arbitrage(*up, *down, terms, detected_at),
        decreases sizes@.len() - i,
    {
        proof {
            assert(values_of(sizes@)[i as int] == sizes@[i as int]@);
        }
        let found = opportunity_for(
            up,
            down,
            sizes[i],
            minimum_profit,
            fee_rate,
            slippage_buffer,
            direction,
            detected_at,
        )?;
        if found.is_some() {
            best = found;
        }
        i = i + 1;
    }
    Some(best)
}

/// The opportunity in a pair of books, detected now; the outer `None` is an overflow. The time
/// of detection is whatever the clock says and enters nothing else.
pub fn checked_calculate_buy_arbitrage(
    up: &OrderBook,
    down: &OrderBook,
    minimum_profit: Decimal,
    fee_rate: Decimal,
    slippage_buffer: Decimal,
) -> (result: Option<Option<ArbitrageOpportunity>>)
    ensures
        exists|now: Timestamp|
            opportunity_view(result) == #[trigger] buy_arbitrage(
                *up,
                *down,
                (Terms {
                    minimum_profit: minimum_profit@,
                    fee_rate: fee_rate@,
                    slippage_buffer: slippage_buffer@,
                }),
                now,
            ),
{
    buy_arbitrage_at(up, down, minimum_profit, fee_rate, slippage_buffer, current_time())
}

/// The opportunity in a pair of books, detected now.
pub fn calculate_buy_arbitrage(
    up: &OrderBook,
    down: &OrderBook,
    minimum_profit: Decimal,
    fee_rate: Decimal,
    slippage_buffer: Decimal,
) -> (result: Option<ArbitrageOpportunity>)
    requires
        forall|now: Timestamp|
            (#[trigger] buy_arbitrage(
                *up,
                *down,
                (Terms {
                    minimum_profit: minimum_profit@,
                    fee_rate: fee_rate@,
                    slippage_buffer: slippage_buffer@,
                }),
                now,
            )) is Some,
    ensures
        exists|now: Timestamp|
            opportunity_view(Some(result)) == #[trigger] buy_arbitrage(
                *up,
                *down,
                (Terms {
                    minimum_profit: minimum_profit@,
                    fee_rate: fee_rate@,
                    slippage_buffer: slippage_buffer@,
                }),
                now,
            ),
{
    checked_calculate_buy_arbitrage(up, down, minimum_profit, fee_rate, slippage_buffer).unwrap()
}

pub open spec fn strictly_ascending(list: Seq<DecimalView>) -> bool {
    forall|i: int, j: int| 0 <= i < j < list.len() ==> (#[trigger] list[i]).lt(#[trigger] list[j])
}

proof fn lemma_with_value_ascending(list: Seq<DecimalView>, value: DecimalView)
    requires
        strictly_ascending(list),
    ensures
        strictly_ascending(with_value(list, value)),
        forall|i: int|
            0 <= i < with_value(list, value).len() ==> (#[trigger] with_value(list, value)[i])
                == value || list.contains(with_value(list, value)[i]),
    decreases list.len(),
{
    let whole = with_value(list, value);
    if list.len() == 0 || list.last().lt(value) {
        assert forall|i: int| 0 <= i < whole.len() implies (#[trigger] whole[i] == value
            || list.contains(whole[i])) by {
            if i < list.len() {
                assert(whole[i] == list[i]);
            }
        }
    } else if list.last().same(value) {
        assert forall|i: int| 0 <= i < whole.len() implies list.contains(#[trigger] whole[i]) by {
            assert(whole[i] == list[i]);
        }
    } else {
        let rest = list.drop_last();
        assert(strictly_ascending(rest));
        lemma_with_value_ascending(rest, value);
        let inserted = with_value(rest, value);
        assert(whole == inserted.push(list.last()));
        assert forall|i: int| 0 <= i < inserted.len() implies (#[trigger] inserted[i]).lt(
            list.last(),
        ) by {
            if inserted[i] != value {
                let k = rest.index_of(inserted[i]);
                assert(list[k] == inserted[i]);
                assert(list[k].lt(list[list.len() - 1]));
            }
        }
        assert forall|i: int| 0 <= i < whole.len() implies (#[trigger] whole[i] == value
            || list.contains(whole[i])) by {
            if i < inserted.len() {
                assert(whole[i] == inserted[i]);
                if inserted[i] != value {
                    let k = rest.index_of(inserted[i]);
                    assert(list[k] == inserted[i]);
                }
            } else {
                assert(list[list.len() - 1] == whole[i]);
            }
        }
    }
}

pub(crate) proof fn lemma_ascending(values: Seq<DecimalView>)
    ensures
        strictly_ascending(ascending(values)),
        forall|i: int|
            0 <= i < ascending(values).len() ==> values.contains(#[trigger] ascending(values)[i]),
    decreases values.len(),
{
    if values.len() > 0 {
        let rest = values.drop_last();
        lemma_ascending(rest);
        lemma_with_value_ascending(ascending(rest), values.last());
        let list = ascending(values);
        assert forall|i: int| 0 <= i < list.len() implies values.contains(#[trigger] list[i]) by {
            if list[i] != values.last() {
                assert(ascending(rest).contains(list[i]));
                let k = ascending(rest).index_of(list[i]);
                assert(rest.contains(ascending(rest)[k]));
                let m = rest.index_of(list[i]);
                assert(values[m] == list[i]);
            } else {
                assert(values[values.len() - 1] == list[i]);
            }
        }
    }
}

proof fn lemma_breakpoints_bounded(
    levels: Seq<LevelView>,
    start: int,
    running: DecimalView,
    maximum: DecimalView,
)
    requires
        breakpoints_from(levels, start, running, maximum) is Some,
    ensures
        forall|i: int|
            0 <= i < breakpoints_from(levels, start, running, maximum)->0.len() ==> (
            #[trigger] breakpoints_from(levels, start, running, maximum)->0[i]).le(maximum),
    decreases levels.len() - start,
{
    if 0 <= start < levels.len() {
        let next = sum(running, levels[start].quantity)->0;
        lemma_breakpoints_bounded(levels, start + 1, next, maximum);
    }
}

pub(crate) proof fn lemma_last_opportunity(
    up: Seq<LevelView>,
    down: Seq<LevelView>,
    sizes: Seq<DecimalView>,
    start: int,
    terms: Terms,
    direction: ArbitrageDirection,
    detected_at: Timestamp,
    best: Option<OpportunityView>,
)
    requires
        0 <= start,
        last_opportunity(up, down, sizes, start, terms, direction, detected_at, best) is Some,
    ensures
        ({
            let found = last_opportunity(
                up,
                down,
                sizes,
                start,
                terms,
                direction,
                detected_at,
                best,
            )->0;
            ||| found == best && forall|j: int|
                start <= j < sizes.len() ==> opportunity_at(
                    up,
                    down,
                    #[trigger] sizes[j],
                    terms,
                    direction,
                    detected_at,
                ) == Some(None::<OpportunityView>)
            ||| exists|i: int|
                start <= i < sizes.len() && found is Some && opportunity_at(
                    up,
                    down,
                    #[trigger] sizes[i],
                    terms,
                    direction,
                    detected_at,
                ) == Some(found) && forall|j: int|
                    i < j < sizes.len() ==> opportunity_at(
                        up,
                        down,
                        #[trigger] sizes[j],
                        terms,
                        direction,
                        detected_at,
                    ) == Some(None::<OpportunityView>)
        }),
    decreases sizes.len() - start,
{
    if start < sizes.len() {
        let found = opportunity_at(up, down, sizes[start], terms, direction, detected_at)->0;
        let next = if found is Some {
            found
        } else {
            best
        };
        lemma_last_opportunity(up, down, sizes, start + 1, terms, direction, detected_at, next);
    }
}

/// Every opportunity combines one outcome of each venue from books that are usable throughout,
/// earns more than the minimum after fees and slippage, and is no larger than either book is
/// deep.
pub proof fn opportunity_earns_its_profit(
    up: OrderBook,
    down: OrderBook,
    terms: Terms,
    detected_at: Timestamp,
    opportunity: OpportunityView,
)
    requires
        buy_arbitrage(up, down, terms, detected_at) == Some(Some(opportunity)),
    ensures
        direction_of(up, down) == Some(opportunity.direction),
        book_usable(up.asks@),
        book_usable(down.asks@),
        terms.minimum_profit.lt(opportunity.net_profit),
        opportunity.cost.is_positive(),
        opportunity.executable_size.is_positive(),
        opportunity.gross_payout == opportunity.executable_size,
        difference(opportunity.executable_size, opportunity.cost) == Some(opportunity.gross_profit),
        product(opportunity.cost, terms.fee_rate) == Some(opportunity.fees),
        product(opportunity.cost, terms.slippage_buffer) == Some(opportunity.slippage),
        minus(
            difference(opportunity.gross_profit, opportunity.fees),
            Some(opportunity.slippage),
        ) == Some(opportunity.net_profit),
        quotient(opportunity.net_profit, opportunity.cost) == Some(opportunity.net_profit_rate),
        depth(ladder_view(up.asks@)) matches Some(up_depth) && opportunity.executable_size.le(
            up_depth,
        ),
        depth(ladder_view(down.asks@)) matches Some(down_depth) && opportunity.executable_size.le(
            down_depth,
        ),
{
    let up_levels = ladder_view(up.asks@);
    let down_levels = ladder_view(down.asks@);
    let direction = direction_of(up, down)->0;
    let maximum = depth(up_levels)->0.smaller(depth(down_levels)->0);
    let sizes = candidate_sizes(up_levels, down_levels, maximum)->0;
    lemma_last_opportunity(up_levels, down_levels, sizes, 0, terms, direction, detected_at, None);
    let i = choose|i: int|
        0 <= i < sizes.len() && opportunity_at(
            up_levels,
            down_levels,
            #[trigger] sizes[i],
            terms,
            direction,
            detected_at,
        ) == Some(Some(opportunity));
    assert(opportunity.executable_size == sizes[i]);
    let first = breakpoints_from(up_levels, 0, zero(), maximum)->0;
    let second = breakpoints_from(down_levels, 0, zero(), maximum)->0;
    let listed = seq![maximum] + first + second;
    lemma_ascending(listed);
    lemma_breakpoints_bounded(up_levels, 0, zero(), maximum);
    lemma_breakpoints_bounded(down_levels, 0, zero(), maximum);
    assert(listed.contains(sizes[i]));
    let k = listed.index_of(sizes[i]);
    assert(listed[k].le(maximum)) by {
        if k == 0 {
            assert(listed[k] == maximum);
        } else if k < 1 + first.len() {
            assert(listed[k] == first[k - 1]);
        } else {
            assert(listed[k] == second[k - 1 - first.len()]);
        }
    }
}

/// An opportunity is the one at its own size.
proof fn lemma_opportunity_is_at_its_size(
    up: OrderBook,
    down: OrderBook,
    terms: Terms,
    detected_at: Timestamp,
    opportunity: OpportunityView,
)
    requires
        buy_arbitrage(up, down, terms, detected_at) == Some(Some(opportunity)),
    ensures
        opportunity_at(
            ladder_view(up.asks@),
            ladder_view(down.asks@),
            opportunity.executable_size,
            terms,
            direction_of(up, down)->0,
            detected_at,
        ) == Some(Some(opportunity)),
{
    let up_levels = ladder_view(up.asks@);
    let down_levels = ladder_view(down.asks@);
    let direction = direction_of(up, down)->0;
    let maximum = depth(up_levels)->0.smaller(depth(down_levels)->0);
    let sizes = candidate_sizes(up_levels, down_levels, maximum)->0;
    lemma_last_opportunity(up_levels, down_levels, sizes, 0, terms, direction, detected_at, None);
    let i = choose|i: int|
        0 <= i < sizes.len() && opportunity_at(
            up_levels,
            down_levels,
            #[trigger] sizes[i],
            terms,
            direction,
            detected_at,
        ) == Some(Some(opportunity));
    assert(opportunity.executable_size == sizes[i]);
}

/// The cost of an opportunity is that of its size in both books.
proof fn lemma_cost_of_opportunity(
    up: OrderBook,
    down: OrderBook,
    terms: Terms,
    detected_at: Timestamp,
    opportunity: OpportunityView,
)
    requires
        buy_arbitrage(up, down, terms, detected_at) == Some(Some(opportunity)),
    ensures
        cost_of(ladder_view(up.asks@), opportunity.executable_size) matches Some(Some(up_cost))
            && cost_of(ladder_view(down.asks@), opportunity.executable_size) matches Some(
            Some(down_cost),
        ) && sum(up_cost, down_cost) == Some(opportunity.cost),
        terms.fee_rate.mantissa >= 0,
        terms.slippage_buffer.mantissa >= 0,
{
    let up_levels = ladder_view(up.asks@);
    let down_levels = ladder_view(down.asks@);
    let direction = direction_of(up, down)->0;
    let maximum = depth(up_levels)->0.smaller(depth(down_levels)->0);
    let sizes = candidate_sizes(up_levels, down_levels, maximum)->0;
    lemma_last_opportunity(up_levels, down_levels, sizes, 0, terms, direction, detected_at, None);
}

/// Nothing is rounded in buying a quantity of both outcomes and taking the charges off.
pub open spec fn unrounded_at(
    up: Seq<LevelView>,
    down: Seq<LevelView>,
    quantity: DecimalView,
    terms: Terms,
) -> bool {
    &&& unrounded_cost(up, quantity)
    &&& unrounded_cost(down, quantity)
    &&& cost_of(up, quantity) matches Some(Some(up_cost))
    &&& cost_of(down, quantity) matches Some(Some(down_cost))
    &&& exact_sum(up_cost, down_cost) matches Some(cost)
    &&& exact_sum(quantity, cost.negated()) matches Some(gross)
    &&& exact_product(cost, terms.fee_rate) matches Some(fees)
    &&& exact_product(cost, terms.slippage_buffer) matches Some(slippage)
    &&& exact_sum(gross, fees.negated()) matches Some(rest)
    &&& exact_sum(rest, slippage.negated()) is Some
}

/// Where nothing is rounded, there is an opportunity only in books whose lowest asks add up to
/// less than one.
pub proof fn opportunity_needs_asks_below_one(
    up: OrderBook,
    down: OrderBook,
    terms: Terms,
    detected_at: Timestamp,
    opportunity: OpportunityView,
    up_price: DecimalView,
    down_price: DecimalView,
)
    requires
        buy_arbitrage(up, down, terms, detected_at) == Some(Some(opportunity)),
        opportunity.executable_size.valid(),
        terms.minimum_profit.mantissa >= 0,
        terms.fee_rate.valid(),
        terms.slippage_buffer.valid(),
        unrounded_at(
            ladder_view(up.asks@),
            ladder_view(down.asks@),
            opportunity.executable_size,
            terms,
        ),
        forall|i: int|
            0 <= i < up.asks@.len() ==> (#[trigger] ladder_view(up.asks@)[i]).price.valid()
                && ladder_view(up.asks@)[i].quantity.valid() && up_price.le(
                ladder_view(up.asks@)[i].price,
            ),
        forall|i: int|
            0 <= i < down.asks@.len() ==> (#[trigger] ladder_view(down.asks@)[i]).price.valid()
                && ladder_view(down.asks@)[i].quantity.valid() && down_price.le(
                ladder_view(down.asks@)[i].price,
            ),
    ensures
        up_price.units() + down_price.units() < whole(1).units(),
{
    opportunity_earns_its_profit(up, down, terms, detected_at, opportunity);
    let up_levels = ladder_view(up.asks@);
    let down_levels = ladder_view(down.asks@);
    let size = opportunity.executable_size;
    let cost = opportunity.cost;
    let up_cost = cost_of(up_levels, size)->0->0;
    let down_cost = cost_of(down_levels, size)->0->0;
    lemma_cost_of_opportunity(up, down, terms, detected_at, opportunity);
    cost_is_at_least_the_lowest_price(up_levels, size, up_cost, up_price);
    cost_is_at_least_the_lowest_price(down_levels, size, down_cost, down_price);
    exact_sums_add_up(up_cost, down_cost, cost);
    exact_sums_add_up(size, cost.negated(), opportunity.gross_profit);
    exact_products_multiply(cost, terms.fee_rate, opportunity.fees);
    exact_products_multiply(cost, terms.slippage_buffer, opportunity.slippage);
    let rest = exact_sum(opportunity.gross_profit, opportunity.fees.negated())->0;
    exact_sums_add_up(opportunity.gross_profit, opportunity.fees.negated(), rest);
    exact_sums_add_up(rest, opportunity.slippage.negated(), opportunity.net_profit);
    negated_units(cost);
    negated_units(opportunity.fees);
    negated_units(opportunity.slippage);
    positive_units(size);
    positive_units(cost);
    positive_units(terms.fee_rate);
    positive_units(terms.slippage_buffer);
    positive_units(terms.minimum_profit);
    positive_units(whole(1));
    let one = whole(1).units();
    let (c, f, s) = (cost.units(), opportunity.fees.units(), opportunity.slippage.units());
    let (fee, slip) = (terms.fee_rate.units(), terms.slippage_buffer.units());
    assert(f >= 0) by (nonlinear_arith)
        requires
            f * one == c * fee,
            c > 0,
            fee >= 0,
            one > 0,
    ;
    assert(s >= 0) by (nonlinear_arith)
        requires
            s * one == c * slip,
            c > 0,
            slip >= 0,
            one > 0,
    ;
    let (u, d) = (up_cost.units(), down_cost.units());
    let (q, x, y) = (size.units(), up_price.units(), down_price.units());
    assert(c < q);
    assert(x + y < one) by (nonlinear_arith)
        requires
            u * one >= q * x,
            d * one >= q * y,
            c == u + d,
            c < q,
            one > 0,
            q > 0,
    ;
}

/// No candidate size that earns more than the minimum is larger than the one that is chosen.
pub proof fn opportunity_is_the_largest(
    up: OrderBook,
    down: OrderBook,
    terms: Terms,
    detected_at: Timestamp,
    opportunity: OpportunityView,
    size: DecimalView,
)
    requires
        buy_arbitrage(up, down, terms, detected_at) == Some(Some(opportunity)),
        ({
            let up_levels = ladder_view(up.asks@);
            let down_levels = ladder_view(down.asks@);
            let maximum = depth(up_levels)->0.smaller(depth(down_levels)->0);
            &&& candidate_sizes(up_levels, down_levels, maximum)->0.contains(size)
            &&& opportunity_at(
                up_levels,
                down_levels,
                size,
                terms,
                opportunity.direction,
                detected_at,
            ) matches Some(Some(_))
        }),
    ensures
        size.le(opportunity.executable_size),
{
    opportunity_earns_its_profit(up, down, terms, detected_at, opportunity);
    let up_levels = ladder_view(up.asks@);
    let down_levels = ladder_view(down.asks@);
    let direction = direction_of(up, down)->0;
    let maximum = depth(up_levels)->0.smaller(depth(down_levels)->0);
    let sizes = candidate_sizes(up_levels, down_levels, maximum)->0;
    lemma_last_opportunity(up_levels, down_levels, sizes, 0, terms, direction, detected_at, None);
    let i = choose|i: int|
        0 <= i < sizes.len() && opportunity_at(
            up_levels,
            down_levels,
            #[trigger] sizes[i],
            terms,
            direction,
            detected_at,
        ) == Some(Some(opportunity)) && forall|j: int|
            i < j < sizes.len() ==> opportunity_at(
                up_levels,
                down_levels,
                #[trigger] sizes[j],
                terms,
                direction,
                detected_at,
            ) == Some(None::<OpportunityView>);
    let first = breakpoints_from(up_levels, 0, zero(), maximum)->0;
    let second = breakpoints_from(down_levels, 0, zero(), maximum)->0;
    lemma_ascending(seq![maximum] + first + second);
    let k = sizes.index_of(size);
    assert(sizes[k] == size);
    if k < i {
        assert(sizes[k].lt(sizes[i]));
    }
}

/// Two books make a direction exactly where the first is of Binance, the second of Polymarket,
/// and they are of opposite outcomes; it is named after them.
pub proof fn directions_combine_opposite_outcomes(first: OrderBook, second: OrderBook)
    ensures
        direction_of(first, second) is Some <==> {
            &&& first.venue == Venue::Binance
            &&& second.venue == Venue::Polymarket
            &&& first.outcome != second.outcome
        },
        direction_of(first, second) is Some ==> (direction_of(first, second)
            == Some(ArbitrageDirection::BinanceUpPolymarketDown) <==> first.outcome == Outcome::Up),
        direction_of(first, second) is Some ==> (direction_of(first, second)
            == Some(ArbitrageDirection::BinanceDownPolymarketUp) <==> first.outcome
            == Outcome::Down),
{
}

/// A book has asks, and each of them a positive price and quantity.
pub open spec fn has_asks(book: OrderBook) -> bool {
    &&& book.asks@.len() > 0
    &&& forall|i: int|
        0 <= i < book.asks@.len() ==> (#[trigger] ladder_view(book.asks@)[i]).price.mantissa > 0
            && ladder_view(book.asks@)[i].quantity.mantissa > 0
}

/// Two markets pass exactly where both are open, both end no sooner than the limit allows, both
/// books are no older than the limit allows, and both have usable asks. The first of these that
/// fails is what they are turned down for.
pub proof fn risk_is_checked_rule_by_rule(
    a: Market,
    b: Market,
    first: OrderBook,
    second: OrderBook,
    now: Timestamp,
    limits: RiskLimits,
)
    ensures
        ({
            let verdict = risk_verdict(a, b, first, second, now, limits);
            let open = a.status == MarketStatus::Open && b.status == MarketStatus::Open;
            let in_time = now.instant() + limits.minimum_remaining_time.nanos
                <= a.end_time.instant() && now.instant() + limits.minimum_remaining_time.nanos
                <= b.end_time.instant();
            let recent = now.instant() <= first.timestamp.instant()
                + limits.maximum_book_age.nanos && now.instant() <= second.timestamp.instant()
                + limits.maximum_book_age.nanos;
            let usable = has_asks(first) && has_asks(second);
            &&& verdict is Ok <==> open && in_time && recent && usable
            &&& !open ==> verdict == Err::<(), RiskRejection>(RiskRejection::MarketNotOpen)
            &&& open && !in_time ==> verdict == Err::<(), RiskRejection>(
                RiskRejection::MarketEndingSoon,
            )
            &&& open && in_time && !recent ==> verdict == Err::<(), RiskRejection>(
                RiskRejection::StaleOrderBook,
            )
            &&& open && in_time && recent && !usable ==> verdict == Err::<(), RiskRejection>(
                RiskRejection::InvalidBook,
            )
        }),
{
}

/// An opportunity costs what its size costs on both books together. Its gross profit is the size
/// less that cost, its fees and its slippage are the rates on that cost, its net profit is what
/// they leave, and its rate the net profit's part of that cost.
pub proof fn opportunities_add_up(
    up: OrderBook,
    down: OrderBook,
    terms: Terms,
    detected_at: Timestamp,
    opportunity: OpportunityView,
)
    requires
        buy_arbitrage(up, down, terms, detected_at) == Some(Some(opportunity)),
    ensures
        ({
            let size = opportunity.executable_size;
            let first = cost_of(ladder_view(up.asks@), size);
            let second = cost_of(ladder_view(down.asks@), size);
            let cost = opportunity.cost;
            let gross = opportunity.gross_profit;
            let less_fees = difference(gross, opportunity.fees)->0;
            &&& first matches Some(Some(_))
            &&& second matches Some(Some(_))
            &&& close(
                cost.units(),
                first->0->0.units() + second->0->0.units(),
                sum_miss(first->0->0, second->0->0),
            )
            &&& opportunity.gross_payout.units() == size.units()
            &&& close(gross.units(), size.units() - cost.units(), difference_miss(size, cost))
            &&& close(
                fine(opportunity.fees),
                cost.units() * terms.fee_rate.units(),
                product_miss(cost, terms.fee_rate),
            )
            &&& close(
                fine(opportunity.slippage),
                cost.units() * terms.slippage_buffer.units(),
                product_miss(cost, terms.slippage_buffer),
            )
            &&& close(
                opportunity.net_profit.units(),
                gross.units() - opportunity.fees.units() - opportunity.slippage.units(),
                difference_miss(gross, opportunity.fees) + difference_miss(
                    less_fees,
                    opportunity.slippage,
                ),
            )
            &&& close(
                opportunity.net_profit_rate.units() * cost.units(),
                fine(opportunity.net_profit),
                quotient_miss(opportunity.net_profit, cost),
            )
            &&& opportunity.net_profit.units() > terms.minimum_profit.units()
            &&& opportunity.safety_buffer.units() == 0
            &&& opportunity.detected_at == detected_at
        }),
{
    zero_units();
    opportunity_earns_its_profit(up, down, terms, detected_at, opportunity);
    quotients_are_close(
        opportunity.net_profit,
        opportunity.cost,
        opportunity.net_profit_rate,
    );
    lemma_cost_of_opportunity(up, down, terms, detected_at, opportunity);
    lemma_opportunity_is_at_its_size(up, down, terms, detected_at, opportunity);
}

} // verus!
