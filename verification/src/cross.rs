//! Buying both outcomes of an event: across two venues, or within one.
use vstd::prelude::*;

use crate::basis::{basis_points, basis_points_of, MILLISECONDS_PER_YEAR};
use crate::cheapest::{is_marginal, lower_limits_do_not_fill, unrounded_offer, valid_levels};
use crate::decimal::{
    decimal_text, difference, exact_sum, exact_sums_add_up, fits_quotient, has_quotient, minus,
    miss, negated_units, over, plus, positive_units, product, quotient, quotients_are_close,
    size_of_number, sum, times, view_of, whole, zero, Decimal, DecimalView, MAX_SCALE,
};
use crate::domain::{is_usable, ladder_view, nested_view, OrderStatus, PriceLevel};
use crate::execution::{
    all_usable, checked_simulate_fok, fok, fok_fills_all_or_nothing, pair_reasons, FillView,
    FokOrderRequest, RequestView,
};
use crate::ladder::{
    by_price, depth, in_order, ladder_of, level_of, nothing_cheaper_follows, offers_grow, sorted,
    total_quantity, LevelView,
};
use crate::text::{no_notes, note_if, push_note, texts_of};

verus! {

/// The largest quantity that is simulated.
pub const PAPER_MAX_QUANTITY: i64 = 10;

pub const PAPER_MIN_REMAINING_MS: i64 = 60_000;

pub const PAPER_MAX_QUOTE_SKEW_MS: i64 = 1_000;

pub const PAPER_MAX_QUOTE_AGE_MS: i64 = 5_000;

pub const PAPER_SECOND_LEG_SLIPPAGE_BPS: i64 = 20;

pub const PAPER_STABLECOIN_CONVERSION_BPS: i64 = 10;

pub const PAPER_CAPITAL_APR_BPS: i64 = 1_000;

/// The levels as price levels.
pub fn price_levels(levels: &[(Decimal, Decimal)]) -> (result: Vec<PriceLevel>)
    ensures
        ladder_view(result@) == ladder_of(levels@),
{
    let mut result: Vec<PriceLevel> = Vec::new();
    let mut i: usize = 0;
    while i < levels.len()
        invariant
            i <= levels@.len(),
            ladder_view(result@) == ladder_of(levels@).take(i as int),
        decreases levels@.len() - i,
    {
        let ghost before = result@;
        result.push(PriceLevel { price: levels[i].0, quantity: levels[i].1 });
        proof {
            assert(ladder_view(result@) =~= ladder_view(before).push(ladder_of(levels@)[i as int]));
            assert(ladder_of(levels@).take(i + 1) =~= ladder_of(levels@).take(i as int).push(
                ladder_of(levels@)[i as int],
            ));
        }
        i = i + 1;
    }
    proof {
        assert(ladder_of(levels@).take(i as int) =~= ladder_of(levels@));
    }
    result
}

/// Takes `remaining` level by level from `start` on: what is left in the end, and the last
/// price at which something was taken. `None` on overflow.
pub open spec fn taken_from(
    levels: Seq<LevelView>,
    start: int,
    remaining: DecimalView,
    limit: Option<DecimalView>,
) -> Option<(DecimalView, Option<DecimalView>)>
    decreases levels.len() - start,
{
    if start < 0 || start >= levels.len() {
        Some((remaining, limit))
    } else {
        let filled = remaining.smaller(levels[start].quantity);
        let next_limit = if filled.is_positive() {
            Some(levels[start].price)
        } else {
            limit
        };
        match difference(remaining, filled) {
            None => None,
            Some(rest) => if !rest.is_positive() {
                Some((rest, next_limit))
            } else {
                taken_from(levels, start + 1, rest, next_limit)
            },
        }
    }
}

/// The cost of a fill-or-kill purchase of `quantity`, with the limit price it takes. The outer
/// `None` is an overflow, the inner one a book that cannot fill it.
pub open spec fn fok_cost(levels: Seq<LevelView>, quantity: DecimalView) -> Option<
    Option<(DecimalView, DecimalView)>,
> {
    match taken_from(levels, 0, quantity, None) {
        None => None,
        Some((rest, limit)) => if rest.is_positive() || limit is None {
            Some(None)
        } else {
            match fok(RequestView { quantity, limit_price: limit->0 }, levels) {
                None => None,
                Some(fill) => if fill.filled_quantity.same(quantity) {
                    Some(Some((fill.total_cost, limit->0)))
                } else {
                    Some(None)
                },
            }
        },
    }
}

pub open spec fn cost_view(value: Option<Option<(Decimal, Decimal)>>) -> Option<
    Option<(DecimalView, DecimalView)>,
> {
    match value {
        Some(Some((cost, limit))) => Some(Some((cost@, limit@))),
        Some(None) => Some(None),
        None => None,
    }
}

/// The cost of a fill-or-kill purchase of `quantity`, with the limit price it takes; the outer
/// `None` is an overflow.
pub fn fok_cost_for_quantity(levels: &[(Decimal, Decimal)], quantity: Decimal) -> (result: Option<
    Option<(Decimal, Decimal)>,
>)
    ensures
        cost_view(result) == fok_cost(ladder_of(levels@), quantity@),
{
    let mut remaining = quantity;
    let mut limit_price: Option<Decimal> = None;
    let mut i: usize = 0;
    let mut done = false;
    let ghost ladder = ladder_of(levels@);
    let ghost goal = taken_from(ladder, 0, quantity@, None);
    while i < levels.len() && !done
        invariant
            ladder == ladder_of(levels@),
            i <= levels@.len(),
            !done ==> goal == taken_from(ladder, i as int, remaining@, view_of(limit_price)),
            done ==> goal == Some((remaining@, view_of(limit_price))),
            goal is None ==> fok_cost(ladder_of(levels@), quantity@) is None,
        decreases levels@.len() - i,
    {
        proof {
            assert(ladder[i as int] == level_of(levels@[i as int]));
        }
        let (price, available) = levels[i];
        let filled = remaining.min(available);
        remaining = remaining.checked_sub(filled)?;
        if filled.is_positive() {
            limit_price = Some(price);
        }
        if !remaining.is_positive() {
            done = true;
        }
        i = i + 1;
    }
    if remaining.is_positive() {
        return Some(None);
    }
    let limit = match limit_price {
        Some(limit) => limit,
        None => return Some(None),
    };
    let asks = price_levels(levels);
    let fill = checked_simulate_fok(
        FokOrderRequest { quantity, limit_price: limit },
        asks.as_slice(),
    )?;
    if fill.filled_quantity.equals(&quantity) {
        Some(Some((fill.total_cost, limit)))
    } else {
        Some(None)
    }
}

/// The fee on one level of a Polymarket purchase.
pub open spec fn level_fee(filled: DecimalView, rate: DecimalView, price: DecimalView) -> Option<
    DecimalView,
> {
    times(times(product(filled, rate), Some(price)), difference(whole(1), price))
}

/// The fee on buying `remaining` from the levels from `start` on, added to `fee` and rounded in
/// the end. The outer `None` is an overflow, the inner one a book that is not deep enough.
pub open spec fn fee_from(
    levels: Seq<LevelView>,
    start: int,
    rate: DecimalView,
    remaining: DecimalView,
    fee: DecimalView,
) -> Option<Option<DecimalView>>
    decreases levels.len() - start,
{
    if start < 0 || start >= levels.len() {
        Some(None)
    } else {
        let filled = remaining.smaller(levels[start].quantity);
        match (plus(Some(fee), level_fee(filled, rate, levels[start].price)), difference(
            remaining,
            filled,
        )) {
            (Some(next), Some(rest)) => if !rest.is_positive() {
                Some(Some(next.rounded(5)))
            } else {
                fee_from(levels, start + 1, rate, rest, next)
            },
            _ => None,
        }
    }
}

/// The fee on a Polymarket purchase, to five decimal places.
pub open spec fn polymarket_fee(levels: Seq<LevelView>, quantity: DecimalView, rate: DecimalView) -> Option<
    Option<DecimalView>,
> {
    fee_from(levels, 0, rate, quantity, zero())
}

/// The fee on a Polymarket purchase; the outer `None` is an overflow.
pub fn checked_polymarket_fee_for_quantity(
    levels: &[(Decimal, Decimal)],
    quantity: Decimal,
    fee_rate: Decimal,
) -> (result: Option<Option<Decimal>>)
    ensures
        nested_view(result) == polymarket_fee(ladder_of(levels@), quantity@, fee_rate@),
{
    let mut remaining = quantity;
    let mut fee = Decimal::zero();
    let mut i: usize = 0;
    let ghost ladder = ladder_of(levels@);
    while i < levels.len()
        invariant
            ladder == ladder_of(levels@),
            i <= levels@.len(),
            polymarket_fee(ladder, quantity@, fee_rate@) == fee_from(
                ladder,
                i as int,
                fee_rate@,
                remaining@,
                fee@,
            ),
        decreases levels@.len() - i,
    {
        proof {
            assert(ladder[i as int] == level_of(levels@[i as int]));
        }
        let (price, available) = levels[i];
        let filled = remaining.min(available);
        let charged = filled.checked_mul(fee_rate)?.checked_mul(price)?.checked_mul(
            Decimal::one().checked_sub(price)?,
        )?;
        fee = fee.checked_add(charged)?;
        remaining = remaining.checked_sub(filled)?;
        if !remaining.is_positive() {
            return Some(Some(fee.round_dp(5)));
        }
        i = i + 1;
    }
    Some(None)
}

/// The fee on a Polymarket purchase, to five decimal places.
pub fn polymarket_fee_for_quantity(
    levels: &[(Decimal, Decimal)],
    quantity: Decimal,
    fee_rate: Decimal,
) -> (result: Option<Decimal>)
    requires
        polymarket_fee(ladder_of(levels@), quantity@, fee_rate@) is Some,
    ensures
        Some(view_of(result)) == polymarket_fee(ladder_of(levels@), quantity@, fee_rate@),
{
    checked_polymarket_fee_for_quantity(levels, quantity, fee_rate).unwrap()
}

/// A purchase of both outcomes, per share and as a whole, with the limit prices of its legs.
pub struct PurchaseFigures {
    pub cost: DecimalView,
    pub fees: DecimalView,
    pub risk_buffers: DecimalView,
    pub net_edge: DecimalView,
    pub size: DecimalView,
    pub total_cost: DecimalView,
    pub total_fees: DecimalView,
    pub total_buffers: DecimalView,
    pub net: DecimalView,
    pub first_limit: DecimalView,
    pub second_limit: DecimalView,
}

/// The quantity to buy: what both books offer, at most the largest quantity.
pub open spec fn purchase_size(first: Seq<LevelView>, second: Seq<LevelView>) -> Option<DecimalView> {
    match (depth(first), depth(second)) {
        (Some(a), Some(b)) => Some(a.smaller(b).smaller(whole(PAPER_MAX_QUANTITY as int))),
        _ => None,
    }
}

/// The cost of the capital that is bound until the settlement.
pub open spec fn capital_cost(cost: DecimalView, remaining_ms: int) -> Option<DecimalView> {
    over(
        times(
            basis_points_of(Some(cost), PAPER_CAPITAL_APR_BPS as int),
            Some(
                whole(
                    if remaining_ms > 0 {
                        remaining_ms
                    } else {
                        0
                    },
                ),
            ),
        ),
        Some(whole(MILLISECONDS_PER_YEAR as int)),
    )
}

/// The figures per share: each pair of shares pays one, of which cost, fees and buffers are
/// taken. `None` on overflow.
pub open spec fn per_share(
    size: DecimalView,
    cost: DecimalView,
    fees: DecimalView,
    risk_buffers: DecimalView,
    first_limit: DecimalView,
    second_limit: DecimalView,
) -> Option<PurchaseFigures> {
    let net = minus(minus(difference(size, cost), Some(fees)), Some(risk_buffers));
    match (
        quotient(cost, size),
        quotient(fees, size),
        quotient(risk_buffers, size),
        over(net, Some(size)),
    ) {
        (Some(cost_share), Some(fee_share), Some(buffer_share), Some(net_edge)) => Some(
            PurchaseFigures {
                cost: cost_share,
                fees: fee_share,
                risk_buffers: buffer_share,
                net_edge,
                size,
                total_cost: cost,
                total_fees: fees,
                total_buffers: risk_buffers,
                net: net->0,
                first_limit,
                second_limit,
            },
        ),
        _ => None,
    }
}

pub open spec fn lifted(value: Option<PurchaseFigures>) -> Option<Option<PurchaseFigures>> {
    match value {
        Some(figures) => Some(Some(figures)),
        None => None,
    }
}

/// Buying one outcome on Binance and the other on Polymarket. The outer `None` is an overflow;
/// the inner one says that a fee rate is negative or that a book is not deep enough.
pub open spec fn cross(
    binance: Seq<LevelView>,
    polymarket: Seq<LevelView>,
    binance_rate: DecimalView,
    polymarket_rate: DecimalView,
    remaining_ms: int,
) -> Option<Option<PurchaseFigures>> {
    if binance_rate.mantissa < 0 || polymarket_rate.mantissa < 0 {
        Some(None)
    } else {
        match purchase_size(binance, polymarket) {
            None => None,
            Some(size) => if !size.is_positive() {
                Some(None)
            } else {
                match fok_cost(binance, size) {
                    None => None,
                    Some(None) => Some(None),
                    Some(Some((binance_cost, binance_limit))) => match fok_cost(polymarket, size) {
                        None => None,
                        Some(None) => Some(None),
                        Some(Some((polymarket_cost, polymarket_limit))) => cross_legs(
                            size,
                            binance_cost,
                            binance_limit,
                            polymarket_cost,
                            polymarket_limit,
                            binance_rate,
                            polymarket_fee(polymarket, size, polymarket_rate),
                            remaining_ms,
                        ),
                    },
                }
            },
        }
    }
}

/// The figures of two legs with a proportional fee on the first and a given one on the second.
pub open spec fn cross_legs(
    size: DecimalView,
    binance_cost: DecimalView,
    binance_limit: DecimalView,
    polymarket_cost: DecimalView,
    polymarket_limit: DecimalView,
    binance_rate: DecimalView,
    polymarket_fee: Option<Option<DecimalView>>,
    remaining_ms: int,
) -> Option<Option<PurchaseFigures>> {
    match (sum(binance_cost, polymarket_cost), product(binance_cost, binance_rate)) {
        (Some(cost), Some(binance_fee)) => match polymarket_fee {
            None => None,
            Some(None) => Some(None),
            Some(Some(polymarket_fee)) => {
                let fees = sum(binance_fee, polymarket_fee);
                let buffers = plus(
                    plus(
                        basis_points_of(Some(cost), PAPER_SECOND_LEG_SLIPPAGE_BPS as int),
                        basis_points_of(Some(size), PAPER_STABLECOIN_CONVERSION_BPS as int),
                    ),
                    capital_cost(cost, remaining_ms),
                );
                match (fees, buffers) {
                    (Some(fees), Some(buffers)) => lifted(
                        per_share(size, cost, fees, buffers, binance_limit, polymarket_limit),
                    ),
                    _ => None,
                }
            },
        },
        _ => None,
    }
}

/// The orders of a purchase.
#[derive(Clone, Copy, Debug)]
pub struct ShadowPlan {
    pub first_request: FokOrderRequest,
    pub second_request: FokOrderRequest,
}

/// A purchase of both outcomes, per share.
#[derive(Clone, Copy, Debug)]
pub struct CrossCalculation {
    pub cost: Decimal,
    pub fees: Decimal,
    pub risk_buffers: Decimal,
    pub net_edge: Decimal,
    pub size: Decimal,
    pub plan: ShadowPlan,
}

/// A positive edge per share comes with a positive profit as a whole.
pub open spec fn edge_is_earned(figures: PurchaseFigures) -> bool {
    figures.net_edge.is_positive() ==> figures.net.is_positive()
}

/// A calculation shows the figures, and plans both legs for the size at their limits.
pub open spec fn shows_purchase(calculation: CrossCalculation, figures: PurchaseFigures) -> bool {
    &&& calculation.cost@ == figures.cost
    &&& calculation.fees@ == figures.fees
    &&& calculation.risk_buffers@ == figures.risk_buffers
    &&& calculation.net_edge@ == figures.net_edge
    &&& calculation.size@ == figures.size
    &&& plans(calculation.plan, figures)
    &&& edge_is_earned(figures)
}

/// A plan is for the size of the figures, at their limits.
pub open spec fn plans(plan: ShadowPlan, figures: PurchaseFigures) -> bool {
    &&& plan.first_request@ == (RequestView {
        quantity: figures.size,
        limit_price: figures.first_limit,
    })
    &&& plan.second_request@ == (RequestView {
        quantity: figures.size,
        limit_price: figures.second_limit,
    })
}

/// The quantity to buy; `None` on overflow.
fn size_of_purchase(first: &[(Decimal, Decimal)], second: &[(Decimal, Decimal)]) -> (result: Option<
    Decimal,
>)
    ensures
        view_of(result) == purchase_size(ladder_of(first@), ladder_of(second@)),
{
    let first_depth = total_quantity(first)?;
    let second_depth = total_quantity(second)?;
    Some(first_depth.min(second_depth).min(Decimal::from_i64(PAPER_MAX_QUANTITY)))
}

/// The cost of the capital that is bound until the settlement; `None` on overflow.
fn cost_of_capital(cost: Decimal, remaining_time_ms: i64) -> (result: Option<Decimal>)
    ensures
        view_of(result) == capital_cost(cost@, remaining_time_ms as int),
{
    let bound: i64 = if remaining_time_ms > 0 {
        remaining_time_ms
    } else {
        0
    };
    basis_points(cost, PAPER_CAPITAL_APR_BPS)?.checked_mul(Decimal::from_i64(bound))?.checked_div(
        Decimal::from_i64(MILLISECONDS_PER_YEAR),
    )
}

/// The figures per share; `None` on overflow.
fn calculation_per_share(
    size: Decimal,
    cost: Decimal,
    fees: Decimal,
    risk_buffers: Decimal,
    first_limit: Decimal,
    second_limit: Decimal,
) -> (result: Option<CrossCalculation>)
    requires
        size@.is_positive(),
    ensures
        match per_share(size@, cost@, fees@, risk_buffers@, first_limit@, second_limit@) {
            None => result is None,
            Some(figures) => result matches Some(calculation) && shows_purchase(
                calculation,
                figures,
            ),
        },
{
    let net = size.checked_sub(cost)?.checked_sub(fees)?.checked_sub(risk_buffers)?;
    Some(
        CrossCalculation {
            cost: cost.checked_div(size)?,
            fees: fees.checked_div(size)?,
            risk_buffers: risk_buffers.checked_div(size)?,
            net_edge: net.checked_div(size)?,
            size,
            plan: ShadowPlan {
                first_request: FokOrderRequest { quantity: size, limit_price: first_limit },
                second_request: FokOrderRequest { quantity: size, limit_price: second_limit },
            },
        },
    )
}

/// Buying one outcome on Binance and the other on Polymarket; the outer `None` is an overflow.
pub fn checked_calculate_cross(
    binance_levels: &[(Decimal, Decimal)],
    polymarket_levels: &[(Decimal, Decimal)],
    binance_fee_rate: Decimal,
    polymarket_fee_rate: Decimal,
    remaining_time_ms: i64,
) -> (result: Option<Option<CrossCalculation>>)
    ensures
        match cross(
            ladder_of(binance_levels@),
            ladder_of(polymarket_levels@),
            binance_fee_rate@,
            polymarket_fee_rate@,
            remaining_time_ms as int,
        ) {
            None => result is None,
            Some(None) => result matches Some(None),
            Some(Some(figures)) => result matches Some(Some(calculation)) && shows_purchase(
                calculation,
                figures,
            ),
        },
{
    if binance_fee_rate.is_negative() || polymarket_fee_rate.is_negative() {
        return Some(None);
    }
    let size = size_of_purchase(binance_levels, polymarket_levels)?;
    if !size.is_positive() {
        return Some(None);
    }
    let (binance_cost, binance_limit) = match fok_cost_for_quantity(binance_levels, size)? {
        Some(found) => found,
        None => return Some(None),
    };
    let (polymarket_cost, polymarket_limit) = match fok_cost_for_quantity(
        polymarket_levels,
        size,
    )? {
        Some(found) => found,
        None => return Some(None),
    };
    let cost = binance_cost.checked_add(polymarket_cost)?;
    let binance_fee = binance_cost.checked_mul(binance_fee_rate)?;
    let polymarket_fee = match checked_polymarket_fee_for_quantity(
        polymarket_levels,
        size,
        polymarket_fee_rate,
    )? {
        Some(fee) => fee,
        None => return Some(None),
    };
    let fees = binance_fee.checked_add(polymarket_fee)?;
    let slippage = basis_points(cost, PAPER_SECOND_LEG_SLIPPAGE_BPS)?;
    let conversion = basis_points(size, PAPER_STABLECOIN_CONVERSION_BPS)?;
    let capital = cost_of_capital(cost, remaining_time_ms)?;
    let risk_buffers = slippage.checked_add(conversion)?.checked_add(capital)?;
    Some(
        Some(
            calculation_per_share(size, cost, fees, risk_buffers, binance_limit, polymarket_limit)?,
        ),
    )
}

/// Buying one outcome on Binance and the other on Polymarket.
pub fn calculate_cross(
    binance_levels: &[(Decimal, Decimal)],
    polymarket_levels: &[(Decimal, Decimal)],
    binance_fee_rate: Decimal,
    polymarket_fee_rate: Decimal,
    remaining_time_ms: i64,
) -> (result: Option<CrossCalculation>)
    requires
        cross(
            ladder_of(binance_levels@),
            ladder_of(polymarket_levels@),
            binance_fee_rate@,
            polymarket_fee_rate@,
            remaining_time_ms as int,
        ) is Some,
    ensures
        match cross(
            ladder_of(binance_levels@),
            ladder_of(polymarket_levels@),
            binance_fee_rate@,
            polymarket_fee_rate@,
            remaining_time_ms as int,
        )->0 {
            None => result is None,
            Some(figures) => result matches Some(calculation) && shows_purchase(
                calculation,
                figures,
            ),
        },
{
    checked_calculate_cross(
        binance_levels,
        polymarket_levels,
        binance_fee_rate,
        polymarket_fee_rate,
        remaining_time_ms,
    ).unwrap()
}

/// Buying both outcomes on one venue, given the fee on both legs.
pub open spec fn internal_legs(
    size: DecimalView,
    cost: DecimalView,
    fees: Option<DecimalView>,
    first_limit: DecimalView,
    second_limit: DecimalView,
    remaining_ms: int,
) -> Option<Option<PurchaseFigures>> {
    let buffers = plus(
        basis_points_of(Some(cost), PAPER_SECOND_LEG_SLIPPAGE_BPS as int),
        capital_cost(cost, remaining_ms),
    );
    match (fees, buffers) {
        (Some(fees), Some(buffers)) => lifted(
            per_share(size, cost, fees, buffers, first_limit, second_limit),
        ),
        _ => None,
    }
}

/// The fee on both legs of a purchase on Polymarket.
pub open spec fn both_fees(
    up: Seq<LevelView>,
    down: Seq<LevelView>,
    size: DecimalView,
    rate: DecimalView,
) -> Option<Option<DecimalView>> {
    match polymarket_fee(up, size, rate) {
        None => None,
        Some(None) => Some(None),
        Some(Some(up_fee)) => match polymarket_fee(down, size, rate) {
            None => None,
            Some(None) => Some(None),
            Some(Some(down_fee)) => match sum(up_fee, down_fee) {
                None => None,
                Some(fees) => Some(Some(fees)),
            },
        },
    }
}

/// Buying both outcomes on one venue. On Binance the fee is proportional to the cost, on
/// Polymarket it is charged level by level.
pub open spec fn internal(
    up: Seq<LevelView>,
    down: Seq<LevelView>,
    rate: DecimalView,
    remaining_ms: int,
    on_binance: bool,
) -> Option<Option<PurchaseFigures>> {
    if rate.mantissa < 0 {
        Some(None)
    } else {
        match purchase_size(up, down) {
            None => None,
            Some(size) => if !size.is_positive() {
                Some(None)
            } else {
                match fok_cost(up, size) {
                    None => None,
                    Some(None) => Some(None),
                    Some(Some((up_cost, up_limit))) => match fok_cost(down, size) {
                        None => None,
                        Some(None) => Some(None),
                        Some(Some((down_cost, down_limit))) => match sum(up_cost, down_cost) {
                            None => None,
                            Some(cost) => if on_binance {
                                internal_legs(
                                    size,
                                    cost,
                                    product(cost, rate),
                                    up_limit,
                                    down_limit,
                                    remaining_ms,
                                )
                            } else {
                                match both_fees(up, down, size, rate) {
                                    None => None,
                                    Some(None) => Some(None),
                                    Some(Some(fees)) => internal_legs(
                                        size,
                                        cost,
                                        Some(fees),
                                        up_limit,
                                        down_limit,
                                        remaining_ms,
                                    ),
                                }
                            },
                        },
                    },
                }
            },
        }
    }
}

/// A price at which an outcome is traded: neither nearly certain nor nearly excluded.
pub open spec fn tradable_price(price: DecimalView) -> bool {
    (DecimalView { mantissa: 5, scale: 2 }).le(price) && price.le(
        DecimalView { mantissa: 95, scale: 2 },
    )
}

/// Whether a price is tradable.
pub fn is_tradable_price(price: &Decimal) -> (result: bool)
    ensures
        result == tradable_price(price@),
{
    Decimal::new(5, 2).at_most(price) && price.at_most(&Decimal::new(95, 2))
}

/// The first price of a ladder is tradable.
pub open spec fn opens_tradable(levels: Seq<LevelView>) -> bool {
    levels.len() > 0 && tradable_price(levels[0].price)
}

fn first_tradable(levels: &[(Decimal, Decimal)]) -> (result: bool)
    ensures
        result == opens_tradable(ladder_of(levels@)),
{
    if levels.len() == 0 {
        false
    } else {
        proof {
            assert(ladder_of(levels@)[0] == level_of(levels@[0]));
        }
        is_tradable_price(&levels[0].0)
    }
}

/// Why a purchase on one venue is no trade.
pub open spec fn internal_rejections(
    up: Seq<LevelView>,
    down: Seq<LevelView>,
    net_edge: DecimalView,
    quote_skew_ms: i64,
    quote_age_ms: i64,
    remaining_ms: i64,
    on_binance: bool,
) -> Seq<Seq<char>> {
    note_if(!net_edge.is_positive(), "扣费及缓冲后无正净空间"@) + note_if(
        quote_skew_ms > PAPER_MAX_QUOTE_SKEW_MS,
        if on_binance {
            "Binance 两盘口时间差超过 1 秒"@
        } else {
            "Polymarket 两盘口时间差超过 1 秒"@
        },
    ) + note_if(
        quote_age_ms > PAPER_MAX_QUOTE_AGE_MS,
        if on_binance {
            "Binance 盘口年龄超过 5 秒"@
        } else {
            "Polymarket 盘口年龄超过 5 秒"@
        },
    ) + note_if(remaining_ms < PAPER_MIN_REMAINING_MS, "距结算不足 60 秒"@) + note_if(
        !opens_tradable(up) || !opens_tradable(down),
        "单腿价格超出 0.05 至 0.95"@,
    )
}

/// A purchase of both outcomes on one venue, with every number in decimal notation.
#[derive(Clone, Debug)]
pub struct BinanceInternalView {
    pub cost: String,
    pub fees: String,
    pub risk_buffers: String,
    pub net_edge: String,
    pub size: String,
    pub quote_skew_ms: i64,
    pub quote_age_ms: i64,
    pub rejections: Vec<String>,
}

pub type PolymarketInternalView = BinanceInternalView;

/// A purchase on one venue, with its orders.
#[derive(Clone, Debug)]
pub struct SameMarketCalculation {
    pub view: PolymarketInternalView,
    pub plan: ShadowPlan,
}

/// Every number of a view is that of the figures.
pub open spec fn shows_internal(
    view: BinanceInternalView,
    figures: PurchaseFigures,
    rejections: Seq<Seq<char>>,
) -> bool {
    &&& view.cost@ == decimal_text(figures.cost)
    &&& view.fees@ == decimal_text(figures.fees)
    &&& view.risk_buffers@ == decimal_text(figures.risk_buffers)
    &&& view.net_edge@ == decimal_text(figures.net_edge)
    &&& figures.net_edge.valid()
    &&& edge_is_earned(figures)
    &&& view.size@ == decimal_text(figures.size)
    &&& texts_of(view.rejections@) == rejections
}

/// Buying both outcomes on one venue; the outer `None` is an overflow.
fn calculate_internal(
    up_levels: &[(Decimal, Decimal)],
    down_levels: &[(Decimal, Decimal)],
    fee_rate: Decimal,
    remaining_time_ms: i64,
    quote_skew_ms: i64,
    quote_age_ms: i64,
    on_binance: bool,
) -> (result: Option<Option<SameMarketCalculation>>)
    ensures
        match internal(
            ladder_of(up_levels@),
            ladder_of(down_levels@),
            fee_rate@,
            remaining_time_ms as int,
            on_binance,
        ) {
            None => result is None,
            Some(None) => result matches Some(None),
            Some(Some(figures)) => result matches Some(Some(calculation)) && {
                &&& shows_internal(
                    calculation.view,
                    figures,
                    internal_rejections(
                        ladder_of(up_levels@),
                        ladder_of(down_levels@),
                        figures.net_edge,
                        quote_skew_ms,
                        quote_age_ms,
                        remaining_time_ms,
                        on_binance,
                    ),
                )
                &&& calculation.view.quote_skew_ms == quote_skew_ms
                &&& calculation.view.quote_age_ms == quote_age_ms
                &&& plans(calculation.plan, figures)
            },
        },
{
    if fee_rate.is_negative() {
        return Some(None);
    }
    let size = size_of_purchase(up_levels, down_levels)?;
    if !size.is_positive() {
        return Some(None);
    }
    let (up_cost, up_limit) = match fok_cost_for_quantity(up_levels, size)? {
        Some(found) => found,
        None => return Some(None),
    };
    let (down_cost, down_limit) = match fok_cost_for_quantity(down_levels, size)? {
        Some(found) => found,
        None => return Some(None),
    };
    let cost = up_cost.checked_add(down_cost)?;
    let fees = if on_binance {
        cost.checked_mul(fee_rate)?
    } else {
        let up_fee = match checked_polymarket_fee_for_quantity(up_levels, size, fee_rate)? {
            Some(fee) => fee,
            None => return Some(None),
        };
        let down_fee = match checked_polymarket_fee_for_quantity(down_levels, size, fee_rate)? {
            Some(fee) => fee,
            None => return Some(None),
        };
        up_fee.checked_add(down_fee)?
    };
    let slippage = basis_points(cost, PAPER_SECOND_LEG_SLIPPAGE_BPS)?;
    let risk_buffers = slippage.checked_add(cost_of_capital(cost, remaining_time_ms)?)?;
    let shares = calculation_per_share(size, cost, fees, risk_buffers, up_limit, down_limit)?;
    let mut rejections = no_notes();
    push_note(&mut rejections, !shares.net_edge.is_positive(), "扣费及缓冲后无正净空间");
    push_note(
        &mut rejections,
        quote_skew_ms > PAPER_MAX_QUOTE_SKEW_MS,
        if on_binance {
            "Binance 两盘口时间差超过 1 秒"
        } else {
            "Polymarket 两盘口时间差超过 1 秒"
        },
    );
    push_note(
        &mut rejections,
        quote_age_ms > PAPER_MAX_QUOTE_AGE_MS,
        if on_binance {
            "Binance 盘口年龄超过 5 秒"
        } else {
            "Polymarket 盘口年龄超过 5 秒"
        },
    );
    push_note(
        &mut rejections,
        remaining_time_ms < PAPER_MIN_REMAINING_MS,
        "距结算不足 60 秒",
    );
    push_note(
        &mut rejections,
        !first_tradable(up_levels) || !first_tradable(down_levels),
        "单腿价格超出 0.05 至 0.95",
    );
    proof {
        assert(texts_of(rejections@) =~= internal_rejections(
            ladder_of(up_levels@),
            ladder_of(down_levels@),
            shares.net_edge@,
            quote_skew_ms,
            quote_age_ms,
            remaining_time_ms,
            on_binance,
        ));
    }
    Some(
        Some(
            SameMarketCalculation {
                view: BinanceInternalView {
                    cost: shares.cost.text(),
                    fees: shares.fees.text(),
                    risk_buffers: shares.risk_buffers.text(),
                    net_edge: shares.net_edge.text(),
                    size: size.text(),
                    quote_skew_ms,
                    quote_age_ms,
                    rejections,
                },
                plan: shares.plan,
            },
        ),
    )
}

/// Buying both outcomes on Polymarket; the outer `None` is an overflow.
pub fn checked_calculate_polymarket_internal(
    up_levels: &[(Decimal, Decimal)],
    down_levels: &[(Decimal, Decimal)],
    fee_rate: Decimal,
    remaining_time_ms: i64,
    quote_skew_ms: i64,
    quote_age_ms: i64,
) -> (result: Option<Option<SameMarketCalculation>>)
    ensures
        match internal(
            ladder_of(up_levels@),
            ladder_of(down_levels@),
            fee_rate@,
            remaining_time_ms as int,
            false,
        ) {
            None => result is None,
            Some(None) => result matches Some(None),
            Some(Some(figures)) => result matches Some(Some(calculation)) && {
                &&& shows_internal(
                    calculation.view,
                    figures,
                    internal_rejections(
                        ladder_of(up_levels@),
                        ladder_of(down_levels@),
                        figures.net_edge,
                        quote_skew_ms,
                        quote_age_ms,
                        remaining_time_ms,
                        false,
                    ),
                )
                &&& calculation.view.quote_skew_ms == quote_skew_ms
                &&& calculation.view.quote_age_ms == quote_age_ms
                &&& plans(calculation.plan, figures)
            },
        },
{
    calculate_internal(
        up_levels,
        down_levels,
        fee_rate,
        remaining_time_ms,
        quote_skew_ms,
        quote_age_ms,
        false,
    )
}

/// Buying both outcomes on Polymarket.
pub fn calculate_polymarket_internal(
    up_levels: &[(Decimal, Decimal)],
    down_levels: &[(Decimal, Decimal)],
    fee_rate: Decimal,
    remaining_time_ms: i64,
    quote_skew_ms: i64,
    quote_age_ms: i64,
) -> (result: Option<SameMarketCalculation>)
    requires
        internal(
            ladder_of(up_levels@),
            ladder_of(down_levels@),
            fee_rate@,
            remaining_time_ms as int,
            false,
        ) is Some,
    ensures
        match internal(
            ladder_of(up_levels@),
            ladder_of(down_levels@),
            fee_rate@,
            remaining_time_ms as int,
            false,
        )->0 {
            None => result is None,
            Some(figures) => result matches Some(calculation) && {
                &&& shows_internal(
                    calculation.view,
                    figures,
                    internal_rejections(
                        ladder_of(up_levels@),
                        ladder_of(down_levels@),
                        figures.net_edge,
                        quote_skew_ms,
                        quote_age_ms,
                        remaining_time_ms,
                        false,
                    ),
                )
                &&& calculation.view.quote_skew_ms == quote_skew_ms
                &&& calculation.view.quote_age_ms == quote_age_ms
                &&& plans(calculation.plan, figures)
            },
        },
{
    checked_calculate_polymarket_internal(
        up_levels,
        down_levels,
        fee_rate,
        remaining_time_ms,
        quote_skew_ms,
        quote_age_ms,
    ).unwrap()
}

/// Buying both outcomes on Binance; the outer `None` is an overflow.
pub fn checked_calculate_binance_internal(
    up_levels: &[(Decimal, Decimal)],
    down_levels: &[(Decimal, Decimal)],
    fee_rate: Decimal,
    remaining_time_ms: i64,
    quote_skew_ms: i64,
    quote_age_ms: i64,
) -> (result: Option<Option<BinanceInternalView>>)
    ensures
        match internal(
            ladder_of(up_levels@),
            ladder_of(down_levels@),
            fee_rate@,
            remaining_time_ms as int,
            true,
        ) {
            None => result is None,
            Some(None) => result matches Some(None),
            Some(Some(figures)) => result matches Some(Some(view)) && {
                &&& shows_internal(
                    view,
                    figures,
                    internal_rejections(
                        ladder_of(up_levels@),
                        ladder_of(down_levels@),
                        figures.net_edge,
                        quote_skew_ms,
                        quote_age_ms,
                        remaining_time_ms,
                        true,
                    ),
                )
                &&& view.quote_skew_ms == quote_skew_ms
                &&& view.quote_age_ms == quote_age_ms
            },
        },
{
    match calculate_internal(
        up_levels,
        down_levels,
        fee_rate,
        remaining_time_ms,
        quote_skew_ms,
        quote_age_ms,
        true,
    )? {
        Some(calculation) => Some(Some(calculation.view)),
        None => Some(None),
    }
}

/// Buying both outcomes on Binance.
pub fn calculate_binance_internal(
    up_levels: &[(Decimal, Decimal)],
    down_levels: &[(Decimal, Decimal)],
    fee_rate: Decimal,
    remaining_time_ms: i64,
    quote_skew_ms: i64,
    quote_age_ms: i64,
) -> (result: Option<BinanceInternalView>)
    requires
        internal(
            ladder_of(up_levels@),
            ladder_of(down_levels@),
            fee_rate@,
            remaining_time_ms as int,
            true,
        ) is Some,
    ensures
        match internal(
            ladder_of(up_levels@),
            ladder_of(down_levels@),
            fee_rate@,
            remaining_time_ms as int,
            true,
        )->0 {
            None => result is None,
            Some(figures) => result matches Some(view) && {
                &&& shows_internal(
                    view,
                    figures,
                    internal_rejections(
                        ladder_of(up_levels@),
                        ladder_of(down_levels@),
                        figures.net_edge,
                        quote_skew_ms,
                        quote_age_ms,
                        remaining_time_ms,
                        true,
                    ),
                )
                &&& view.quote_skew_ms == quote_skew_ms
                &&& view.quote_age_ms == quote_age_ms
            },
        },
{
    checked_calculate_binance_internal(
        up_levels,
        down_levels,
        fee_rate,
        remaining_time_ms,
        quote_skew_ms,
        quote_age_ms,
    ).unwrap()
}

/// Nothing is rounded in taking cost, fees and buffers off the size of a purchase.
pub open spec fn unrounded_net(figures: PurchaseFigures) -> bool {
    &&& exact_sum(figures.size, figures.total_cost.negated()) matches Some(gross)
    &&& exact_sum(gross, figures.total_fees.negated()) matches Some(rest)
    &&& exact_sum(rest, figures.total_buffers.negated()) is Some
}

/// The totals of a purchase are representable.
pub open spec fn has_valid_totals(figures: PurchaseFigures) -> bool {
    &&& figures.size.valid()
    &&& figures.total_cost.valid()
    &&& figures.total_fees.valid()
    &&& figures.total_buffers.valid()
}

/// Cost, fees, buffers and profit of a purchase add up to what its shares pay.
pub open spec fn adds_up(figures: PurchaseFigures) -> bool {
    figures.total_cost.units() + figures.total_fees.units() + figures.total_buffers.units()
        + figures.net.units() == figures.size.units()
}

proof fn lemma_adds_up(figures: PurchaseFigures)
    requires
        minus(
            minus(
                difference(figures.size, figures.total_cost),
                Some(figures.total_fees),
            ),
            Some(figures.total_buffers),
        ) == Some(figures.net),
        has_valid_totals(figures),
        unrounded_net(figures),
    ensures
        adds_up(figures),
{
    let gross = exact_sum(figures.size, figures.total_cost.negated())->0;
    let rest = exact_sum(gross, figures.total_fees.negated())->0;
    exact_sums_add_up(figures.size, figures.total_cost.negated(), gross);
    exact_sums_add_up(gross, figures.total_fees.negated(), rest);
    exact_sums_add_up(rest, figures.total_buffers.negated(), figures.net);
    negated_units(figures.total_cost);
    negated_units(figures.total_fees);
    negated_units(figures.total_buffers);
}

/// Where nothing is rounded, the shares of a purchase across venues pay exactly its cost, fees,
/// buffers and profit.
pub proof fn cross_purchase_adds_up(
    binance: Seq<LevelView>,
    polymarket: Seq<LevelView>,
    binance_rate: DecimalView,
    polymarket_rate: DecimalView,
    remaining_ms: int,
    figures: PurchaseFigures,
)
    requires
        cross(binance, polymarket, binance_rate, polymarket_rate, remaining_ms) == Some(
            Some(figures),
        ),
        has_valid_totals(figures),
        unrounded_net(figures),
    ensures
        adds_up(figures),
{
    lemma_adds_up(figures);
}

/// Where nothing is rounded, the shares of a purchase on one venue pay exactly its cost, fees,
/// buffers and profit.
pub proof fn internal_purchase_adds_up(
    up: Seq<LevelView>,
    down: Seq<LevelView>,
    rate: DecimalView,
    remaining_ms: int,
    on_binance: bool,
    figures: PurchaseFigures,
)
    requires
        internal(up, down, rate, remaining_ms, on_binance) == Some(Some(figures)),
        has_valid_totals(figures),
        unrounded_net(figures),
    ensures
        adds_up(figures),
{
    lemma_adds_up(figures);
}

/// A quantity that was costed can be bought at the limit it was costed with, on the same book
/// and for the same cost.
pub proof fn costed_quantity_fills(
    levels: Seq<LevelView>,
    quantity: DecimalView,
    cost: DecimalView,
    limit: DecimalView,
)
    requires
        quantity.is_positive(),
        fok_cost(levels, quantity) == Some(Some((cost, limit))),
    ensures
        fok(RequestView { quantity, limit_price: limit }, levels) matches Some(fill) && {
            &&& fill.status == OrderStatus::FullyFilled
            &&& fill.total_cost == cost
        },
{
    let request = RequestView { quantity, limit_price: limit };
    let fill = fok(request, levels)->0;
    fok_fills_all_or_nothing(request, levels, fill);
    crate::decimal::positive_units(quantity);
    crate::decimal::zero_units();
}

/// The orders of a purchase across venues pass the preflight on the books they were made from.
pub proof fn cross_plan_passes_preflight(
    binance: Seq<LevelView>,
    polymarket: Seq<LevelView>,
    binance_rate: DecimalView,
    polymarket_rate: DecimalView,
    remaining_ms: int,
    figures: PurchaseFigures,
)
    requires
        cross(binance, polymarket, binance_rate, polymarket_rate, remaining_ms) == Some(
            Some(figures),
        ),
    ensures
        figures.size.is_positive(),
        pair_reasons(
            RequestView { quantity: figures.size, limit_price: figures.first_limit },
            binance,
            RequestView { quantity: figures.size, limit_price: figures.second_limit },
            polymarket,
        ) matches Some(reasons) && reasons.len() == 0,
{
    let size = figures.size;
    let (binance_cost, binance_limit) = fok_cost(binance, size)->0->0;
    let (polymarket_cost, polymarket_limit) = fok_cost(polymarket, size)->0->0;
    costed_quantity_fills(binance, size, binance_cost, binance_limit);
    costed_quantity_fills(polymarket, size, polymarket_cost, polymarket_limit);
}

/// The orders of a purchase on one venue pass the preflight on the books they were made from.
pub proof fn internal_plan_passes_preflight(
    up: Seq<LevelView>,
    down: Seq<LevelView>,
    rate: DecimalView,
    remaining_ms: int,
    on_binance: bool,
    figures: PurchaseFigures,
)
    requires
        internal(up, down, rate, remaining_ms, on_binance) == Some(Some(figures)),
    ensures
        figures.size.is_positive(),
        pair_reasons(
            RequestView { quantity: figures.size, limit_price: figures.first_limit },
            up,
            RequestView { quantity: figures.size, limit_price: figures.second_limit },
            down,
        ) matches Some(reasons) && reasons.len() == 0,
{
    let size = figures.size;
    let (up_cost, up_limit) = fok_cost(up, size)->0->0;
    let (down_cost, down_limit) = fok_cost(down, size)->0->0;
    costed_quantity_fills(up, size, up_cost, up_limit);
    costed_quantity_fills(down, size, down_cost, down_limit);
}

/// No purchase is larger than the largest quantity, nor larger than either book is deep.
pub proof fn purchase_size_is_bounded(
    first: Seq<LevelView>,
    second: Seq<LevelView>,
    size: DecimalView,
)
    requires
        purchase_size(first, second) == Some(size),
    ensures
        size.le(whole(PAPER_MAX_QUANTITY as int)),
        depth(first) matches Some(first_depth) && size.le(first_depth),
        depth(second) matches Some(second_depth) && size.le(second_depth),
{
}

/// Nothing is rounded in dividing the totals of a purchase by its size.
pub open spec fn unrounded_shares(figures: PurchaseFigures) -> bool {
    &&& has_quotient(figures.total_cost, figures.size)
    &&& has_quotient(figures.total_fees, figures.size)
    &&& has_quotient(figures.total_buffers, figures.size)
    &&& has_quotient(figures.net, figures.size)
}

/// How much is lost in rounding the totals of a purchase to one share, in units of units.
pub open spec fn share_miss(figures: PurchaseFigures) -> int {
    miss(figures.total_cost, figures.size, figures.cost) + miss(
        figures.total_fees,
        figures.size,
        figures.fees,
    ) + miss(figures.total_buffers, figures.size, figures.risk_buffers) + miss(
        figures.net,
        figures.size,
        figures.net_edge,
    )
}

/// What cost, fees, buffers and edge of one share add up to, in units.
pub open spec fn share_sum(figures: PurchaseFigures) -> int {
    figures.cost.units() + figures.fees.units() + figures.risk_buffers.units()
        + figures.net_edge.units()
}

/// Cost, fees, buffers and edge of one share are the shares of their totals and add up to the
/// one that it pays, up to rounding; and exactly where nothing is rounded.
pub open spec fn shares_add_up(figures: PurchaseFigures) -> bool {
    let one = whole(1).units();
    &&& fits_quotient(figures.total_cost, figures.size, figures.cost)
    &&& fits_quotient(figures.total_fees, figures.size, figures.fees)
    &&& fits_quotient(figures.total_buffers, figures.size, figures.risk_buffers)
    &&& fits_quotient(figures.net, figures.size, figures.net_edge)
    &&& size_of_number((share_sum(figures) - one) * figures.size.units()) <= share_miss(figures)
    &&& unrounded_shares(figures) ==> share_sum(figures) == one
}

proof fn lemma_shares_add_up(figures: PurchaseFigures)
    requires
        figures.size.is_positive(),
        adds_up(figures),
        quotient(figures.total_cost, figures.size) == Some(figures.cost),
        quotient(figures.total_fees, figures.size) == Some(figures.fees),
        quotient(figures.total_buffers, figures.size) == Some(figures.risk_buffers),
        quotient(figures.net, figures.size) == Some(figures.net_edge),
    ensures
        shares_add_up(figures),
{
    quotients_are_close(figures.total_cost, figures.size, figures.cost);
    quotients_are_close(figures.total_fees, figures.size, figures.fees);
    quotients_are_close(figures.total_buffers, figures.size, figures.risk_buffers);
    quotients_are_close(figures.net, figures.size, figures.net_edge);
    positive_units(figures.size);
    let (c, f, b, e) = (
        figures.cost.units(),
        figures.fees.units(),
        figures.risk_buffers.units(),
        figures.net_edge.units(),
    );
    let (tc, tf, tb, tn) = (
        figures.total_cost.units(),
        figures.total_fees.units(),
        figures.total_buffers.units(),
        figures.net.units(),
    );
    let (s, one) = (figures.size.units(), whole(1).units());
    assert((c + f + b + e - one) * s == (c * s - tc * one) + (f * s - tf * one) + (b * s - tb
        * one) + (e * s - tn * one)) by (nonlinear_arith)
        requires
            tc + tf + tb + tn == s,
    ;
    if unrounded_shares(figures) {
        assert(c + f + b + e == one) by (nonlinear_arith)
            requires
                (c + f + b + e - one) * s == 0,
                s > 0,
        ;
    }
}

/// Cost, fees, buffers and edge of one share of a purchase across venues add up to one, up to
/// the rounding of the shares.
pub proof fn cross_shares_add_up_to_one(
    binance: Seq<LevelView>,
    polymarket: Seq<LevelView>,
    binance_rate: DecimalView,
    polymarket_rate: DecimalView,
    remaining_ms: int,
    figures: PurchaseFigures,
)
    requires
        cross(binance, polymarket, binance_rate, polymarket_rate, remaining_ms) == Some(
            Some(figures),
        ),
        has_valid_totals(figures),
        unrounded_net(figures),
    ensures
        shares_add_up(figures),
{
    lemma_adds_up(figures);
    lemma_shares_add_up(figures);
}

/// Cost, fees, buffers and edge of one share of a purchase on one venue add up to one, up to
/// the rounding of the shares.
pub proof fn internal_shares_add_up_to_one(
    up: Seq<LevelView>,
    down: Seq<LevelView>,
    rate: DecimalView,
    remaining_ms: int,
    on_binance: bool,
    figures: PurchaseFigures,
)
    requires
        internal(up, down, rate, remaining_ms, on_binance) == Some(Some(figures)),
        has_valid_totals(figures),
        unrounded_net(figures),
    ensures
        shares_add_up(figures),
{
    lemma_adds_up(figures);
    lemma_shares_add_up(figures);
}

/// A purchase across venues is as large as both books and the largest quantity allow, and costs
/// what its two orders cost.
pub proof fn cross_purchase_is_that_of_its_orders(
    binance: Seq<LevelView>,
    polymarket: Seq<LevelView>,
    binance_rate: DecimalView,
    polymarket_rate: DecimalView,
    remaining_ms: int,
    figures: PurchaseFigures,
)
    requires
        cross(binance, polymarket, binance_rate, polymarket_rate, remaining_ms) == Some(
            Some(figures),
        ),
    ensures
        purchase_size(binance, polymarket) == Some(figures.size),
        figures.size.is_positive(),
        fok(
            RequestView { quantity: figures.size, limit_price: figures.first_limit },
            binance,
        ) matches Some(first) && fok(
            RequestView { quantity: figures.size, limit_price: figures.second_limit },
            polymarket,
        ) matches Some(second) && first.status == OrderStatus::FullyFilled && second.status
            == OrderStatus::FullyFilled && sum(first.total_cost, second.total_cost) == Some(
            figures.total_cost,
        ),
{
    let size = figures.size;
    let (binance_cost, binance_limit) = fok_cost(binance, size)->0->0;
    let (polymarket_cost, polymarket_limit) = fok_cost(polymarket, size)->0->0;
    costed_quantity_fills(binance, size, binance_cost, binance_limit);
    costed_quantity_fills(polymarket, size, polymarket_cost, polymarket_limit);
}

/// Capital costs nothing once the settlement is reached: a purchase then comes to the same
/// however long ago that was.
pub proof fn past_settlements_cost_no_capital(
    binance: Seq<LevelView>,
    polymarket: Seq<LevelView>,
    binance_rate: DecimalView,
    polymarket_rate: DecimalView,
    remaining_ms: int,
)
    requires
        remaining_ms <= 0,
    ensures
        cross(binance, polymarket, binance_rate, polymarket_rate, remaining_ms) == cross(
            binance,
            polymarket,
            binance_rate,
            polymarket_rate,
            0,
        ),
{
    assert forall|cost: DecimalView| #[trigger]
        capital_cost(cost, remaining_ms) == capital_cost(cost, 0) by {}
}

/// Nothing is rounded in taking `remaining` from the levels from `start` on.
pub open spec fn unrounded_taking(
    levels: Seq<LevelView>,
    start: int,
    remaining: DecimalView,
) -> bool
    decreases levels.len() - start,
{
    if start < 0 || start >= levels.len() {
        true
    } else {
        match exact_sum(remaining, remaining.smaller(levels[start].quantity).negated()) {
            Some(rest) => !rest.is_positive() || unrounded_taking(levels, start + 1, rest),
            None => false,
        }
    }
}

proof fn lemma_taken(
    levels: Seq<LevelView>,
    start: int,
    remaining: DecimalView,
    limit: Option<DecimalView>,
    rest: DecimalView,
    last: Option<DecimalView>,
)
    requires
        0 <= start,
        sorted(levels, false),
        all_usable(levels),
        valid_levels(levels),
        remaining.is_positive(),
        remaining.scale <= MAX_SCALE,
        unrounded_taking(levels, start, remaining),
        taken_from(levels, start, remaining, limit) == Some((rest, last)),
        !rest.is_positive(),
    ensures
        last matches Some(price) && is_marginal(
            levels,
            start,
            remaining.units(),
            price.units(),
        ) && exists|place: int|
            start <= place < levels.len() && (#[trigger] levels[place]).price == price,
    decreases levels.len() - start,
{
    if start < levels.len() {
        let level = levels[start];
        let filled = remaining.smaller(level.quantity);
        let left = exact_sum(remaining, filled.negated())->0;
        assert(is_usable(level));
        positive_units(remaining);
        positive_units(level.quantity);
        positive_units(filled);
        positive_units(left);
        exact_sums_add_up(remaining, filled.negated(), left);
        negated_units(filled);
        assert forall|i: int| 0 <= i < levels.len() implies (#[trigger] levels[i]).quantity.units()
            >= 0 by {
            assert(is_usable(levels[i]));
            positive_units(levels[i].quantity);
        }
        offers_grow(levels, start + 1, level.price.units(), level.price.units() + 1);
        if !left.is_positive() {
            nothing_cheaper_follows(levels, start, start);
            assert(levels[start].price == level.price);
        } else {
            lemma_taken(levels, start + 1, left, Some(level.price), rest, last);
            let price = last->0;
            let place = choose|place: int|
                start + 1 <= place < levels.len() && (#[trigger] levels[place]).price == price;
            assert(in_order(levels[start], levels[place], false));
        }
    }
}

/// The limit that a quantity is costed with is the lowest that fills it.
pub proof fn costed_limits_are_the_lowest(
    levels: Seq<LevelView>,
    quantity: DecimalView,
    cost: DecimalView,
    limit: DecimalView,
    lower: DecimalView,
    fill: FillView,
)
    requires
        sorted(levels, false),
        valid_levels(levels),
        quantity.valid(),
        quantity.is_positive(),
        fok_cost(levels, quantity) == Some(Some((cost, limit))),
        unrounded_taking(levels, 0, quantity),
        lower.lt(limit),
        fok(RequestView { quantity, limit_price: lower }, levels) == Some(fill),
        unrounded_offer(by_price(levels, false), 0, lower, zero()),
    ensures
        fill.status != OrderStatus::FullyFilled,
{
    costed_quantity_fills(levels, quantity, cost, limit);
    assert(all_usable(levels));
    let (rest, last) = taken_from(levels, 0, quantity, None)->0;
    lemma_taken(levels, 0, quantity, None, rest, last);
    lower_limits_do_not_fill(quantity, limit, lower, levels, fill);
}

} // verus!
