//! Simulated fill-or-kill execution of order pairs.
use vstd::prelude::*;

use crate::decimal::{
    difference, difference_miss, exact_product, exact_products_multiply, exact_sum,
    exact_sums_add_up, floors_lie_below, has_quotient, miss, negated_units, plus, positive_units,
    product, quotient, quotients_are_close, same_numbers_cancel, sum, view_of, whole, within_rounding, zero, Decimal,
    DecimalView,
};
use crate::domain::{is_usable, ladder_view, nested_view, OrderStatus, PriceLevel};
use crate::figures::close;
use crate::ladder::{by_price, ladder_of, level_of, sort_levels, LevelView};
use crate::text::{copy_option, text_of, texts_of};

verus! {

#[derive(Clone, Debug)]
pub struct SimulatedOrder {
    pub id: u128,
    pub quantity: Decimal,
    pub filled: Decimal,
    pub limit_price: Option<Decimal>,
    pub total_cost: Decimal,
    pub status: OrderStatus,
    pub reason: Option<String>,
}

#[derive(Clone, Copy, Debug)]
pub struct FokOrderRequest {
    pub quantity: Decimal,
    pub limit_price: Decimal,
}

#[derive(Clone, Debug)]
pub struct FokFill {
    pub requested_quantity: Decimal,
    pub filled_quantity: Decimal,
    pub limit_price: Decimal,
    pub average_price: Option<Decimal>,
    pub worst_price: Option<Decimal>,
    pub total_cost: Decimal,
    pub status: OrderStatus,
    pub reason: Option<String>,
}

#[derive(Clone, Debug)]
pub struct UnhedgedPosition {
    pub first_leg: Decimal,
    pub second_leg: Decimal,
    pub exposure: Decimal,
}

#[derive(Clone, Debug)]
pub struct PairFokReport {
    pub first: FokFill,
    pub second: FokFill,
    pub hedge: UnhedgedPosition,
    pub status: OrderStatus,
}

/// What a fill-or-kill order asks for.
pub struct RequestView {
    pub quantity: DecimalView,
    pub limit_price: DecimalView,
}

/// What became of a fill-or-kill order.
#[verifier::ext_equal]
pub struct FillView {
    pub requested_quantity: DecimalView,
    pub filled_quantity: DecimalView,
    pub limit_price: DecimalView,
    pub average_price: Option<DecimalView>,
    pub worst_price: Option<DecimalView>,
    pub total_cost: DecimalView,
    pub status: OrderStatus,
    pub reason: Option<Seq<char>>,
}

impl View for FokOrderRequest {
    type V = RequestView;

    open spec fn view(&self) -> RequestView {
        RequestView { quantity: self.quantity@, limit_price: self.limit_price@ }
    }
}

impl View for FokFill {
    type V = FillView;

    open spec fn view(&self) -> FillView {
        FillView {
            requested_quantity: self.requested_quantity@,
            filled_quantity: self.filled_quantity@,
            limit_price: self.limit_price@,
            average_price: view_of(self.average_price),
            worst_price: view_of(self.worst_price),
            total_cost: self.total_cost@,
            status: self.status,
            reason: text_of(self.reason),
        }
    }
}

/// A price of a binary outcome is positive and at most one.
pub open spec fn request_valid(request: RequestView) -> bool {
    &&& request.quantity.is_positive()
    &&& request.limit_price.is_positive()
    &&& request.limit_price.le(whole(1))
}

pub open spec fn all_usable(levels: Seq<LevelView>) -> bool {
    forall|i: int| 0 <= i < levels.len() ==> is_usable(#[trigger] levels[i])
}

/// The quantity offered from `start` on at a price of at most `limit`, added to `total`.
pub open spec fn offered_from(
    levels: Seq<LevelView>,
    start: int,
    limit: DecimalView,
    total: DecimalView,
) -> Option<DecimalView>
    decreases levels.len() - start,
{
    if start < 0 || start >= levels.len() {
        Some(total)
    } else if levels[start].price.le(limit) {
        match sum(total, levels[start].quantity) {
            Some(next) => offered_from(levels, start + 1, limit, next),
            None => None,
        }
    } else {
        offered_from(levels, start + 1, limit, total)
    }
}

/// Buys `remaining` level by level from `start` on at prices of at most `limit`: the total
/// cost and the last price that was paid. `None` on overflow.
pub open spec fn bought_from(
    levels: Seq<LevelView>,
    start: int,
    limit: DecimalView,
    remaining: DecimalView,
    cost: DecimalView,
    worst: Option<DecimalView>,
) -> Option<(DecimalView, Option<DecimalView>)>
    decreases levels.len() - start,
{
    if start < 0 || start >= levels.len() {
        Some((cost, worst))
    } else if !levels[start].price.le(limit) {
        bought_from(levels, start + 1, limit, remaining, cost, worst)
    } else {
        let filled = remaining.smaller(levels[start].quantity);
        let next_worst = if filled.is_positive() {
            Some(levels[start].price)
        } else {
            worst
        };
        match (plus(Some(cost), product(filled, levels[start].price)), difference(
            remaining,
            filled,
        )) {
            (Some(next_cost), Some(rest)) => if !rest.is_positive() {
                Some((next_cost, next_worst))
            } else {
                bought_from(levels, start + 1, limit, rest, next_cost, next_worst)
            },
            _ => None,
        }
    }
}

/// An order that bought nothing.
pub open spec fn unfilled(request: RequestView, status: OrderStatus, reason: Seq<char>) -> FillView {
    FillView {
        requested_quantity: request.quantity,
        filled_quantity: zero(),
        limit_price: request.limit_price,
        average_price: None,
        worst_price: None,
        total_cost: zero(),
        status,
        reason: Some(reason),
    }
}

/// What a fill-or-kill purchase from `asks` comes to; `None` on overflow.
///
/// An invalid request or a book with an unusable level is rejected, and an order that the
/// depth within its limit cannot fill is cancelled as a whole. Otherwise the cheapest levels
/// are bought first.
pub open spec fn fok(request: RequestView, asks: Seq<LevelView>) -> Option<FillView> {
    let levels = by_price(asks, false);
    if !request_valid(request) {
        Some(unfilled(request, OrderStatus::Rejected, "数量或限价无效"@))
    } else if !all_usable(asks) {
        Some(unfilled(request, OrderStatus::Rejected, "订单簿包含无效档位"@))
    } else {
        match offered_from(levels, 0, request.limit_price, zero()) {
            None => None,
            Some(offered) => if offered.lt(request.quantity) {
                Some(
                    unfilled(
                        request,
                        OrderStatus::Cancelled,
                        "FOK：指定限价内深度不足，整单取消"@,
                    ),
                )
            } else {
                match bought_from(levels, 0, request.limit_price, request.quantity, zero(), None) {
                    None => None,
                    Some((cost, worst)) => match quotient(cost, request.quantity) {
                        None => None,
                        Some(average) => Some(
                            FillView {
                                requested_quantity: request.quantity,
                                filled_quantity: request.quantity,
                                limit_price: request.limit_price,
                                average_price: Some(average),
                                worst_price: worst,
                                total_cost: cost,
                                status: OrderStatus::FullyFilled,
                                reason: None,
                            },
                        ),
                    },
                }
            },
        }
    }
}

/// The view of an optional fill.
pub open spec fn fill_view(value: Option<FokFill>) -> Option<FillView> {
    match value {
        Some(fill) => Some(fill@),
        None => None,
    }
}

/// The price levels as pairs of price and quantity.
fn pairs_of(levels: &[PriceLevel]) -> (result: Vec<(Decimal, Decimal)>)
    ensures
        ladder_of(result@) == ladder_view(levels@),
{
    let mut result: Vec<(Decimal, Decimal)> = Vec::new();
    let mut i: usize = 0;
    while i < levels.len()
        invariant
            i <= levels@.len(),
            ladder_of(result@) == ladder_view(levels@).take(i as int),
        decreases levels@.len() - i,
    {
        let ghost before = result@;
        result.push((levels[i].price, levels[i].quantity));
        proof {
            assert(ladder_of(result@) =~= ladder_of(before).push(ladder_view(levels@)[i as int]));
            assert(ladder_view(levels@).take(i + 1) =~= ladder_view(levels@).take(i as int).push(
                ladder_view(levels@)[i as int],
            ));
        }
        i = i + 1;
    }
    proof {
        assert(ladder_view(levels@).take(i as int) =~= ladder_view(levels@));
    }
    result
}

/// Whether every level is usable.
pub fn levels_usable(levels: &[PriceLevel]) -> (result: bool)
    ensures
        result == all_usable(ladder_view(levels@)),
{
    let mut i: usize = 0;
    let ghost ladder = ladder_view(levels@);
    while i < levels.len()
        invariant
            ladder == ladder_view(levels@),
            i <= levels@.len(),
            forall|k: int| 0 <= k < i ==> is_usable(#[trigger] ladder[k]),
        decreases levels@.len() - i,
    {
        proof {
            assert(ladder[i as int] == (LevelView {
                price: levels@[i as int].price@,
                quantity: levels@[i as int].quantity@,
            }));
        }
        if !levels[i].usable() {
            return false;
        }
        i = i + 1;
    }
    true
}

fn empty_fill(request: FokOrderRequest, status: OrderStatus, reason: &str) -> (result: FokFill)
    ensures
        result@ == unfilled(request@, status, reason@),
{
    FokFill {
        requested_quantity: request.quantity,
        filled_quantity: Decimal::zero(),
        limit_price: request.limit_price,
        average_price: None,
        worst_price: None,
        total_cost: Decimal::zero(),
        status,
        reason: Some(reason.to_owned()),
    }
}

/// The quantity of a ladder offered at a price of at most `limit`; `None` on overflow.
fn offered_within(levels: &Vec<(Decimal, Decimal)>, limit: Decimal) -> (result: Option<Decimal>)
    ensures
        view_of(result) == offered_from(ladder_of(levels@), 0, limit@, zero()),
{
    let mut total = Decimal::zero();
    let mut i: usize = 0;
    let ghost ladder = ladder_of(levels@);
    while i < levels.len()
        invariant
            ladder == ladder_of(levels@),
            i <= levels@.len(),
            offered_from(ladder, 0, limit@, zero()) == offered_from(
                ladder,
                i as int,
                limit@,
                total@,
            ),
        decreases levels@.len() - i,
    {
        proof {
            assert(ladder[i as int] == level_of(levels@[i as int]));
        }
        if levels[i].0.at_most(&limit) {
            total = total.checked_add(levels[i].1)?;
        }
        i = i + 1;
    }
    Some(total)
}

/// Simulates a fill-or-kill purchase; `None` on overflow.
pub fn checked_simulate_fok(request: FokOrderRequest, asks: &[PriceLevel]) -> (result: Option<
    FokFill,
>)
    ensures
        fill_view(result) == fok(request@, ladder_view(asks@)),
{
    if !request.quantity.is_positive() || !request.limit_price.is_positive()
        || !request.limit_price.at_most(&Decimal::one()) {
        return Some(empty_fill(request, OrderStatus::Rejected, "数量或限价无效"));
    }
    if !levels_usable(asks) {
        return Some(empty_fill(request, OrderStatus::Rejected, "订单簿包含无效档位"));
    }
    let levels = sort_levels(&pairs_of(asks), false);
    let ghost ladder = ladder_of(levels@);
    let available = offered_within(&levels, request.limit_price)?;
    if available.less(&request.quantity) {
        return Some(
            empty_fill(request, OrderStatus::Cancelled, "FOK：指定限价内深度不足，整单取消"),
        );
    }
    let mut remaining = request.quantity;
    let mut total_cost = Decimal::zero();
    let mut worst_price: Option<Decimal> = None;
    let mut i: usize = 0;
    let mut done = false;
    let limit = request.limit_price;
    let ghost goal = bought_from(ladder, 0, limit@, remaining@, zero(), None);
    while i < levels.len() && !done
        invariant
            ladder == ladder_of(levels@),
            i <= levels@.len(),
            !done ==> goal == bought_from(
                ladder,
                i as int,
                limit@,
                remaining@,
                total_cost@,
                view_of(worst_price),
            ),
            done ==> goal == Some((total_cost@, view_of(worst_price))),
            goal is None ==> fok(request@, ladder_view(asks@)) is None,
        decreases levels@.len() - i,
    {
        proof {
            assert(ladder[i as int] == level_of(levels@[i as int]));
        }
        let (price, quantity) = levels[i];
        if price.at_most(&limit) {
            let filled = remaining.min(quantity);
            total_cost = total_cost.checked_add(filled.checked_mul(price)?)?;
            remaining = remaining.checked_sub(filled)?;
            if filled.is_positive() {
                worst_price = Some(price);
            }
            if !remaining.is_positive() {
                done = true;
            }
        }
        i = i + 1;
    }
    let average_price = total_cost.checked_div(request.quantity)?;
    Some(
        FokFill {
            requested_quantity: request.quantity,
            filled_quantity: request.quantity,
            limit_price: request.limit_price,
            average_price: Some(average_price),
            worst_price,
            total_cost,
            status: OrderStatus::FullyFilled,
            reason: None,
        },
    )
}

/// Simulates a fill-or-kill purchase.
pub fn simulate_fok(request: FokOrderRequest, asks: &[PriceLevel]) -> (result: FokFill)
    requires
        fok(request@, ladder_view(asks@)) is Some,
    ensures
        Some(result@) == fok(request@, ladder_view(asks@)),
{
    checked_simulate_fok(request, asks).unwrap()
}

/// The quantity that a budget buys of both legs at their limit prices; the outer `None` is an
/// overflow, the inner one an invalid budget or price.
pub open spec fn budget_quantity(
    budget: DecimalView,
    first_limit: DecimalView,
    second_limit: DecimalView,
) -> Option<Option<DecimalView>> {
    match sum(first_limit, second_limit) {
        None => None,
        Some(combined) => if budget.is_positive() && first_limit.is_positive()
            && second_limit.is_positive() && combined.is_positive() {
            match quotient(budget, combined) {
                Some(quantity) => Some(Some(quantity)),
                None => None,
            }
        } else {
            Some(None)
        },
    }
}

/// The largest whole number of steps within `raw`, in units; `None` on overflow.
pub open spec fn whole_steps(raw: DecimalView, step: DecimalView) -> Option<DecimalView> {
    match quotient(raw, step) {
        Some(count) => product(count.floored(), step),
        None => None,
    }
}

/// [`budget_quantity`] cut down to whole steps; a quantity of zero is none.
pub open spec fn budget_quantity_at_step(
    budget: DecimalView,
    first_limit: DecimalView,
    second_limit: DecimalView,
    step: DecimalView,
) -> Option<Option<DecimalView>> {
    if !step.is_positive() {
        Some(None)
    } else {
        match budget_quantity(budget, first_limit, second_limit) {
            None => None,
            Some(None) => Some(None),
            Some(Some(raw)) => match whole_steps(raw, step) {
                None => None,
                Some(quantity) => Some(
                    if quantity.is_positive() {
                        Some(quantity)
                    } else {
                        None
                    },
                ),
            },
        }
    }
}

/// The quantity that a budget buys of both legs; the outer `None` is an overflow.
pub fn checked_quantity_for_budget(
    budget: Decimal,
    first_limit_price: Decimal,
    second_limit_price: Decimal,
) -> (result: Option<Option<Decimal>>)
    ensures
        nested_view(result) == budget_quantity(
            budget@,
            first_limit_price@,
            second_limit_price@,
        ),
{
    let combined_limit = first_limit_price.checked_add(second_limit_price)?;
    if budget.is_positive() && first_limit_price.is_positive() && second_limit_price.is_positive()
        && combined_limit.is_positive() {
        Some(Some(budget.checked_div(combined_limit)?))
    } else {
        Some(None)
    }
}

/// The quantity that a budget buys of both legs at their limit prices.
pub fn quantity_for_budget(
    budget: Decimal,
    first_limit_price: Decimal,
    second_limit_price: Decimal,
) -> (result: Option<Decimal>)
    requires
        budget_quantity(budget@, first_limit_price@, second_limit_price@) is Some,
    ensures
        Some(view_of(result)) == budget_quantity(
            budget@,
            first_limit_price@,
            second_limit_price@,
        ),
{
    checked_quantity_for_budget(budget, first_limit_price, second_limit_price).unwrap()
}

/// The largest whole number of steps within `raw`, in units; `None` on overflow.
pub fn round_down_to_step(raw: Decimal, step: Decimal) -> (result: Option<Decimal>)
    ensures
        view_of(result) == whole_steps(raw@, step@),
{
    raw.checked_div(step)?.floor().checked_mul(step)
}

/// The quantity in whole steps that a budget buys of both legs; the outer `None` is an overflow.
pub fn checked_quantity_for_budget_at_step(
    budget: Decimal,
    first_limit_price: Decimal,
    second_limit_price: Decimal,
    quantity_step: Decimal,
) -> (result: Option<Option<Decimal>>)
    ensures
        nested_view(result) == budget_quantity_at_step(
            budget@,
            first_limit_price@,
            second_limit_price@,
            quantity_step@,
        ),
{
    if !quantity_step.is_positive() {
        return Some(None);
    }
    match checked_quantity_for_budget(budget, first_limit_price, second_limit_price)? {
        None => Some(None),
        Some(raw) => {
            let quantity = round_down_to_step(raw, quantity_step)?;
            if quantity.is_positive() {
                Some(Some(quantity))
            } else {
                Some(None)
            }
        },
    }
}

/// The quantity in whole steps that a budget buys of both legs at their limit prices.
pub fn quantity_for_budget_at_step(
    budget: Decimal,
    first_limit_price: Decimal,
    second_limit_price: Decimal,
    quantity_step: Decimal,
) -> (result: Option<Decimal>)
    requires
        budget_quantity_at_step(
            budget@,
            first_limit_price@,
            second_limit_price@,
            quantity_step@,
        ) is Some,
    ensures
        Some(view_of(result)) == budget_quantity_at_step(
            budget@,
            first_limit_price@,
            second_limit_price@,
            quantity_step@,
        ),
{
    checked_quantity_for_budget_at_step(
        budget,
        first_limit_price,
        second_limit_price,
        quantity_step,
    ).unwrap()
}

/// A quantity at a step is a whole multiple of the step.
pub proof fn budget_quantity_is_whole_steps(
    budget: DecimalView,
    first_limit: DecimalView,
    second_limit: DecimalView,
    step: DecimalView,
    quantity: DecimalView,
)
    requires
        budget_quantity_at_step(budget, first_limit, second_limit, step) == Some(Some(quantity)),
    ensures
        quantity.is_positive(),
        exists|count: int| #[trigger] product(whole(count), step) == Some(quantity),
{
    let raw = budget_quantity(budget, first_limit, second_limit)->0->0;
    let count = quotient(raw, step)->0.floored();
    assert(count == whole(count.mantissa));
    assert(product(whole(count.mantissa), step) == Some(quantity));
}

/// The whole steps that were counted within a quantity make up a number that is not rounded.
pub open spec fn steps_fit(raw: DecimalView, step: DecimalView) -> bool {
    quotient(raw, step) matches Some(count) && exact_product(count.floored(), step) is Some
}

/// By how much the count of the steps within a quantity is rounded, in units of units.
pub open spec fn step_miss(raw: DecimalView, step: DecimalView) -> int {
    miss(raw, step, quotient(raw, step)->0)
}

/// Whole steps are as many as there are within a quantity: they do not exceed it and one more
/// would, up to the rounding of their count. Without that rounding this is so exactly.
pub proof fn whole_steps_are_the_most(raw: DecimalView, step: DecimalView, quantity: DecimalView)
    requires
        step.valid(),
        step.is_positive(),
        steps_fit(raw, step),
        whole_steps(raw, step) == Some(quantity),
    ensures
        exists|count: int| quantity.units() == #[trigger] (count * step.units()),
        quantity.units() * whole(1).units() <= raw.units() * whole(1).units() + step_miss(
            raw,
            step,
        ),
        (quantity.units() + step.units()) * whole(1).units() > raw.units() * whole(1).units()
            - step_miss(raw, step),
        within_rounding(step_miss(raw, step), step, quotient(raw, step)->0),
        has_quotient(raw, step) ==> step_miss(raw, step) == 0 && forall|count: int| #[trigger]
            (count * step.units()) <= raw.units() <==> count * step.units() <= quantity.units(),
{
    let count = quotient(raw, step)->0;
    let floor = count.floored();
    quotients_are_close(raw, step, count);
    floors_lie_below(count);
    exact_products_multiply(floor, step, quantity);
    positive_units(step);
    positive_units(whole(1));
    let (m, one, s, q, r, off) = (
        floor.mantissa,
        whole(1).units(),
        step.units(),
        quantity.units(),
        raw.units(),
        step_miss(raw, step),
    );
    assert(q == m * s) by (nonlinear_arith)
        requires
            q * one == (m * one) * s,
            one > 0,
    ;
    let c = count.units();
    assert(q * one <= c * s < (q + s) * one) by (nonlinear_arith)
        requires
            q == m * s,
            m * one <= c < m * one + one,
            one > 0,
            s > 0,
    ;
    if has_quotient(raw, step) {
        assert(q <= r < q + s) by (nonlinear_arith)
            requires
                q * one <= r * one < (q + s) * one,
                one > 0,
        ;
        assert forall|n: int| #[trigger] (n * s) <= r <==> n * s <= q by {
            assert(n * s <= r ==> n * s <= m * s) by (nonlinear_arith)
                requires
                    r < m * s + s,
                    s > 0,
            ;
        }
    }
}

/// A budget buys the most whole steps that it pays for: they do not cost more and one more
/// would, up to the rounding of the quantity and of the count of its steps. Without that
/// rounding this is so exactly.
pub proof fn budget_buys_the_most(
    budget: DecimalView,
    first_limit: DecimalView,
    second_limit: DecimalView,
    step: DecimalView,
    quantity: DecimalView,
    combined: DecimalView,
    raw: DecimalView,
    count: int,
)
    requires
        budget_quantity_at_step(budget, first_limit, second_limit, step) == Some(Some(quantity)),
        step.valid(),
        first_limit.valid(),
        second_limit.valid(),
        exact_sum(first_limit, second_limit) == Some(combined),
        quotient(budget, combined) == Some(raw),
        steps_fit(raw, step),
    ensures
        combined.units() == first_limit.units() + second_limit.units(),
        ({
            let one = whole(1).units();
            let spare = miss(budget, combined, raw) * one + step_miss(raw, step)
                * combined.units();
            &&& quantity.units() * combined.units() * one <= budget.units() * one * one + spare
            &&& (quantity.units() + step.units()) * combined.units() * one > budget.units() * one
                * one - spare
        }),
        within_rounding(miss(budget, combined, raw), combined, raw),
        within_rounding(step_miss(raw, step), step, quotient(raw, step)->0),
        has_quotient(budget, combined) && has_quotient(raw, step) ==> ((count * step.units())
            * combined.units() <= budget.units() * whole(1).units() <==> count * step.units()
            <= quantity.units()),
{
    exact_sums_add_up(first_limit, second_limit, combined);
    quotients_are_close(budget, combined, raw);
    positive_units(combined);
    positive_units(whole(1));
    whole_steps_are_the_most(raw, step, quantity);
    let one = whole(1).units();
    let (q, r, l, b, s) = (
        quantity.units(),
        raw.units(),
        combined.units(),
        budget.units() * one,
        step.units(),
    );
    let (first, second) = (miss(budget, combined, raw), step_miss(raw, step));
    assert(q * l * one <= b * one + (first * one + second * l)) by (nonlinear_arith)
        requires
            q * one <= r * one + second,
            r * l <= b + first,
            l > 0,
            one > 0,
    ;
    assert((q + s) * l * one > b * one - (first * one + second * l)) by (nonlinear_arith)
        requires
            (q + s) * one > r * one - second,
            r * l >= b - first,
            l > 0,
            one > 0,
    ;
    if has_quotient(budget, combined) && has_quotient(raw, step) {
        let n = count * s;
        assert(n * l <= b <==> n <= r) by (nonlinear_arith)
            requires
                r * l == b,
                l > 0,
        ;
    }
}

/// Why a leg cannot be submitted, if it cannot.
pub open spec fn leg_reasons(label: Seq<char>, fill: FillView) -> Seq<Seq<char>> {
    if fill.status == OrderStatus::FullyFilled {
        Seq::empty()
    } else {
        seq![
            label + (match fill.reason {
                Some(reason) => reason,
                None => "无法完全成交"@,
            }),
        ]
    }
}

/// The reasons against submitting a pair, none where both legs would fill; `None` on overflow.
pub open spec fn pair_reasons(
    first: RequestView,
    first_asks: Seq<LevelView>,
    second: RequestView,
    second_asks: Seq<LevelView>,
) -> Option<Seq<Seq<char>>> {
    match (fok(first, first_asks), fok(second, second_asks)) {
        (Some(first_fill), Some(second_fill)) => Some(
            leg_reasons("第一腿预检失败："@, first_fill) + leg_reasons(
                "第二腿预检失败："@,
                second_fill,
            ),
        ),
        _ => None,
    }
}

/// Adds the reason why a leg cannot be submitted, if it cannot.
fn push_leg_reason(reasons: &mut Vec<String>, label: &str, fill: &FokFill)
    ensures
        texts_of(final(reasons)@) == texts_of(old(reasons)@) + leg_reasons(label@, fill@),
{
    if fill.status != OrderStatus::FullyFilled {
        let message = match &fill.reason {
            Some(reason) => label.to_owned().concat(reason.as_str()),
            None => label.to_owned().concat("无法完全成交"),
        };
        reasons.push(message);
    }
    proof {
        assert(texts_of(reasons@) =~= texts_of(old(reasons)@) + leg_reasons(label@, fill@));
    }
}

/// Whether both legs of a pair would fill, or why not; the outer `None` is an overflow.
pub fn checked_preflight_pair_fok(
    first_request: FokOrderRequest,
    first_asks: &[PriceLevel],
    second_request: FokOrderRequest,
    second_asks: &[PriceLevel],
) -> (result: Option<Result<(), Vec<String>>>)
    ensures
        result is None <==> pair_reasons(
            first_request@,
            ladder_view(first_asks@),
            second_request@,
            ladder_view(second_asks@),
        ) is None,
        result matches Some(verdict) ==> preflight_says(
            verdict,
            pair_reasons(
                first_request@,
                ladder_view(first_asks@),
                second_request@,
                ladder_view(second_asks@),
            )->0,
        ),
{
    let first = checked_simulate_fok(first_request, first_asks)?;
    let second = checked_simulate_fok(second_request, second_asks)?;
    let mut reasons: Vec<String> = Vec::new();
    proof {
        assert(texts_of(reasons@) =~= Seq::<Seq<char>>::empty());
    }
    push_leg_reason(&mut reasons, "第一腿预检失败：", &first);
    push_leg_reason(&mut reasons, "第二腿预检失败：", &second);
    proof {
        let all = pair_reasons(
            first_request@,
            ladder_view(first_asks@),
            second_request@,
            ladder_view(second_asks@),
        )->0;
        assert(texts_of(reasons@) =~= all);
    }
    if reasons.len() == 0 {
        Some(Ok(()))
    } else {
        Some(Err(reasons))
    }
}

/// A verdict that accepts where there is no reason against it, and else lists the reasons.
pub open spec fn preflight_says(verdict: Result<(), Vec<String>>, reasons: Seq<Seq<char>>) -> bool {
    match verdict {
        Ok(_) => reasons.len() == 0,
        Err(listed) => reasons.len() > 0 && texts_of(listed@) == reasons,
    }
}

/// Whether both legs of a pair would fill, or why not.
pub fn preflight_pair_fok(
    first_request: FokOrderRequest,
    first_asks: &[PriceLevel],
    second_request: FokOrderRequest,
    second_asks: &[PriceLevel],
) -> (result: Result<(), Vec<String>>)
    requires
        pair_reasons(
            first_request@,
            ladder_view(first_asks@),
            second_request@,
            ladder_view(second_asks@),
        ) is Some,
    ensures
        preflight_says(
            result,
            pair_reasons(
                first_request@,
                ladder_view(first_asks@),
                second_request@,
                ladder_view(second_asks@),
            )->0,
        ),
{
    checked_preflight_pair_fok(first_request, first_asks, second_request, second_asks).unwrap()
}

/// What a simulated pair came to.
#[verifier::ext_equal]
pub struct PairView {
    pub first: FillView,
    pub second: FillView,
    pub first_leg: DecimalView,
    pub second_leg: DecimalView,
    pub exposure: DecimalView,
    pub status: OrderStatus,
}

impl View for PairFokReport {
    type V = PairView;

    open spec fn view(&self) -> PairView {
        PairView {
            first: self.first@,
            second: self.second@,
            first_leg: self.hedge.first_leg@,
            second_leg: self.hedge.second_leg@,
            exposure: self.hedge.exposure@,
            status: self.status,
        }
    }
}

/// The quantity by which one leg exceeds the other; `None` on overflow.
pub open spec fn exposure_of(first: DecimalView, second: DecimalView) -> Option<DecimalView> {
    match difference(first, second) {
        Some(gap) => Some(gap.absolute()),
        None => None,
    }
}

/// The simulated outcome of a pair: unhedged where the legs differ, hedged where both filled,
/// cancelled otherwise. `None` on overflow.
pub open spec fn pair_report(
    first: RequestView,
    first_asks: Seq<LevelView>,
    second: RequestView,
    second_asks: Seq<LevelView>,
) -> Option<PairView> {
    match (fok(first, first_asks), fok(second, second_asks)) {
        (Some(first_fill), Some(second_fill)) => match exposure_of(
            first_fill.filled_quantity,
            second_fill.filled_quantity,
        ) {
            None => None,
            Some(exposure) => Some(
                PairView {
                    first: first_fill,
                    second: second_fill,
                    first_leg: first_fill.filled_quantity,
                    second_leg: second_fill.filled_quantity,
                    exposure,
                    status: if exposure.is_positive() {
                        OrderStatus::Unhedged
                    } else if first_fill.status == OrderStatus::FullyFilled && second_fill.status
                        == OrderStatus::FullyFilled {
                        OrderStatus::Hedged
                    } else {
                        OrderStatus::Cancelled
                    },
                },
            ),
        },
        _ => None,
    }
}

/// An order records a fill: everything but the order's identifier comes from it.
pub open spec fn records(order: SimulatedOrder, fill: FillView) -> bool {
    &&& order.quantity@ == fill.requested_quantity
    &&& order.filled@ == fill.filled_quantity
    &&& view_of(order.limit_price) == Some(fill.limit_price)
    &&& order.total_cost@ == fill.total_cost
    &&& order.status == fill.status
    &&& text_of(order.reason) == fill.reason
}

/// An identifier for a new order.
///
/// Trusted: `uuid::Uuid::new_v4`, a random identifier. It is claimed that it carries the
/// version 4 and the RFC variant; not that it differs from earlier ones.
#[verifier::external_body]
fn fresh_order_id() -> (result: u128)
    ensures
        (result / 0x1000_0000_0000_0000_0000) % 16 == 4,
        (result / 0x4000_0000_0000_0000) % 4 == 2,
{
    uuid::Uuid::new_v4().as_u128()
}

/// The order under `id` that records a fill.
pub fn order_from_fill(id: u128, fill: &FokFill) -> (result: SimulatedOrder)
    ensures
        result.id == id,
        records(result, fill@),
{
    SimulatedOrder {
        id,
        quantity: fill.requested_quantity,
        filled: fill.filled_quantity,
        limit_price: Some(fill.limit_price),
        total_cost: fill.total_cost,
        status: fill.status,
        reason: copy_option(&fill.reason),
    }
}

/// The order under `id` for `quantity`, on its way to the venue.
pub fn submitted_order(id: u128, quantity: Decimal) -> (result: SimulatedOrder)
    ensures
        result.id == id,
        is_submitted(result, quantity@),
{
    SimulatedOrder {
        id,
        quantity,
        filled: Decimal::zero(),
        limit_price: None,
        total_cost: Decimal::zero(),
        status: OrderStatus::Submitting,
        reason: None,
    }
}

/// An order for `quantity` of which nothing has been filled yet.
pub open spec fn is_submitted(order: SimulatedOrder, quantity: DecimalView) -> bool {
    &&& order.quantity@ == quantity
    &&& order.filled@ == zero()
    &&& order.limit_price is None
    &&& order.total_cost@ == zero()
    &&& order.status == OrderStatus::Submitting
    &&& order.reason is None
}

/// The position of the first order under `id`, or the number of orders where there is none.
pub open spec fn position_of(orders: Seq<SimulatedOrder>, id: u128) -> int
    decreases orders.len(),
{
    if orders.len() == 0 || orders[0].id == id {
        0
    } else {
        1 + position_of(orders.drop_first(), id)
    }
}

/// An order after `filled` of it was executed, at most its whole quantity.
pub open spec fn is_filled_from(after: SimulatedOrder, before: SimulatedOrder, filled: DecimalView) -> bool {
    &&& after.id == before.id
    &&& after.quantity == before.quantity
    &&& after.filled@ == filled.smaller(before.quantity@)
    &&& after.limit_price == before.limit_price
    &&& after.total_cost == before.total_cost
    &&& after.status == (if after.filled@.same(before.quantity@) {
        OrderStatus::FullyFilled
    } else {
        OrderStatus::PartiallyFilled
    })
    &&& after.reason == before.reason
}

/// Keeps simulated orders, and stops once a pair is left unhedged.
#[derive(Debug)]
pub struct SimulatedExecutor {
    pub orders: Vec<SimulatedOrder>,
    pub paused: bool,
}

impl Default for SimulatedExecutor {
    fn default() -> (result: SimulatedExecutor)
        ensures
            result.orders@.len() == 0,
            !result.paused,
    {
        SimulatedExecutor { orders: Vec::new(), paused: false }
    }
}

impl SimulatedExecutor {
    /// Records a new order for `quantity` and returns it.
    pub fn place_order(&mut self, quantity: Decimal) -> (result: SimulatedOrder)
        ensures
            is_submitted(result, quantity@),
            final(self).orders@.len() == old(self).orders@.len() + 1,
            final(self).orders@.drop_last() == old(self).orders@,
            final(self).orders@.last().id == result.id,
            is_submitted(final(self).orders@.last(), quantity@),
            final(self).paused == old(self).paused,
    {
        let id: u128 = fresh_order_id();
        self.orders.push(submitted_order(id, quantity));
        proof {
            assert(self.orders@.drop_last() =~= old(self).orders@);
        }
        submitted_order(id, quantity)
    }

    /// Records the execution of `filled` of the first order under `id`, if there is one.
    pub fn fill_order(&mut self, id: u128, filled: Decimal) -> (result: Option<UnhedgedPosition>)
        ensures
            result is None,
            final(self).paused == old(self).paused,
            final(self).orders@.len() == old(self).orders@.len(),
            ({
                let position = position_of(old(self).orders@, id);
                &&& forall|i: int|
                    0 <= i < old(self).orders@.len() && i != position
                        ==> #[trigger] final(self).orders@[i] == old(self).orders@[i]
                &&& position < old(self).orders@.len() ==> is_filled_from(
                    final(self).orders@[position],
                    old(self).orders@[position],
                    filled@,
                )
            }),
    {
        let mut i: usize = 0;
        proof {
            assert(self.orders@.skip(0) =~= self.orders@);
        }
        while i < self.orders.len() && self.orders[i].id != id
            invariant
                *self == *old(self),
                i <= self.orders@.len(),
                position_of(self.orders@, id) == i + position_of(self.orders@.skip(i as int), id),
            decreases self.orders@.len() - i,
        {
            proof {
                assert(self.orders@.skip(i as int).drop_first() =~= self.orders@.skip(i + 1));
            }
            i = i + 1;
        }
        if i < self.orders.len() {
            let quantity = self.orders[i].quantity;
            let executed = filled.min(quantity);
            let status = if executed.equals(&quantity) {
                OrderStatus::FullyFilled
            } else {
                OrderStatus::PartiallyFilled
            };
            let order = &mut self.orders[i];
            order.filled = executed;
            order.status = status;
        }
        None
    }

    /// Compares the filled quantities of two legs and pauses where they differ; `None`, with
    /// nothing changed, on overflow.
    pub fn checked_assess_hedge(&mut self, first: Decimal, second: Decimal) -> (result: Option<
        UnhedgedPosition,
    >)
        ensures
            final(self).orders == old(self).orders,
            result is None <==> exposure_of(first@, second@) is None,
            result is None ==> final(self).paused == old(self).paused,
            result matches Some(position) ==> {
                &&& position.first_leg@ == first@
                &&& position.second_leg@ == second@
                &&& Some(position.exposure@) == exposure_of(first@, second@)
                &&& final(self).paused == (old(self).paused || position.exposure@.is_positive())
            },
    {
        let exposure = first.checked_sub(second)?.abs();
        if exposure.is_positive() {
            self.paused = true;
        }
        Some(UnhedgedPosition { first_leg: first, second_leg: second, exposure })
    }

    /// Compares the filled quantities of two legs and pauses where they differ.
    pub fn assess_hedge(&mut self, first: Decimal, second: Decimal) -> (result: UnhedgedPosition)
        requires
            exposure_of(first@, second@) is Some,
        ensures
            final(self).orders == old(self).orders,
            result.first_leg@ == first@,
            result.second_leg@ == second@,
            Some(result.exposure@) == exposure_of(first@, second@),
            final(self).paused == (old(self).paused || result.exposure@.is_positive()),
    {
        self.checked_assess_hedge(first, second).unwrap()
    }

    /// Simulates both legs of a pair and records them as orders; `None`, with nothing changed,
    /// on overflow.
    pub fn checked_execute_pair_fok(
        &mut self,
        first_request: FokOrderRequest,
        first_asks: &[PriceLevel],
        second_request: FokOrderRequest,
        second_asks: &[PriceLevel],
    ) -> (result: Option<PairFokReport>)
        ensures
            result is None <==> pair_report(
                first_request@,
                ladder_view(first_asks@),
                second_request@,
                ladder_view(second_asks@),
            ) is None,
            result is None ==> *final(self) == *old(self),
            result matches Some(report) ==> {
                &&& Some(report@) == pair_report(
                    first_request@,
                    ladder_view(first_asks@),
                    second_request@,
                    ladder_view(second_asks@),
                )
                &&& pair_recorded(*old(self), *final(self), report)
            },
    {
        let first = checked_simulate_fok(first_request, first_asks)?;
        let second = checked_simulate_fok(second_request, second_asks)?;
        let hedge = self.checked_assess_hedge(first.filled_quantity, second.filled_quantity)?;
        self.orders.push(order_from_fill(fresh_order_id(), &first));
        self.orders.push(order_from_fill(fresh_order_id(), &second));
        let status = if hedge.exposure.is_positive() {
            OrderStatus::Unhedged
        } else if first.status == OrderStatus::FullyFilled && second.status
            == OrderStatus::FullyFilled {
            OrderStatus::Hedged
        } else {
            OrderStatus::Cancelled
        };
        proof {
            assert(self.orders@.take(old(self).orders@.len() as int) =~= old(self).orders@);
        }
        Some(PairFokReport { first, second, hedge, status })
    }

    /// Simulates both legs of a pair and records them as orders.
    pub fn execute_pair_fok(
        &mut self,
        first_request: FokOrderRequest,
        first_asks: &[PriceLevel],
        second_request: FokOrderRequest,
        second_asks: &[PriceLevel],
    ) -> (result: PairFokReport)
        requires
            pair_report(
                first_request@,
                ladder_view(first_asks@),
                second_request@,
                ladder_view(second_asks@),
            ) is Some,
        ensures
            Some(result@) == pair_report(
                first_request@,
                ladder_view(first_asks@),
                second_request@,
                ladder_view(second_asks@),
            ),
            pair_recorded(*old(self), *final(self), result),
    {
        self.checked_execute_pair_fok(first_request, first_asks, second_request, second_asks).unwrap()
    }
}

/// The executor after a pair: two more orders that record the legs, and paused from then on
/// where the pair is unhedged.
pub open spec fn pair_recorded(
    before: SimulatedExecutor,
    after: SimulatedExecutor,
    report: PairFokReport,
) -> bool {
    let count = before.orders@.len() as int;
    &&& after.orders@.len() == count + 2
    &&& after.orders@.take(count) == before.orders@
    &&& records(after.orders@[count], report.first@)
    &&& records(after.orders@[count + 1], report.second@)
    &&& after.paused == (before.paused || report.status == OrderStatus::Unhedged)
}

/// A fill-or-kill order is filled as a whole or not at all.
pub proof fn fok_fills_all_or_nothing(request: RequestView, asks: Seq<LevelView>, fill: FillView)
    requires
        fok(request, asks) == Some(fill),
    ensures
        fill.requested_quantity == request.quantity,
        fill.limit_price == request.limit_price,
        fill.status == OrderStatus::FullyFilled ==> fill.filled_quantity == request.quantity
            && fill.reason is None && request_valid(request),
        fill.status != OrderStatus::FullyFilled ==> {
            &&& fill.status == OrderStatus::Rejected || fill.status == OrderStatus::Cancelled
            &&& fill.filled_quantity == zero()
            &&& fill.total_cost == zero()
            &&& fill.average_price is None
            &&& fill.worst_price is None
            &&& fill.reason is Some
        },
{
}

proof fn lemma_bought_within_limit(
    levels: Seq<LevelView>,
    start: int,
    limit: DecimalView,
    remaining: DecimalView,
    cost: DecimalView,
    worst: Option<DecimalView>,
)
    requires
        worst matches Some(price) ==> price.le(limit),
        bought_from(levels, start, limit, remaining, cost, worst) is Some,
    ensures
        bought_from(levels, start, limit, remaining, cost, worst) matches Some((_, Some(price)))
            ==> price.le(limit),
    decreases levels.len() - start,
{
    if 0 <= start < levels.len() {
        if !levels[start].price.le(limit) {
            lemma_bought_within_limit(levels, start + 1, limit, remaining, cost, worst);
        } else {
            let filled = remaining.smaller(levels[start].quantity);
            let next_worst = if filled.is_positive() {
                Some(levels[start].price)
            } else {
                worst
            };
            let next_cost = plus(Some(cost), product(filled, levels[start].price))->0;
            let rest = difference(remaining, filled)->0;
            if rest.is_positive() {
                lemma_bought_within_limit(levels, start + 1, limit, rest, next_cost, next_worst);
            }
        }
    }
}

/// No level above the limit price is ever bought.
pub proof fn fok_never_pays_above_limit(request: RequestView, asks: Seq<LevelView>, fill: FillView)
    requires
        fok(request, asks) == Some(fill),
    ensures
        fill.worst_price matches Some(price) ==> price.le(request.limit_price),
{
    if fill.status == OrderStatus::FullyFilled {
        lemma_bought_within_limit(
            by_price(asks, false),
            0,
            request.limit_price,
            request.quantity,
            zero(),
            None,
        );
    }
}

proof fn lemma_no_gap(first: DecimalView, second: DecimalView)
    requires
        first.valid(),
        second.valid(),
        first.same(second),
    ensures
        exposure_of(first, second) matches Some(gap) && gap.mantissa == 0,
{
    same_numbers_cancel(first, second);
}

/// Of two legs for the same quantity, the pair is unhedged exactly where one of them filled
/// and the other did not, hedged where both filled, and cancelled where neither did. The
/// exposure is then the quantity of the leg that filled, or nothing.
pub proof fn pair_status_follows_legs(
    first: RequestView,
    first_asks: Seq<LevelView>,
    second: RequestView,
    second_asks: Seq<LevelView>,
    report: PairView,
)
    requires
        first.quantity.valid(),
        second.quantity.valid(),
        first.quantity.same(second.quantity),
        pair_report(first, first_asks, second, second_asks) == Some(report),
    ensures
        ({
            let first_filled = report.first.status == OrderStatus::FullyFilled;
            let second_filled = report.second.status == OrderStatus::FullyFilled;
            &&& report.status == OrderStatus::Unhedged <==> first_filled != second_filled
            &&& report.status == OrderStatus::Hedged <==> first_filled && second_filled
            &&& report.status == OrderStatus::Cancelled <==> !first_filled && !second_filled
            &&& first_filled && !second_filled ==> report.exposure == first.quantity
            &&& second_filled && !first_filled ==> report.exposure == second.quantity
            &&& first_filled == second_filled ==> report.exposure.mantissa == 0
        }),
{
    fok_fills_all_or_nothing(first, first_asks, report.first);
    fok_fills_all_or_nothing(second, second_asks, report.second);
    lemma_no_gap(first.quantity, second.quantity);
    lemma_no_gap(zero(), zero());
}

/// A pair for the same quantity passes the preflight on some books exactly where it is hedged
/// when it is executed on them; both legs are then filled and nothing is exposed.
pub proof fn preflight_decides_the_hedge(
    first: RequestView,
    first_asks: Seq<LevelView>,
    second: RequestView,
    second_asks: Seq<LevelView>,
    reasons: Seq<Seq<char>>,
)
    requires
        first.quantity.valid(),
        second.quantity.valid(),
        first.quantity.same(second.quantity),
        pair_reasons(first, first_asks, second, second_asks) == Some(reasons),
    ensures
        pair_report(first, first_asks, second, second_asks) matches Some(report) && {
            &&& reasons.len() == 0 <==> report.status == OrderStatus::Hedged
            &&& reasons.len() == 0 ==> {
                &&& report.first.filled_quantity == first.quantity
                &&& report.second.filled_quantity == second.quantity
                &&& report.exposure.mantissa == 0
            }
        },
{
    let first_fill = fok(first, first_asks)->0;
    let second_fill = fok(second, second_asks)->0;
    fok_fills_all_or_nothing(first, first_asks, first_fill);
    fok_fills_all_or_nothing(second, second_asks, second_fill);
    lemma_no_gap(first.quantity, second.quantity);
    lemma_no_gap(zero(), zero());
    let report = pair_report(first, first_asks, second, second_asks)->0;
    pair_status_follows_legs(first, first_asks, second, second_asks, report);
}

/// The exposure of two legs is the distance of their quantities, up to the rounding of their
/// difference.
pub proof fn exposures_are_distances(
    first: DecimalView,
    second: DecimalView,
    exposure: DecimalView,
)
    requires
        exposure_of(first, second) == Some(exposure),
    ensures
        exposure.units() >= 0,
        first.units() >= second.units() ==> close(
            exposure.units(),
            first.units() - second.units(),
            difference_miss(first, second),
        ),
        first.units() <= second.units() ==> close(
            exposure.units(),
            second.units() - first.units(),
            difference_miss(first, second),
        ),
{
    let gap = difference(first, second)->0;
    positive_units(gap);
    negated_units(gap);
    positive_units(exposure);
}

/// There is one reason against a pair for each leg that would not fill, the first leg's before
/// the second one's, and each names its leg.
pub proof fn each_unfilled_leg_gives_a_reason(
    first: RequestView,
    first_asks: Seq<LevelView>,
    second: RequestView,
    second_asks: Seq<LevelView>,
    reasons: Seq<Seq<char>>,
)
    requires
        pair_reasons(first, first_asks, second, second_asks) == Some(reasons),
    ensures
        fok(first, first_asks) is Some,
        fok(second, second_asks) is Some,
        ({
            let fails_first = fok(first, first_asks)->0.status != OrderStatus::FullyFilled;
            let fails_second = fok(second, second_asks)->0.status != OrderStatus::FullyFilled;
            let label_first = "第一腿预检失败："@;
            let label_second = "第二腿预检失败："@;
            &&& reasons.len() == (if fails_first {
                1int
            } else {
                0int
            }) + (if fails_second {
                1int
            } else {
                0int
            })
            &&& fails_first ==> label_first.is_prefix_of(reasons[0])
            &&& fails_second ==> label_second.is_prefix_of(reasons[reasons.len() - 1])
        }),
{
    let label_first = "第一腿预检失败："@;
    let label_second = "第二腿预检失败："@;
    let fill_first = fok(first, first_asks)->0;
    let fill_second = fok(second, second_asks)->0;
    if fill_first.status != OrderStatus::FullyFilled {
        let words = match fill_first.reason {
            Some(reason) => reason,
            None => "无法完全成交"@,
        };
        assert(reasons[0] == label_first + words);
        assert(label_first =~= (label_first + words).take(label_first.len() as int));
    }
    if fill_second.status != OrderStatus::FullyFilled {
        let words = match fill_second.reason {
            Some(reason) => reason,
            None => "无法完全成交"@,
        };
        assert(reasons[reasons.len() - 1] == label_second + words);
        assert(label_second =~= (label_second + words).take(label_second.len() as int));
    }
}

/// Once a pair is left unhedged the executor stays paused, and no earlier order is touched by a
/// later pair.
pub proof fn unhedged_pairs_pause_for_good(
    before: SimulatedExecutor,
    between: SimulatedExecutor,
    after: SimulatedExecutor,
    first: PairFokReport,
    second: PairFokReport,
    place: int,
)
    requires
        pair_recorded(before, between, first),
        pair_recorded(between, after, second),
        0 <= place < between.orders@.len(),
    ensures
        first.status == OrderStatus::Unhedged ==> after.paused,
        before.paused ==> after.paused,
        !before.paused && first.status != OrderStatus::Unhedged && second.status
            != OrderStatus::Unhedged ==> !after.paused,
        after.orders@[place] == between.orders@[place],
        after.orders@.len() == before.orders@.len() + 4,
        records(after.orders@[before.orders@.len() as int], first.first@),
        records(after.orders@[before.orders@.len() as int + 1], first.second@),
        records(after.orders@[before.orders@.len() as int + 2], second.first@),
        records(after.orders@[before.orders@.len() as int + 3], second.second@),
{
    assert(after.orders@.take(between.orders@.len() as int)[place] == after.orders@[place]);
    let count = before.orders@.len() as int;
    assert(after.orders@.take(between.orders@.len() as int)[count] == after.orders@[count]);
    assert(after.orders@.take(between.orders@.len() as int)[count + 1] == after.orders@[count + 1]);
}

/// An order is never filled beyond its quantity, and is fully filled exactly where what was
/// executed reaches it.
pub proof fn orders_fill_up_to_their_quantity(
    after: SimulatedOrder,
    before: SimulatedOrder,
    filled: DecimalView,
)
    requires
        is_filled_from(after, before, filled),
    ensures
        after.filled@.units() <= before.quantity@.units(),
        after.filled@.units() <= filled.units(),
        after.filled@.units() == before.quantity@.units() || after.filled@.units()
            == filled.units(),
        after.status == OrderStatus::FullyFilled <==> filled.units() >= before.quantity@.units(),
        after.status == OrderStatus::PartiallyFilled <==> filled.units() < before.quantity@.units(),
        after.quantity@ == before.quantity@,
{
}

/// An order is found at the first place where it stands.
pub proof fn orders_are_found_at_their_first_place(orders: Seq<SimulatedOrder>, id: u128)
    ensures
        0 <= position_of(orders, id) <= orders.len(),
        position_of(orders, id) < orders.len() ==> orders[position_of(orders, id)].id == id,
        forall|i: int| 0 <= i < position_of(orders, id) ==> (#[trigger] orders[i]).id != id,
    decreases orders.len(),
{
    if orders.len() > 0 && orders[0].id != id {
        let rest = orders.drop_first();
        orders_are_found_at_their_first_place(rest, id);
        assert forall|i: int| 0 <= i < position_of(orders, id) implies (#[trigger] orders[i]).id
            != id by {
            if i > 0 {
                assert(rest[i - 1] == orders[i]);
            }
        }
    }
}

/// A budget buys something only where it, both limits and the step are above nothing; and where
/// they are, it buys nothing only because not even one step is within it.
pub proof fn budgets_need_positive_terms(
    budget: DecimalView,
    first_limit: DecimalView,
    second_limit: DecimalView,
    step: DecimalView,
)
    ensures
        ({
            let bought = budget_quantity_at_step(budget, first_limit, second_limit, step);
            let positive = budget.units() > 0 && first_limit.units() > 0 && second_limit.units()
                > 0 && step.units() > 0;
            let combined = sum(first_limit, second_limit);
            &&& bought matches Some(Some(_)) ==> positive
            &&& bought matches Some(Some(quantity)) ==> quantity.units() > 0
            &&& positive && combined is Some && combined->0.units() > 0 && bought == Some(
                None::<DecimalView>,
            ) ==> quotient(budget, combined->0) is Some && whole_steps(
                quotient(budget, combined->0)->0,
                step,
            ) is Some && whole_steps(quotient(budget, combined->0)->0, step)->0.units() <= 0
        }),
{
    positive_units(budget);
    positive_units(first_limit);
    positive_units(second_limit);
    positive_units(step);
    if let Some(combined) = sum(first_limit, second_limit) {
        positive_units(combined);
        if let Some(raw) = quotient(budget, combined) {
            if let Some(quantity) = whole_steps(raw, step) {
                positive_units(quantity);
            }
        }
    }
}

/// An order that is not filled says why: that its quantity or limit is invalid, that the book has
/// an unusable level, or that the depth within its limit does not suffice. One that is filled
/// gives no reason.
pub proof fn unfilled_orders_say_why(request: RequestView, asks: Seq<LevelView>, fill: FillView)
    requires
        fok(request, asks) == Some(fill),
    ensures
        ({
            let valid = request.quantity.units() > 0 && 0 < request.limit_price.units()
                <= whole(1).units();
            let usable = forall|i: int|
                0 <= i < asks.len() ==> (#[trigger] asks[i]).price.mantissa > 0
                    && asks[i].quantity.mantissa > 0;
            &&& !valid ==> fill.reason == Some("数量或限价无效"@)
            &&& valid && !usable ==> fill.reason == Some("订单簿包含无效档位"@)
            &&& fill.status == OrderStatus::Cancelled ==> fill.reason == Some(
                "FOK：指定限价内深度不足，整单取消"@,
            )
            &&& fill.status == OrderStatus::FullyFilled <==> fill.reason is None
            &&& fill.requested_quantity == request.quantity
            &&& fill.limit_price == request.limit_price
        }),
{
    positive_units(request.quantity);
    positive_units(request.limit_price);
}

/// Both legs of a pair are recorded in their order, each with what it asked for, what it got and
/// what that cost.
pub proof fn pairs_are_recorded_leg_by_leg(
    before: SimulatedExecutor,
    after: SimulatedExecutor,
    report: PairFokReport,
)
    requires
        pair_recorded(before, after, report),
    ensures
        ({
            let first = after.orders@[before.orders@.len() as int];
            let second = after.orders@[before.orders@.len() as int + 1];
            &&& first.quantity@ == report.first@.requested_quantity
            &&& first.filled@ == report.first@.filled_quantity
            &&& first.total_cost@ == report.first@.total_cost
            &&& first.status == report.first@.status
            &&& view_of(first.limit_price) == Some(report.first@.limit_price)
            &&& text_of(first.reason) == report.first@.reason
            &&& second.quantity@ == report.second@.requested_quantity
            &&& second.filled@ == report.second@.filled_quantity
            &&& second.total_cost@ == report.second@.total_cost
            &&& second.status == report.second@.status
            &&& view_of(second.limit_price) == Some(report.second@.limit_price)
            &&& text_of(second.reason) == report.second@.reason
        }),
{
}

} // verus!
