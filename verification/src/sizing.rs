//! Why it is enough to try the candidate sizes of an opportunity: between two of them the
//! profit runs along a straight line.
use vstd::prelude::*;

use crate::arbitrage::{
    ascending, breakpoints_from, buy_arbitrage, candidate_sizes, direction_of,
    lemma_ascending, lemma_last_opportunity, opportunity_at, strictly_ascending, unrounded_at,
    with_value, OpportunityView, Terms,
};
use crate::cheapest::valid_levels;
use crate::decimal::{
    exact_product, exact_products_multiply, exact_sum, exact_sums_add_up, negated_units,
    positive_units, whole, zero, zero_units, DecimalView, MAX_SCALE,
};
use crate::domain::{
    cost_from, cost_of, is_usable, ladder_view, unrounded_from, ArbitrageDirection, OrderBook,
};
use crate::execution::all_usable;
use crate::ladder::{depth, depth_from, LevelView};
use crate::time::Timestamp;

verus! {

/// What buying an amount in order costs, in units of units.
pub open spec fn cost_units(levels: Seq<LevelView>, start: int, amount: int) -> int
    decreases levels.len() - start,
{
    if start < 0 || start >= levels.len() || amount <= 0 {
        0
    } else {
        let offered = levels[start].quantity.units();
        let take = if amount < offered {
            amount
        } else {
            offered
        };
        take * levels[start].price.units() + cost_units(levels, start + 1, amount - take)
    }
}

/// The amount offered by the levels from `start` up to `end`, in units.
pub open spec fn span(levels: Seq<LevelView>, start: int, end: int) -> int
    decreases end - start,
{
    if start < 0 || start >= end || start >= levels.len() {
        0
    } else {
        levels[start].quantity.units() + span(levels, start + 1, end)
    }
}

/// Nothing is rounded in adding up the quantities from `start` on.
pub open spec fn unrounded_depth(levels: Seq<LevelView>, start: int, running: DecimalView) -> bool
    decreases levels.len() - start,
{
    if start < 0 || start >= levels.len() {
        true
    } else {
        match exact_sum(running, levels[start].quantity) {
            Some(next) => unrounded_depth(levels, start + 1, next),
            None => false,
        }
    }
}

/// A number occurs in a list.
pub open spec fn has_number(list: Seq<DecimalView>, number: int) -> bool {
    exists|i: int| 0 <= i < list.len() && (#[trigger] list[i]).units() == number
}

proof fn lemma_with_value_keeps(list: Seq<DecimalView>, value: DecimalView, number: int)
    requires
        has_number(list, number) || value.units() == number,
    ensures
        has_number(with_value(list, value), number),
    decreases list.len(),
{
    let result = with_value(list, value);
    if list.len() == 0 || list.last().lt(value) {
        if value.units() == number {
            assert(result[list.len() as int].units() == number);
        } else {
            let i = choose|i: int| 0 <= i < list.len() && (#[trigger] list[i]).units() == number;
            assert(result[i] == list[i]);
        }
    } else if list.last().same(value) {
        if value.units() == number {
            assert(list[list.len() - 1].units() == number);
        }
    } else {
        let rest = list.drop_last();
        let inner = with_value(rest, value);
        if value.units() != number {
            let i = choose|i: int| 0 <= i < list.len() && (#[trigger] list[i]).units() == number;
            if i < list.len() - 1 {
                assert(rest[i] == list[i]);
            }
        }
        if list.last().units() == number {
            assert(result[inner.len() as int].units() == number);
        } else {
            lemma_with_value_keeps(rest, value, number);
            let k = choose|k: int| 0 <= k < inner.len() && (#[trigger] inner[k]).units() == number;
            assert(result[k] == inner[k]);
        }
    }
}

proof fn lemma_ascending_keeps(values: Seq<DecimalView>, number: int)
    requires
        has_number(values, number),
    ensures
        has_number(ascending(values), number),
    decreases values.len(),
{
    let i = choose|i: int| 0 <= i < values.len() && (#[trigger] values[i]).units() == number;
    let rest = values.drop_last();
    if i < values.len() - 1 {
        assert(rest[i] == values[i]);
        lemma_ascending_keeps(rest, number);
    }
    lemma_with_value_keeps(ascending(rest), values.last(), number);
}

proof fn lemma_depth_spans(
    levels: Seq<LevelView>,
    start: int,
    running: DecimalView,
    total: DecimalView,
)
    requires
        0 <= start,
        valid_levels(levels),
        running.scale <= MAX_SCALE,
        unrounded_depth(levels, start, running),
        depth_from(levels, start, running) == Some(total),
    ensures
        total.units() == running.units() + span(levels, start, levels.len() as int),
    decreases levels.len() - start,
{
    if start < levels.len() {
        let next = exact_sum(running, levels[start].quantity)->0;
        exact_sums_add_up(running, levels[start].quantity, next);
        lemma_depth_spans(levels, start + 1, next, total);
    }
}

proof fn lemma_breakpoint_listed(
    levels: Seq<LevelView>,
    start: int,
    running: DecimalView,
    maximum: DecimalView,
    end: int,
)
    requires
        0 <= start < end <= levels.len(),
        valid_levels(levels),
        running.scale <= MAX_SCALE,
        unrounded_depth(levels, start, running),
        breakpoints_from(levels, start, running, maximum) is Some,
        running.units() + span(levels, start, end) <= maximum.units(),
    ensures
        has_number(
            breakpoints_from(levels, start, running, maximum)->0,
            running.units() + span(levels, start, end),
        ),
    decreases levels.len() - start,
{
    let next = exact_sum(running, levels[start].quantity)->0;
    exact_sums_add_up(running, levels[start].quantity, next);
    let all = breakpoints_from(levels, start, running, maximum)->0;
    let later = breakpoints_from(levels, start + 1, next, maximum)->0;
    let number = running.units() + span(levels, start, end);
    if end == start + 1 {
        assert(span(levels, start + 1, end) == 0);
        assert(all[0] == next);
    } else {
        lemma_breakpoint_listed(levels, start + 1, next, maximum, end);
        let i = choose|i: int| 0 <= i < later.len() && (#[trigger] later[i]).units() == number;
        if next.le(maximum) {
            assert(all[i + 1] == later[i]);
        } else {
            assert(all[i] == later[i]);
        }
    }
}

/// A cost that is not rounded is the cost in units, and what is bought is on offer.
proof fn lemma_cost_in_units(
    levels: Seq<LevelView>,
    start: int,
    remaining: DecimalView,
    cost: DecimalView,
    total: DecimalView,
)
    requires
        valid_levels(levels),
        remaining.is_positive(),
        remaining.scale <= MAX_SCALE,
        cost.scale <= MAX_SCALE,
        all_usable(levels),
        cost_from(levels, start, remaining, cost) == Some(Some(total)),
        unrounded_from(levels, start, remaining, cost),
    ensures
        (total.units() - cost.units()) * whole(1).units() == cost_units(
            levels,
            start,
            remaining.units(),
        ),
        cost_units(levels, start, remaining.units()) > 0,
        remaining.units() <= span(levels, start, levels.len() as int),
        total.scale <= MAX_SCALE,
    decreases levels.len() - start,
{
    let one = whole(1).units();
    let level = levels[start];
    let take = remaining.smaller(level.quantity);
    let paid = exact_product(take, level.price)->0;
    let rest = exact_sum(remaining, take.negated())->0;
    let next_cost = exact_sum(cost, paid)->0;
    positive_units(remaining);
    positive_units(level.quantity);
    positive_units(level.price);
    positive_units(rest);
    exact_products_multiply(take, level.price, paid);
    exact_sums_add_up(cost, paid, next_cost);
    exact_sums_add_up(remaining, take.negated(), rest);
    negated_units(take);
    let (t, p) = (take.units(), level.price.units());
    assert(t * p > 0) by (nonlinear_arith)
        requires
            t > 0,
            p > 0,
    ;
    if rest.mantissa == 0 {
        lemma_span_is_not_negative(levels, start + 1, levels.len() as int);
        assert(cost_units(levels, start + 1, 0) == 0);
    } else {
        lemma_cost_in_units(levels, start + 1, rest, next_cost, total);
        let (a, n, c, x) = (total.units(), next_cost.units(), cost.units(), paid.units());
        assert((a - c) * one == (a - n) * one + x * one) by (nonlinear_arith)
            requires
                n == c + x,
        ;
    }
}

proof fn lemma_span_is_not_negative(levels: Seq<LevelView>, start: int, end: int)
    requires
        all_usable(levels),
    ensures
        span(levels, start, end) >= 0,
    decreases end - start,
{
    if 0 <= start < end && start < levels.len() {
        assert(is_usable(levels[start]));
        positive_units(levels[start].quantity);
        lemma_span_is_not_negative(levels, start + 1, end);
    }
}

/// Between two amounts with no level ending between them, the cost runs along a straight line.
proof fn lemma_cost_is_linear(levels: Seq<LevelView>, start: int, low: int, amount: int, high: int)
    requires
        0 <= start <= levels.len(),
        all_usable(levels),
        0 <= low <= amount <= high,
        low < high <= span(levels, start, levels.len() as int),
        forall|end: int|
            start <= end <= levels.len() ==> !(low < #[trigger] span(levels, start, end) < high),
    ensures
        (cost_units(levels, start, amount) - cost_units(levels, start, low)) * (high - low) == (
        cost_units(levels, start, high) - cost_units(levels, start, low)) * (amount - low),
    decreases levels.len() - start,
{
    if start < levels.len() {
        let (q, p) = (levels[start].quantity.units(), levels[start].price.units());
        assert(is_usable(levels[start]));
        positive_units(levels[start].quantity);
        assert(span(levels, start + 1, start + 1) == 0);
        assert(span(levels, start, start + 1) == q);
        if high <= q {
            lemma_within_level(levels, start, low);
            lemma_within_level(levels, start, amount);
            lemma_within_level(levels, start, high);
            assert((amount * p - low * p) * (high - low) == (high * p - low * p) * (amount
                - low)) by (nonlinear_arith);
        } else {
            assert(low >= q);
            lemma_beyond_level(levels, start, low);
            lemma_beyond_level(levels, start, amount);
            lemma_beyond_level(levels, start, high);
            assert forall|end: int| start + 1 <= end <= levels.len() implies !(low - q
                < #[trigger] span(levels, start + 1, end) < high - q) by {
                assert(span(levels, start, end) == q + span(levels, start + 1, end));
            }
            lemma_cost_is_linear(levels, start + 1, low - q, amount - q, high - q);
        }
    }
}

proof fn lemma_within_level(levels: Seq<LevelView>, start: int, amount: int)
    requires
        0 <= start < levels.len(),
        0 <= amount <= levels[start].quantity.units(),
    ensures
        cost_units(levels, start, amount) == amount * levels[start].price.units(),
{
    assert(cost_units(levels, start + 1, 0) == 0);
    let p = levels[start].price.units();
    assert(amount == 0 ==> amount * p == 0) by (nonlinear_arith);
}

proof fn lemma_beyond_level(levels: Seq<LevelView>, start: int, amount: int)
    requires
        0 <= start < levels.len(),
        0 < levels[start].quantity.units() <= amount,
    ensures
        cost_units(levels, start, amount) == levels[start].quantity.units()
            * levels[start].price.units() + cost_units(
            levels,
            start + 1,
            amount - levels[start].quantity.units(),
        ),
{
}

/// What a purchase earns, in units of units of units.
pub open spec fn gain(
    up: Seq<LevelView>,
    down: Seq<LevelView>,
    terms: Terms,
    amount: int,
) -> int {
    let one = whole(1).units();
    amount * one * one - (cost_units(up, 0, amount) + cost_units(down, 0, amount)) * (one
        + terms.fee_rate.units() + terms.slippage_buffer.units())
}

/// The terms of a purchase are representable and not negative.
pub open spec fn sound_terms(terms: Terms) -> bool {
    &&& terms.minimum_profit.valid() && terms.minimum_profit.mantissa >= 0
    &&& terms.fee_rate.valid() && terms.fee_rate.mantissa >= 0
    &&& terms.slippage_buffer.valid() && terms.slippage_buffer.mantissa >= 0
}

/// An opportunity of a size is there exactly where its gain exceeds the minimum.
proof fn lemma_gain_decides(
    up: Seq<LevelView>,
    down: Seq<LevelView>,
    quantity: DecimalView,
    terms: Terms,
    direction: ArbitrageDirection,
    detected_at: Timestamp,
)
    requires
        valid_levels(up),
        valid_levels(down),
        all_usable(up),
        all_usable(down),
        quantity.valid(),
        sound_terms(terms),
        unrounded_at(up, down, quantity, terms),
    ensures
        opportunity_at(up, down, quantity, terms, direction, detected_at) == Some(
            None::<OpportunityView>,
        ) ==> gain(up, down, terms, quantity.units()) <= terms.minimum_profit.units()
            * whole(1).units() * whole(1).units(),
        opportunity_at(up, down, quantity, terms, direction, detected_at) matches Some(Some(_))
            ==> gain(up, down, terms, quantity.units()) > terms.minimum_profit.units() * whole(
            1,
        ).units() * whole(1).units(),
        quantity.units() <= span(up, 0, up.len() as int),
        quantity.units() <= span(down, 0, down.len() as int),
{
    let up_cost = cost_of(up, quantity)->0->0;
    let down_cost = cost_of(down, quantity)->0->0;
    let cost = exact_sum(up_cost, down_cost)->0;
    let gross = exact_sum(quantity, cost.negated())->0;
    let fees = exact_product(cost, terms.fee_rate)->0;
    let slippage = exact_product(cost, terms.slippage_buffer)->0;
    let rest = exact_sum(gross, fees.negated())->0;
    let net = exact_sum(rest, slippage.negated())->0;
    zero_units();
    lemma_cost_in_units(up, 0, quantity, zero(), up_cost);
    lemma_cost_in_units(down, 0, quantity, zero(), down_cost);
    exact_sums_add_up(up_cost, down_cost, cost);
    exact_sums_add_up(quantity, cost.negated(), gross);
    exact_products_multiply(cost, terms.fee_rate, fees);
    exact_products_multiply(cost, terms.slippage_buffer, slippage);
    exact_sums_add_up(gross, fees.negated(), rest);
    exact_sums_add_up(rest, slippage.negated(), net);
    negated_units(cost);
    negated_units(fees);
    negated_units(slippage);
    positive_units(cost);
    positive_units(whole(1));
    let one = whole(1).units();
    let (t, c, u, d) = (quantity.units(), cost.units(), up_cost.units(), down_cost.units());
    let (x, y) = (cost_units(up, 0, t), cost_units(down, 0, t));
    let (f, s, n) = (fees.units(), slippage.units(), net.units());
    let (fee, slip, m) = (
        terms.fee_rate.units(),
        terms.slippage_buffer.units(),
        terms.minimum_profit.units(),
    );
    assert(c * one == x + y) by (nonlinear_arith)
        requires
            c == u + d,
            u * one == x,
            d * one == y,
    ;
    assert(c > 0) by (nonlinear_arith)
        requires
            c * one == x + y,
            x > 0,
            y > 0,
            one > 0,
    ;
    assert(n * one == t * one - c * (one + fee + slip)) by (nonlinear_arith)
        requires
            n == t - c - f - s,
            f * one == c * fee,
            s * one == c * slip,
    ;
    assert(n * one * one == t * one * one - (x + y) * (one + fee + slip)) by (nonlinear_arith)
        requires
            n * one == t * one - c * (one + fee + slip),
            c * one == x + y,
    ;
    assert(m < n <==> m * one * one < n * one * one) by (nonlinear_arith)
        requires
            one > 0,
    ;
}

/// Between two amounts on a straight line, nothing earns more than the better of them.
proof fn lemma_gain_between(
    up: Seq<LevelView>,
    down: Seq<LevelView>,
    terms: Terms,
    low: int,
    amount: int,
    high: int,
    most: int,
)
    requires
        low < amount <= high,
        (cost_units(up, 0, amount) - cost_units(up, 0, low)) * (high - low) == (cost_units(
            up,
            0,
            high,
        ) - cost_units(up, 0, low)) * (amount - low),
        (cost_units(down, 0, amount) - cost_units(down, 0, low)) * (high - low) == (cost_units(
            down,
            0,
            high,
        ) - cost_units(down, 0, low)) * (amount - low),
        gain(up, down, terms, low) <= most,
        gain(up, down, terms, high) <= most,
    ensures
        gain(up, down, terms, amount) <= most,
{
    let one = whole(1).units();
    let g = one + terms.fee_rate.units() + terms.slippage_buffer.units();
    let (ua, ul, uh) = (cost_units(up, 0, amount), cost_units(up, 0, low), cost_units(up, 0, high));
    let (da, dl, dh) = (
        cost_units(down, 0, amount),
        cost_units(down, 0, low),
        cost_units(down, 0, high),
    );
    let (ca, cl, ch) = (ua + da, ul + dl, uh + dh);
    assert((ca - cl) * (high - low) == (ch - cl) * (amount - low)) by (nonlinear_arith)
        requires
            (ua - ul) * (high - low) == (uh - ul) * (amount - low),
            (da - dl) * (high - low) == (dh - dl) * (amount - low),
            ca == ua + da,
            cl == ul + dl,
            ch == uh + dh,
    ;
    let o = one * one;
    assert(amount * one * one == amount * o && low * one * one == low * o && high * one * one
        == high * o) by (nonlinear_arith)
        requires
            o == one * one,
    ;
    let (fa, fl, fh) = (amount * o - ca * g, low * o - cl * g, high * o - ch * g);
    let (step, width, rise, climb) = (amount - low, high - low, ca - cl, ch - cl);
    assert(fa - fl == step * o - rise * g) by (nonlinear_arith)
        requires
            fa == amount * o - ca * g,
            fl == low * o - cl * g,
            step == amount - low,
            rise == ca - cl,
    ;
    assert(fh - fl == width * o - climb * g) by (nonlinear_arith)
        requires
            fh == high * o - ch * g,
            fl == low * o - cl * g,
            width == high - low,
            climb == ch - cl,
    ;
    assert((step * o - rise * g) * width == step * o * width - (rise * width) * g)
        by (nonlinear_arith);
    assert((width * o - climb * g) * step == step * o * width - (climb * step) * g)
        by (nonlinear_arith);
    assert(fa <= most) by (nonlinear_arith)
        requires
            (fa - fl) * (high - low) == (fh - fl) * (amount - low),
            fl <= most,
            fh <= most,
            low < amount <= high,
    ;
}

/// Nothing is rounded at any of the candidate sizes of two books.
pub open spec fn unrounded_candidates(
    up: Seq<LevelView>,
    down: Seq<LevelView>,
    terms: Terms,
) -> bool {
    &&& unrounded_depth(up, 0, zero())
    &&& unrounded_depth(down, 0, zero())
    &&& depth(up) matches Some(up_depth)
    &&& depth(down) matches Some(down_depth)
    &&& candidate_sizes(up, down, up_depth.smaller(down_depth)) matches Some(sizes)
    &&& forall|i: int|
        0 <= i < sizes.len() ==> (#[trigger] sizes[i]).valid()
            && unrounded_at(up, down, sizes[i], terms)
}

/// No level of a book ends strictly between two neighbouring candidate sizes.
proof fn lemma_no_level_ends_between(
    levels: Seq<LevelView>,
    sizes: Seq<DecimalView>,
    listed: Seq<DecimalView>,
    maximum: DecimalView,
    k: int,
    low: int,
    end: int,
)
    requires
        valid_levels(levels),
        unrounded_depth(levels, 0, zero()),
        breakpoints_from(levels, 0, zero(), maximum) is Some,
        sizes == ascending(listed),
        strictly_ascending(sizes),
        forall|number: int|
            has_number(breakpoints_from(levels, 0, zero(), maximum)->0, number)
                ==> #[trigger] has_number(listed, number),
        0 <= k < sizes.len(),
        sizes[k].units() <= maximum.units(),
        low == (if k == 0 {
            0
        } else {
            sizes[k - 1].units()
        }),
        low >= 0,
        0 <= end <= levels.len(),
    ensures
        !(low < span(levels, 0, end) < sizes[k].units()),
{
    let number = span(levels, 0, end);
    if low < number < sizes[k].units() {
        zero_units();
        lemma_breakpoint_listed(levels, 0, zero(), maximum, end);
        assert(has_number(listed, number));
        lemma_ascending_keeps(listed, number);
        let i = choose|i: int| 0 <= i < sizes.len() && (#[trigger] sizes[i]).units() == number;
        if i < k {
            if i < k - 1 {
                assert(sizes[i].lt(sizes[k - 1]));
            }
        } else if i > k {
            assert(sizes[k].lt(sizes[i]));
        }
    }
}

proof fn lemma_numbers_of_parts(
    maximum: DecimalView,
    first: Seq<DecimalView>,
    second: Seq<DecimalView>,
)
    ensures
        forall|number: int|
            has_number(first, number) ==> #[trigger] has_number(
                seq![maximum] + first + second,
                number,
            ),
        forall|number: int|
            has_number(second, number) ==> #[trigger] has_number(
                seq![maximum] + first + second,
                number,
            ),
        has_number(seq![maximum] + first + second, maximum.units()),
{
    let listed = seq![maximum] + first + second;
    assert(listed[0] == maximum);
    assert forall|number: int| has_number(first, number) implies #[trigger] has_number(
        listed,
        number,
    ) by {
        let i = choose|i: int| 0 <= i < first.len() && (#[trigger] first[i]).units() == number;
        assert(listed[i + 1] == first[i]);
    }
    assert forall|number: int| has_number(second, number) implies #[trigger] has_number(
        listed,
        number,
    ) by {
        let i = choose|i: int| 0 <= i < second.len() && (#[trigger] second[i]).units() == number;
        assert(listed[i + 1 + first.len()] == second[i]);
    }
}

/// The first candidate that is not below an amount.
proof fn lemma_first_not_below(sizes: Seq<DecimalView>, amount: int, from: int) -> (k: int)
    requires
        0 <= from < sizes.len(),
        amount <= sizes[from].units(),
    ensures
        0 <= k <= from,
        amount <= sizes[k].units(),
        k > 0 ==> sizes[k - 1].units() < amount,
    decreases from,
{
    if from > 0 && amount <= sizes[from - 1].units() {
        lemma_first_not_below(sizes, amount, from - 1)
    } else {
        from
    }
}

/// Where no opportunity is reported and nothing is rounded, no size whatever earns more than
/// the minimum.
pub proof fn no_size_earns_where_none_is_reported(
    up: OrderBook,
    down: OrderBook,
    terms: Terms,
    detected_at: Timestamp,
    direction: ArbitrageDirection,
    size: DecimalView,
)
    requires
        buy_arbitrage(up, down, terms, detected_at) == Some(None::<OpportunityView>),
        direction_of(up, down) == Some(direction),
        all_usable(ladder_view(up.asks@)),
        all_usable(ladder_view(down.asks@)),
        valid_levels(ladder_view(up.asks@)),
        valid_levels(ladder_view(down.asks@)),
        sound_terms(terms),
        up.asks@.len() > 0 && down.asks@.len() > 0 ==> unrounded_candidates(
            ladder_view(up.asks@),
            ladder_view(down.asks@),
            terms,
        ),
        size.valid(),
        opportunity_at(
            ladder_view(up.asks@),
            ladder_view(down.asks@),
            size,
            terms,
            direction,
            detected_at,
        ) matches Some(Some(_)) ==> unrounded_at(
            ladder_view(up.asks@),
            ladder_view(down.asks@),
            size,
            terms,
        ),
    ensures
        !(opportunity_at(
            ladder_view(up.asks@),
            ladder_view(down.asks@),
            size,
            terms,
            direction,
            detected_at,
        ) matches Some(Some(_))),
{
    let up_levels = ladder_view(up.asks@);
    let down_levels = ladder_view(down.asks@);
    if opportunity_at(up_levels, down_levels, size, terms, direction, detected_at) matches Some(
        Some(_),
    ) {
        assert(up_levels.len() > 0 && down_levels.len() > 0);
        let maximum = depth(up_levels)->0.smaller(depth(down_levels)->0);
        let first = breakpoints_from(up_levels, 0, zero(), maximum)->0;
        let second = breakpoints_from(down_levels, 0, zero(), maximum)->0;
        let listed = seq![maximum] + first + second;
        let sizes = candidate_sizes(up_levels, down_levels, maximum)->0;
        lemma_gain_decides(up_levels, down_levels, size, terms, direction, detected_at);
        zero_units();
        lemma_depth_spans(up_levels, 0, zero(), depth(up_levels)->0);
        lemma_depth_spans(down_levels, 0, zero(), depth(down_levels)->0);
        positive_units(size);
        positive_units(maximum);
        let amount = size.units();
        assert(amount <= maximum.units());
        lemma_numbers_of_parts(maximum, first, second);
        lemma_ascending(listed);
        lemma_ascending_keeps(listed, maximum.units());
        let top = choose|i: int|
            0 <= i < sizes.len() && (#[trigger] sizes[i]).units() == maximum.units();
        let k = lemma_first_not_below(sizes, amount, top);
        let high = sizes[k].units();
        let low = if k == 0 {
            0
        } else {
            sizes[k - 1].units()
        };
        if k < top {
            assert(sizes[k].lt(sizes[top]));
        }
        if k > 0 {
            positive_units(sizes[k - 1]);
        }
        assert forall|end: int| 0 <= end <= up_levels.len() implies !(low < #[trigger] span(
            up_levels,
            0,
            end,
        ) < high) by {
            lemma_no_level_ends_between(up_levels, sizes, listed, maximum, k, low, end);
        }
        assert forall|end: int| 0 <= end <= down_levels.len() implies !(low < #[trigger] span(
            down_levels,
            0,
            end,
        ) < high) by {
            lemma_no_level_ends_between(down_levels, sizes, listed, maximum, k, low, end);
        }
        lemma_cost_is_linear(up_levels, 0, low, amount, high);
        lemma_cost_is_linear(down_levels, 0, low, amount, high);
        lemma_last_opportunity(
            up_levels,
            down_levels,
            sizes,
            0,
            terms,
            direction,
            detected_at,
            None,
        );
        let one = whole(1).units();
        let most = terms.minimum_profit.units() * one * one;
        positive_units(terms.minimum_profit);
        positive_units(whole(1));
        assert(most >= 0) by (nonlinear_arith)
            requires
                most == terms.minimum_profit.units() * one * one,
                terms.minimum_profit.units() >= 0,
                one > 0,
        ;
        lemma_gain_decides(up_levels, down_levels, sizes[k], terms, direction, detected_at);
        if k == 0 {
            assert(cost_units(up_levels, 0, 0) == 0 && cost_units(down_levels, 0, 0) == 0);
            let charges = one + terms.fee_rate.units() + terms.slippage_buffer.units();
            assert(0 * one * one - (0 + 0) * charges == 0) by (nonlinear_arith);
        } else {
            lemma_gain_decides(
                up_levels,
                down_levels,
                sizes[k - 1],
                terms,
                direction,
                detected_at,
            );
        }
        lemma_gain_between(up_levels, down_levels, terms, low, amount, high, most);
    }
}

} // verus!
