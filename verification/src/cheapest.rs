//! What a fill-or-kill purchase guarantees: it pays as little as the book allows, whatever the
//! order in which the book lists its levels.
use vstd::prelude::*;

use crate::decimal::{
    exact_product, exact_products_multiply, exact_quotients_divide, exact_sum, exact_sums_add_up,
    has_quotient, is_quotient, miss, negated_units, positive_units, quotients_are_close, whole,
    zero, zero_units, DecimalView, MANTISSA_LIMIT, MAX_SCALE,
};
use crate::domain::{
    cost_from, cost_of, is_usable, unrounded_cost, unrounded_from, OrderStatus,
};
use crate::execution::{
    all_usable, bought_from, fok, offered_from, request_valid, FillView, RequestView,
};
use crate::ladder::{
    bought_amount, buyable, by_price, in_order, nothing_cheaper_follows, offer_below, offer_within,
    offers_grow, paid_amount, payment_is_bounded, saving_against, sorted, sorting_keeps_levels,
    total_from, totals_ignore_order, LevelView,
};

verus! {

/// Every number of a ladder is representable.
pub open spec fn valid_levels(levels: Seq<LevelView>) -> bool {
    forall|i: int|
        0 <= i < levels.len() ==> (#[trigger] levels[i]).price.valid()
            && levels[i].quantity.valid()
}

/// Nothing is rounded in adding up what is offered from `start` on within a limit.
pub open spec fn unrounded_offer(
    levels: Seq<LevelView>,
    start: int,
    limit: DecimalView,
    total: DecimalView,
) -> bool
    decreases levels.len() - start,
{
    if start < 0 || start >= levels.len() {
        true
    } else if levels[start].price.le(limit) {
        match exact_sum(total, levels[start].quantity) {
            Some(next) => unrounded_offer(levels, start + 1, limit, next),
            None => false,
        }
    } else {
        unrounded_offer(levels, start + 1, limit, total)
    }
}

/// Nothing is rounded in buying `remaining` from `start` on within a limit.
pub open spec fn unrounded_purchase(
    levels: Seq<LevelView>,
    start: int,
    limit: DecimalView,
    remaining: DecimalView,
    cost: DecimalView,
) -> bool
    decreases levels.len() - start,
{
    if start < 0 || start >= levels.len() {
        true
    } else if !levels[start].price.le(limit) {
        unrounded_purchase(levels, start + 1, limit, remaining, cost)
    } else {
        let filled = remaining.smaller(levels[start].quantity);
        match (exact_product(filled, levels[start].price), exact_sum(remaining, filled.negated())) {
            (Some(paid), Some(rest)) => match exact_sum(cost, paid) {
                Some(next_cost) => !rest.is_positive() || unrounded_purchase(
                    levels,
                    start + 1,
                    limit,
                    rest,
                    next_cost,
                ),
                None => false,
            },
            _ => false,
        }
    }
}

/// Nothing is rounded in adding up the offer and the cost of a fill-or-kill purchase.
pub open spec fn unrounded_fok(request: RequestView, asks: Seq<LevelView>) -> bool {
    let levels = by_price(asks, false);
    let limit = request.limit_price;
    &&& unrounded_offer(levels, 0, limit, zero())
    &&& match offered_from(levels, 0, limit, zero()) {
        Some(offered) => offered.lt(request.quantity) || unrounded_purchase(
            levels,
            0,
            limit,
            request.quantity,
            zero(),
        ),
        None => true,
    }
}

/// A request and a book of representable numbers.
pub open spec fn valid_purchase(request: RequestView, asks: Seq<LevelView>) -> bool {
    request.quantity.valid() && request.limit_price.valid() && valid_levels(asks)
}

proof fn lemma_offered(
    levels: Seq<LevelView>,
    start: int,
    limit: DecimalView,
    total: DecimalView,
    offered: DecimalView,
)
    requires
        0 <= start,
        valid_levels(levels),
        total.scale <= MAX_SCALE,
        unrounded_offer(levels, start, limit, total),
        offered_from(levels, start, limit, total) == Some(offered),
    ensures
        offered.units() == total.units() + total_from(levels, start, offer_within(limit.units())),
        offered.scale <= MAX_SCALE,
    decreases levels.len() - start,
{
    if start < levels.len() {
        if levels[start].price.le(limit) {
            let next = exact_sum(total, levels[start].quantity)->0;
            exact_sums_add_up(total, levels[start].quantity, next);
            lemma_offered(levels, start + 1, limit, next, offered);
        } else {
            lemma_offered(levels, start + 1, limit, total, offered);
        }
    }
}

proof fn lemma_nothing_within_follows(levels: Seq<LevelView>, place: int, start: int, limit: int)
    requires
        sorted(levels, false),
        0 <= place <= start,
        place < levels.len(),
        levels[place].price.units() > limit,
    ensures
        total_from(levels, start, offer_within(limit)) == 0,
    decreases levels.len() - start,
{
    if start < levels.len() {
        lemma_nothing_within_follows(levels, place, start + 1, limit);
        if place < start {
            assert(in_order(levels[place], levels[start], false));
        }
    }
}

/// A price is that of the last level which is needed for an amount.
pub open spec fn is_marginal(levels: Seq<LevelView>, start: int, amount: int, price: int) -> bool {
    &&& total_from(levels, start, offer_below(price)) < amount
    &&& total_from(levels, start, offer_within(price)) >= amount
}

proof fn lemma_positive_offers(levels: Seq<LevelView>)
    requires
        all_usable(levels),
    ensures
        forall|i: int| 0 <= i < levels.len() ==> (#[trigger] levels[i]).quantity.units() > 0,
{
    assert forall|i: int| 0 <= i < levels.len() implies (#[trigger] levels[i]).quantity.units()
        > 0 by {
        assert(is_usable(levels[i]));
        positive_units(levels[i].quantity);
    }
}

#[verifier::spinoff_prover]
#[verifier::rlimit(40)]
proof fn lemma_bought(
    levels: Seq<LevelView>,
    start: int,
    limit: DecimalView,
    remaining: DecimalView,
    cost: DecimalView,
    worst: Option<DecimalView>,
    total: DecimalView,
    last: Option<DecimalView>,
)
    requires
        0 <= start,
        sorted(levels, false),
        all_usable(levels),
        valid_levels(levels),
        remaining.is_positive(),
        remaining.scale <= MAX_SCALE,
        cost.scale <= MAX_SCALE,
        unrounded_purchase(levels, start, limit, remaining, cost),
        bought_from(levels, start, limit, remaining, cost, worst) == Some((total, last)),
        total_from(levels, start, offer_within(limit.units())) >= remaining.units(),
    ensures
        last matches Some(price) && {
            &&& exists|place: int|
                start <= place < levels.len() && (#[trigger] levels[place]).price == price
            &&& price.le(limit)
            &&& is_marginal(levels, start, remaining.units(), price.units())
            &&& (total.units() - cost.units()) * whole(1).units() == price.units()
                * remaining.units() - total_from(levels, start, saving_against(price.units()))
        },
        total.scale <= MAX_SCALE,
    decreases levels.len() - start,
{
    let one = whole(1).units();
    positive_units(remaining);
    lemma_positive_offers(levels);
    if start < levels.len() {
        let level = levels[start];
        if !level.price.le(limit) {
            lemma_nothing_within_follows(levels, start, start, limit.units());
        } else {
            let filled = remaining.smaller(level.quantity);
            let paid = exact_product(filled, level.price)->0;
            let rest = exact_sum(remaining, filled.negated())->0;
            let next_cost = exact_sum(cost, paid)->0;
            assert(is_usable(level));
            positive_units(filled);
            positive_units(rest);
            exact_products_multiply(filled, level.price, paid);
            exact_sums_add_up(cost, paid, next_cost);
            exact_sums_add_up(remaining, filled.negated(), rest);
            negated_units(filled);
            offers_grow(levels, start + 1, level.price.units(), level.price.units() + 1);
            let (r, q, p) = (remaining.units(), level.quantity.units(), level.price.units());
            if !rest.is_positive() {
                assert(filled.units() == r);
                nothing_cheaper_follows(levels, start, start);
                assert(paid.units() * one == p * r) by (nonlinear_arith)
                    requires
                        paid.units() * one == r * p,
                ;
                assert(last == Some(level.price));
                assert(levels[start].price == level.price);
            } else {
                assert(filled.units() == q);
                lemma_bought(
                    levels,
                    start + 1,
                    limit,
                    rest,
                    next_cost,
                    Some(level.price),
                    total,
                    last,
                );
                let price = last->0;
                let place = choose|place: int|
                    start + 1 <= place < levels.len() && (#[trigger] levels[place]).price == price;
                assert(in_order(levels[start], levels[place], false));
                let w = price.units();
                let saved = total_from(levels, start + 1, saving_against(w));
                let (t, n, c, x) = (
                    total.units(),
                    next_cost.units(),
                    cost.units(),
                    paid.units(),
                );
                assert((t - c) * one == w * r - (q * (w - p) + saved)) by (nonlinear_arith)
                    requires
                        (t - n) * one == w * (r - q) - saved,
                        n == c + x,
                        x * one == q * p,
                ;
                if p == w {
                    assert(q * (w - p) == 0) by (nonlinear_arith)
                        requires
                            w == p,
                    ;
                }
            }
        }
    }
}

/// What a filled purchase comes to: the price of the last level that is needed decides the
/// cost, less what the cheaper levels save.
pub open spec fn settled_at(asks: Seq<LevelView>, fill: FillView, price: DecimalView) -> bool {
    &&& exists|i: int| 0 <= i < asks.len() && (#[trigger] asks[i]).price == price
    &&& price.le(fill.limit_price)
    &&& is_marginal(asks, 0, fill.requested_quantity.units(), price.units())
    &&& fill.total_cost.units() * whole(1).units() == price.units()
        * fill.requested_quantity.units() - total_from(asks, 0, saving_against(price.units()))
}

/// A fill-or-kill purchase ends at the price of the last level that it needs: less than its
/// quantity is offered below that price, and enough at it. Its cost is that price for all of
/// it, less what the cheaper levels save.
pub proof fn fok_ends_at_the_marginal_price(
    request: RequestView,
    asks: Seq<LevelView>,
    fill: FillView,
)
    requires
        fok(request, asks) == Some(fill),
        fill.status == OrderStatus::FullyFilled,
        valid_purchase(request, asks),
        unrounded_fok(request, asks),
    ensures
        fill.worst_price matches Some(price) && settled_at(asks, fill, price),
        fill.total_cost.scale <= MAX_SCALE,
{
    broadcast use vstd::seq_lib::group_to_multiset_ensures;

    let levels = by_price(asks, false);
    sorting_keeps_levels(asks, false);
    lemma_same_levels(asks, levels);
    let limit = request.limit_price;
    let offered = offered_from(levels, 0, limit, zero())->0;
    zero_units();
    positive_units(request.quantity);
    lemma_offered(levels, 0, limit, zero(), offered);
    lemma_bought(
        levels,
        0,
        limit,
        request.quantity,
        zero(),
        None,
        fill.total_cost,
        fill.worst_price,
    );
    let price = fill.worst_price->0;
    let w = price.units();
    totals_ignore_order(levels, asks, offer_below(w));
    totals_ignore_order(levels, asks, offer_within(w));
    totals_ignore_order(levels, asks, saving_against(w));
    let place = choose|place: int|
        0 <= place < levels.len() && (#[trigger] levels[place]).price == price;
    assert(levels.to_multiset().count(levels[place]) > 0) by {
        assert(levels.contains(levels[place]));
    }
    assert(asks.contains(levels[place]));
    let i = asks.index_of(levels[place]);
    assert(asks[i].price == price);
}

/// Levels in another order are usable and representable as before.
proof fn lemma_same_levels(asks: Seq<LevelView>, other: Seq<LevelView>)
    requires
        asks.to_multiset() == other.to_multiset(),
    ensures
        all_usable(asks) <==> all_usable(other),
        valid_levels(asks) <==> valid_levels(other),
{
    broadcast use vstd::seq_lib::group_to_multiset_ensures;

    assert forall|i: int| 0 <= i < asks.len() implies other.contains(#[trigger] asks[i]) by {
        assert(asks.contains(asks[i]));
        assert(asks.to_multiset().count(asks[i]) > 0);
    }
    assert forall|i: int| 0 <= i < other.len() implies asks.contains(#[trigger] other[i]) by {
        assert(other.contains(other[i]));
        assert(other.to_multiset().count(other[i]) > 0);
    }
    if all_usable(other) {
        assert forall|i: int| 0 <= i < asks.len() implies is_usable(#[trigger] asks[i]) by {
            let k = other.index_of(asks[i]);
            assert(is_usable(other[k]));
        }
    }
    if all_usable(asks) {
        assert forall|i: int| 0 <= i < other.len() implies is_usable(#[trigger] other[i]) by {
            let k = asks.index_of(other[i]);
            assert(is_usable(asks[k]));
        }
    }
    if valid_levels(other) {
        assert forall|i: int| 0 <= i < asks.len() implies (#[trigger] asks[i]).price.valid()
            && asks[i].quantity.valid() by {
            let k = other.index_of(asks[i]);
            assert(other[k].price.valid());
        }
    }
    if valid_levels(asks) {
        assert forall|i: int| 0 <= i < other.len() implies (#[trigger] other[i]).price.valid()
            && other[i].quantity.valid() by {
            let k = asks.index_of(other[i]);
            assert(asks[k].price.valid());
        }
    }
}

/// No way of buying the quantity of a fill-or-kill purchase from the book is cheaper.
pub proof fn fok_is_the_cheapest_purchase(
    request: RequestView,
    asks: Seq<LevelView>,
    fill: FillView,
    amounts: Seq<int>,
)
    requires
        fok(request, asks) == Some(fill),
        fill.status == OrderStatus::FullyFilled,
        valid_purchase(request, asks),
        unrounded_fok(request, asks),
        buyable(asks, amounts),
        bought_amount(amounts, 0) == request.quantity.units(),
    ensures
        fill.total_cost.units() * whole(1).units() <= paid_amount(asks, amounts, 0),
{
    fok_ends_at_the_marginal_price(request, asks, fill);
    payment_is_bounded(asks, amounts, 0, fill.worst_price->0.units());
}

/// The average price of a fill-or-kill purchase, rounded as it may be, is at most the worst one.
pub proof fn fok_average_is_at_most_the_worst(
    request: RequestView,
    asks: Seq<LevelView>,
    fill: FillView,
)
    requires
        fok(request, asks) == Some(fill),
        fill.status == OrderStatus::FullyFilled,
        valid_purchase(request, asks),
        unrounded_fok(request, asks),
    ensures
        fill.average_price matches Some(average) && fill.worst_price matches Some(worst)
            && average.le(worst) && worst.le(request.limit_price),
{
    fok_ends_at_the_marginal_price(request, asks, fill);
    let average = fill.average_price->0;
    let worst = fill.worst_price->0;
    quotients_are_close(fill.total_cost, request.quantity, average);
    positive_units(request.quantity);
    positive_units(worst);
    lemma_savings_are_not_negative(asks, 0, worst.units());
    let (a, w, q, c) = (
        average.units(),
        worst.units(),
        request.quantity.units(),
        fill.total_cost.units() * whole(1).units(),
    );
    let off = miss(fill.total_cost, request.quantity, average);
    assert(w <= 10_000_000_000_000_000_000_000_000_000) by {
        reveal_with_fuel(crate::decimal::pow10, 29);
    }
    assert(w > 0) by {
        let i = choose|i: int| 0 <= i < asks.len() && (#[trigger] asks[i]).price == worst;
        assert(is_usable(asks[i]));
    }
    if a > w {
        let room: int = MANTISSA_LIMIT - 10;
        assert(off >= (a - w) * q) by (nonlinear_arith)
            requires
                off >= a * q - c,
                c <= w * q,
        ;
        assert(2 * off > q) by (nonlinear_arith)
            requires
                off >= (a - w) * q,
                a - w >= 1,
                q > 0,
        ;
        assert(off * room > 5 * q * a) by (nonlinear_arith)
            requires
                off >= (a - w) * q,
                a - w >= 1,
                q > 0,
                room == 79_228_162_514_264_337_593_543_950_326,
                0 < w <= 10_000_000_000_000_000_000_000_000_000,
        ;
    }
}

proof fn lemma_savings_are_not_negative(levels: Seq<LevelView>, start: int, price: int)
    requires
        all_usable(levels),
        0 <= start,
    ensures
        total_from(levels, start, saving_against(price)) >= 0,
    decreases levels.len() - start,
{
    if start < levels.len() {
        lemma_savings_are_not_negative(levels, start + 1, price);
        lemma_positive_offers(levels);
        let (q, p) = (levels[start].quantity.units(), levels[start].price.units());
        if p < price {
            assert(q * (price - p) >= 0) by (nonlinear_arith)
                requires
                    q > 0,
                    p < price,
            ;
        }
    }
}

proof fn lemma_one_marginal_price(levels: Seq<LevelView>, amount: int, first: int, second: int)
    requires
        all_usable(levels),
        is_marginal(levels, 0, amount, first),
        is_marginal(levels, 0, amount, second),
    ensures
        first == second,
{
    lemma_positive_offers(levels);
    if first < second {
        offers_grow(levels, 0, first, second);
    } else if second < first {
        offers_grow(levels, 0, second, first);
    }
}

/// Two optional decimals are the same number, or both are absent.
pub open spec fn same_option(a: Option<DecimalView>, b: Option<DecimalView>) -> bool {
    match (a, b) {
        (Some(x), Some(y)) => x.same(y),
        (None, None) => true,
        _ => false,
    }
}

/// A fill-or-kill purchase comes to the same numbers whatever the order of the asks, even where
/// levels share a price. Its average price does so where it is not rounded.
pub proof fn fok_ignores_the_order_of_asks(
    request: RequestView,
    asks: Seq<LevelView>,
    other_asks: Seq<LevelView>,
    fill: FillView,
    other: FillView,
)
    requires
        asks.to_multiset() == other_asks.to_multiset(),
        fok(request, asks) == Some(fill),
        fok(request, other_asks) == Some(other),
        valid_purchase(request, asks),
        unrounded_fok(request, asks),
        unrounded_fok(request, other_asks),
    ensures
        fill.status == other.status,
        fill.reason == other.reason,
        fill.filled_quantity == other.filled_quantity,
        fill.total_cost.same(other.total_cost),
        same_option(fill.worst_price, other.worst_price),
        has_quotient(fill.total_cost, request.quantity) ==> same_option(
            fill.average_price,
            other.average_price,
        ),
        fill.average_price is Some <==> other.average_price is Some,
{
    let levels = by_price(asks, false);
    let other_levels = by_price(other_asks, false);
    let limit = request.limit_price;
    sorting_keeps_levels(asks, false);
    sorting_keeps_levels(other_asks, false);
    lemma_same_levels(asks, other_asks);
    lemma_same_levels(asks, levels);
    lemma_same_levels(asks, other_levels);
    if request_valid(request) && all_usable(asks) {
        zero_units();
        let offered = offered_from(levels, 0, limit, zero())->0;
        let other_offered = offered_from(other_levels, 0, limit, zero())->0;
        lemma_offered(levels, 0, limit, zero(), offered);
        lemma_offered(other_levels, 0, limit, zero(), other_offered);
        totals_ignore_order(levels, other_levels, offer_within(limit.units()));
        if fill.status == OrderStatus::FullyFilled {
            fok_ends_at_the_marginal_price(request, asks, fill);
            fok_ends_at_the_marginal_price(request, other_asks, other);
            let (w, v) = (fill.worst_price->0.units(), other.worst_price->0.units());
            totals_ignore_order(asks, other_asks, offer_below(v));
            totals_ignore_order(asks, other_asks, offer_within(v));
            totals_ignore_order(asks, other_asks, saving_against(w));
            lemma_one_marginal_price(asks, request.quantity.units(), w, v);
            positive_units(whole(1));
            positive_units(request.quantity);
            let (c, d, one) = (
                fill.total_cost.units(),
                other.total_cost.units(),
                whole(1).units(),
            );
            assert(c == d) by (nonlinear_arith)
                requires
                    c * one == d * one,
                    one > 0,
            ;
            if has_quotient(fill.total_cost, request.quantity) {
                let value = choose|value: DecimalView|
                    is_quotient(fill.total_cost, request.quantity, value);
                assert(is_quotient(other.total_cost, request.quantity, value));
                exact_quotients_divide(fill.total_cost, request.quantity, fill.average_price->0);
                exact_quotients_divide(other.total_cost, request.quantity, other.average_price->0);
                let (a, b, q) = (
                    fill.average_price->0.units(),
                    other.average_price->0.units(),
                    request.quantity.units(),
                );
                assert(a == b) by (nonlinear_arith)
                    requires
                        a * q == b * q,
                        q > 0,
                ;
            }
        }
    }
}

/// Levels of the same price are one and the same, as in a book that lists each price once.
pub open spec fn prices_are_distinct(levels: Seq<LevelView>) -> bool {
    forall|i: int, j: int|
        0 <= i < levels.len() && 0 <= j < levels.len() && (#[trigger] levels[i]).price.same(
            (#[trigger] levels[j]).price,
        ) ==> levels[i] == levels[j]
}

proof fn lemma_sorted_once(first: Seq<LevelView>, second: Seq<LevelView>)
    requires
        sorted(first, false),
        sorted(second, false),
        first.to_multiset() == second.to_multiset(),
        prices_are_distinct(first),
    ensures
        first == second,
    decreases first.len(),
{
    broadcast use vstd::seq_lib::group_to_multiset_ensures;

    assert(first.to_multiset().len() == first.len());
    assert(second.to_multiset().len() == second.len());
    if first.len() > 0 {
        let (a, b) = (first.last(), second.last());
        assert(second.to_multiset().count(a) > 0) by {
            assert(first.contains(first[first.len() - 1]));
        }
        assert(first.to_multiset().count(b) > 0) by {
            assert(second.contains(second[second.len() - 1]));
        }
        let i = first.index_of(b);
        let j = second.index_of(a);
        if i < first.len() - 1 {
            assert(in_order(first[i], first[first.len() - 1], false));
        }
        if j < second.len() - 1 {
            assert(in_order(second[j], second[second.len() - 1], false));
        }
        assert(first[i].price.same(first[first.len() - 1].price));
        assert(a == b);
        let (left, right) = (first.drop_last(), second.drop_last());
        assert(first =~= left.push(a));
        assert(second =~= right.push(a));
        assert(left.to_multiset() =~= first.to_multiset().remove(a));
        assert(right.to_multiset() =~= second.to_multiset().remove(a));
        lemma_sorted_once(left, right);
    } else {
        assert(first =~= second);
    }
}

/// Where no two levels share a price, a fill-or-kill purchase is the same in every respect,
/// whatever the order of the asks and however it is rounded.
pub proof fn fok_is_equal_for_reordered_asks(
    request: RequestView,
    asks: Seq<LevelView>,
    other_asks: Seq<LevelView>,
)
    requires
        asks.to_multiset() == other_asks.to_multiset(),
        prices_are_distinct(asks),
    ensures
        fok(request, asks) == fok(request, other_asks),
{
    broadcast use vstd::seq_lib::group_to_multiset_ensures;

    let levels = by_price(asks, false);
    let other_levels = by_price(other_asks, false);
    sorting_keeps_levels(asks, false);
    sorting_keeps_levels(other_asks, false);
    lemma_same_levels(asks, other_asks);
    assert(prices_are_distinct(levels)) by {
        assert forall|i: int, j: int|
            0 <= i < levels.len() && 0 <= j < levels.len() && (#[trigger] levels[i]).price.same(
                (#[trigger] levels[j]).price,
            ) implies levels[i] == levels[j] by {
            assert(levels.contains(levels[i]) && levels.contains(levels[j]));
            assert(asks.to_multiset().count(levels[i]) > 0);
            assert(asks.to_multiset().count(levels[j]) > 0);
            let (k, l) = (asks.index_of(levels[i]), asks.index_of(levels[j]));
            assert(asks[k].price.same(asks[l].price));
        }
    }
    lemma_sorted_once(levels, other_levels);
}

/// Where a price is needed for a quantity, no limit below it fills the quantity.
pub proof fn lower_limits_do_not_fill(
    quantity: DecimalView,
    price: DecimalView,
    limit: DecimalView,
    asks: Seq<LevelView>,
    fill: FillView,
)
    requires
        all_usable(asks),
        quantity.valid(),
        valid_levels(asks),
        is_marginal(asks, 0, quantity.units(), price.units()),
        limit.lt(price),
        fok(RequestView { quantity, limit_price: limit }, asks) == Some(fill),
        unrounded_offer(by_price(asks, false), 0, limit, zero()),
    ensures
        fill.status != OrderStatus::FullyFilled,
{
    let levels = by_price(asks, false);
    sorting_keeps_levels(asks, false);
    lemma_same_levels(asks, levels);
    if fill.status == OrderStatus::FullyFilled {
        let offered = offered_from(levels, 0, limit, zero())->0;
        zero_units();
        lemma_offered(levels, 0, limit, zero(), offered);
        totals_ignore_order(levels, asks, offer_within(limit.units()));
        lemma_positive_offers(asks);
        offers_grow(asks, 0, limit.units(), price.units());
    }
}

/// The cost of buying `remaining` in order is one price for all of it, less what the cheaper
/// levels save.
proof fn lemma_cost_walk(
    levels: Seq<LevelView>,
    start: int,
    remaining: DecimalView,
    cost: DecimalView,
    total: DecimalView,
) -> (price: int)
    requires
        sorted(levels, false),
        valid_levels(levels),
        remaining.is_positive(),
        remaining.scale <= MAX_SCALE,
        cost.scale <= MAX_SCALE,
        cost_from(levels, start, remaining, cost) == Some(Some(total)),
        unrounded_from(levels, start, remaining, cost),
    ensures
        exists|place: int|
            start <= place < levels.len() && (#[trigger] levels[place]).price.units() == price,
        (total.units() - cost.units()) * whole(1).units() == price * remaining.units()
            - total_from(levels, start, saving_against(price)),
    decreases levels.len() - start,
{
    let one = whole(1).units();
    let level = levels[start];
    let take = remaining.smaller(level.quantity);
    let paid = exact_product(take, level.price)->0;
    let rest = exact_sum(remaining, take.negated())->0;
    let next_cost = exact_sum(cost, paid)->0;
    positive_units(remaining);
    positive_units(level.quantity);
    positive_units(rest);
    exact_products_multiply(take, level.price, paid);
    exact_sums_add_up(cost, paid, next_cost);
    exact_sums_add_up(remaining, take.negated(), rest);
    negated_units(take);
    let (r, q, p, x) = (
        remaining.units(),
        level.quantity.units(),
        level.price.units(),
        paid.units(),
    );
    if rest.mantissa == 0 {
        nothing_cheaper_follows(levels, start, start);
        assert(x * one == p * r) by (nonlinear_arith)
            requires
                x * one == r * p,
        ;
        p
    } else {
        let w = lemma_cost_walk(levels, start + 1, rest, next_cost, total);
        let place = choose|place: int|
            start + 1 <= place < levels.len() && (#[trigger] levels[place]).price.units() == w;
        assert(in_order(levels[start], levels[place], false));
        let saved = total_from(levels, start + 1, saving_against(w));
        let (t, n, c) = (total.units(), next_cost.units(), cost.units());
        assert((t - c) * one == w * r - (q * (w - p) + saved)) by (nonlinear_arith)
            requires
                (t - n) * one == w * (r - q) - saved,
                n == c + x,
                x * one == q * p,
        ;
        if p == w {
            assert(q * (w - p) == 0) by (nonlinear_arith)
                requires
                    w == p,
            ;
        }
        w
    }
}

/// In a book whose asks ascend, buying in order is the cheapest way to buy a quantity.
pub proof fn ascending_asks_are_cheapest_in_order(
    levels: Seq<LevelView>,
    quantity: DecimalView,
    cost: DecimalView,
    amounts: Seq<int>,
)
    requires
        sorted(levels, false),
        valid_levels(levels),
        quantity.valid(),
        cost_of(levels, quantity) == Some(Some(cost)),
        unrounded_cost(levels, quantity),
        buyable(levels, amounts),
        bought_amount(amounts, 0) == quantity.units(),
    ensures
        cost.units() * whole(1).units() <= paid_amount(levels, amounts, 0),
{
    zero_units();
    let price = lemma_cost_walk(levels, 0, quantity, zero(), cost);
    payment_is_bounded(levels, amounts, 0, price);
}

} // verus!
