//! Purchases that take the levels of a ladder in turn: what is taken where, and what it comes to.
use vstd::prelude::*;

use crate::basis::{consumed, consumed_at_limit_from, consumed_from, limit_from};
use crate::cross::{fee_from, level_fee, polymarket_fee};
use crate::decimal::{
    difference, difference_miss, plus, positive_units, pow10, product, product_miss, quotient_miss,
    quotients_are_close, rounding_is_to_the_nearest, rounding_moves_half_a_place, size_of_number,
    sum, sum_miss, whole, whole_units, within_rounding, zero, zero_units, DecimalView, MAX_SCALE,
};
use crate::domain::{cost_from, cost_of, is_usable, quantity_from, OrderStatus};
use crate::execution::{bought_from, fok, offered_from, FillView, RequestView};
use crate::ladder::{bought_amount, by_price, depth, depth_from, total_from, LevelView};

verus! {

/// No level offers less than nothing.
pub open spec fn offers(levels: Seq<LevelView>) -> bool {
    forall|i: int| 0 <= i < levels.len() ==> #[trigger] levels[i].quantity.units() >= 0
}

/// Amounts that buy `wanted` units in all: never more of a level than it offers, nothing of a
/// level that is not allowed, and nothing of a level before those ahead of it are sold out.
pub open spec fn bought_in_turn(
    levels: Seq<LevelView>,
    amounts: Seq<int>,
    wanted: int,
    allowed: spec_fn(LevelView) -> bool,
) -> bool {
    &&& amounts.len() == levels.len()
    &&& bought_amount(amounts, 0) == wanted
    &&& forall|i: int|
        0 <= i < levels.len() ==> 0 <= #[trigger] amounts[i] <= levels[i].quantity.units()
    &&& forall|i: int|
        0 <= i < levels.len() && !allowed(levels[i]) ==> #[trigger] amounts[i] == 0
    &&& forall|i: int, j: int|
        0 <= i < j < levels.len() && allowed(levels[i]) && #[trigger] amounts[j] > 0
            ==> #[trigger] amounts[i] == levels[i].quantity.units()
}

/// Each amount times the weight of its level, summed up from `start` on.
pub open spec fn weighed(
    levels: Seq<LevelView>,
    amounts: Seq<int>,
    weight: spec_fn(LevelView) -> int,
    start: int,
) -> int
    decreases amounts.len() - start,
{
    if start < 0 || start >= amounts.len() {
        0
    } else {
        amounts[start] * weight(levels[start]) + weighed(levels, amounts, weight, start + 1)
    }
}

/// What the allowed ones among the first `count` levels offer.
pub open spec fn offered_before(
    levels: Seq<LevelView>,
    count: int,
    allowed: spec_fn(LevelView) -> bool,
) -> int
    decreases count,
{
    if count <= 0 || count > levels.len() {
        0
    } else {
        offered_before(levels, count - 1, allowed) + if allowed(levels[count - 1]) {
            levels[count - 1].quantity.units()
        } else {
            0
        }
    }
}

/// What is taken of one level where `left` is still wanted.
spec fn part(level: LevelView, left: int, allowed: spec_fn(LevelView) -> bool) -> int {
    if !allowed(level) || left <= 0 {
        0
    } else if left <= level.quantity.units() {
        left
    } else {
        level.quantity.units()
    }
}

spec fn in_turn(
    levels: Seq<LevelView>,
    wanted: int,
    allowed: spec_fn(LevelView) -> bool,
) -> Seq<int> {
    Seq::new(
        levels.len(),
        |i: int| part(levels[i], wanted - offered_before(levels, i, allowed), allowed),
    )
}

proof fn lemma_offered_grows(
    levels: Seq<LevelView>,
    low: int,
    high: int,
    allowed: spec_fn(LevelView) -> bool,
)
    requires
        offers(levels),
        0 <= low <= high <= levels.len(),
    ensures
        offered_before(levels, low, allowed) <= offered_before(levels, high, allowed),
    decreases high - low,
{
    if low < high {
        lemma_offered_grows(levels, low, high - 1, allowed);
        assert(levels[high - 1].quantity.units() >= 0);
    }
}

proof fn lemma_in_turn_sums(
    levels: Seq<LevelView>,
    wanted: int,
    allowed: spec_fn(LevelView) -> bool,
    start: int,
)
    requires
        offers(levels),
        0 <= start <= levels.len(),
        wanted <= offered_before(levels, levels.len() as int, allowed),
    ensures
        bought_amount(in_turn(levels, wanted, allowed), start) == if wanted > offered_before(
            levels,
            start,
            allowed,
        ) {
            wanted - offered_before(levels, start, allowed)
        } else {
            0
        },
    decreases levels.len() - start,
{
    if start < levels.len() {
        lemma_in_turn_sums(levels, wanted, allowed, start + 1);
        assert(levels[start].quantity.units() >= 0);
    }
}

proof fn lemma_in_turn_buys(
    levels: Seq<LevelView>,
    wanted: int,
    allowed: spec_fn(LevelView) -> bool,
)
    requires
        offers(levels),
        0 < wanted <= offered_before(levels, levels.len() as int, allowed),
    ensures
        bought_in_turn(levels, in_turn(levels, wanted, allowed), wanted, allowed),
{
    let amounts = in_turn(levels, wanted, allowed);
    lemma_in_turn_sums(levels, wanted, allowed, 0);
    assert forall|i: int| 0 <= i < levels.len() implies 0 <= #[trigger] amounts[i]
        <= levels[i].quantity.units() by {
        assert(levels[i].quantity.units() >= 0);
    }
    assert forall|i: int, j: int|
        0 <= i < j < levels.len() && allowed(levels[i]) && #[trigger] amounts[j] > 0 implies #[trigger] amounts[i]
        == levels[i].quantity.units() by {
        lemma_offered_grows(levels, i + 1, j, allowed);
        assert(levels[i].quantity.units() >= 0);
    }
}

/// Past the level that completes a purchase nothing is taken.
proof fn lemma_nothing_is_left(
    levels: Seq<LevelView>,
    wanted: int,
    allowed: spec_fn(LevelView) -> bool,
    weight: spec_fn(LevelView) -> int,
    start: int,
)
    requires
        offers(levels),
        0 <= start <= levels.len(),
        wanted <= offered_before(levels, start, allowed),
    ensures
        weighed(levels, in_turn(levels, wanted, allowed), weight, start) == 0,
        wanted <= offered_before(levels, levels.len() as int, allowed),
    decreases levels.len() - start,
{
    lemma_offered_grows(levels, start, levels.len() as int, allowed);
    if start < levels.len() {
        lemma_offered_grows(levels, start, start + 1, allowed);
        lemma_nothing_is_left(levels, wanted, allowed, weight, start + 1);
    }
}

/// Any level may be taken.
pub open spec fn any_level() -> spec_fn(LevelView) -> bool {
    |level: LevelView| true
}

/// A buyer takes what costs at most the limit, a seller what pays at least the limit.
pub open spec fn within(limit: int, is_buy: bool) -> spec_fn(LevelView) -> bool {
    |level: LevelView|
        if is_buy {
            level.price.units() <= limit
        } else {
            level.price.units() >= limit
        }
}

/// The price of a level, in units.
pub open spec fn price_of() -> spec_fn(LevelView) -> int {
    |level: LevelView| level.price.units()
}

/// The fee rate times the price of a level times what the price leaves to one, in units of
/// units of units.
pub open spec fn fee_of(rate: int) -> spec_fn(LevelView) -> int {
    |level: LevelView| rate * level.price.units() * (whole(1).units() - level.price.units())
}

/// Nothing is rounded in taking `remaining` from the allowed levels from `start` on.
pub open spec fn unrounded_turns(
    levels: Seq<LevelView>,
    start: int,
    allowed: spec_fn(LevelView) -> bool,
    remaining: DecimalView,
    value: DecimalView,
) -> bool
    decreases levels.len() - start,
{
    if start < 0 || start >= levels.len() {
        true
    } else if !allowed(levels[start]) {
        unrounded_turns(levels, start + 1, allowed, remaining, value)
    } else {
        let taken = remaining.smaller(levels[start].quantity);
        match (product(taken, levels[start].price), difference(remaining, taken)) {
            (Some(paid), Some(rest)) => {
                &&& product_miss(taken, levels[start].price) == 0
                &&& difference_miss(remaining, taken) == 0
                &&& sum(value, paid) is Some
                &&& sum_miss(value, paid) == 0
                &&& rest.is_positive() ==> unrounded_turns(
                    levels,
                    start + 1,
                    allowed,
                    rest,
                    sum(value, paid)->0,
                )
            },
            _ => false,
        }
    }
}

proof fn lemma_taking_at_limit(
    levels: Seq<LevelView>,
    start: int,
    limit: DecimalView,
    is_buy: bool,
    remaining: DecimalView,
    value: DecimalView,
    wanted: int,
)
    requires
        offers(levels),
        0 <= start <= levels.len(),
        0 < remaining.units() == wanted - offered_before(
            levels,
            start,
            within(limit.units(), is_buy),
        ),
        unrounded_turns(levels, start, within(limit.units(), is_buy), remaining, value),
    ensures
        ({
            let allowed = within(limit.units(), is_buy);
            let all = offered_before(levels, levels.len() as int, allowed);
            match consumed_at_limit_from(levels, start, limit, is_buy, remaining, value) {
                Some(Some(paid)) => {
                    &&& wanted <= all
                    &&& paid.units() * whole(1).units() == value.units() * whole(1).units()
                        + weighed(levels, in_turn(levels, wanted, allowed), price_of(), start)
                },
                Some(None) => wanted > all,
                None => false,
            }
        }),
    decreases levels.len() - start,
{
    let allowed = within(limit.units(), is_buy);
    if start < levels.len() {
        let level = levels[start];
        assert(level.quantity.units() >= 0);
        let one = whole(1).units();
        if !allowed(level) {
            assert(0 * level.price.units() == 0);
            lemma_taking_at_limit(levels, start + 1, limit, is_buy, remaining, value, wanted);
        } else {
            let taken = remaining.smaller(level.quantity);
            let paid = product(taken, level.price)->0;
            let rest = difference(remaining, taken)->0;
            let next = sum(value, paid)->0;
            positive_units(rest);
            assert(in_turn(levels, wanted, allowed)[start] == taken.units());
            let (v, p, n) = (value.units(), paid.units(), next.units());
            assert(n * one == v * one + p * one) by (nonlinear_arith)
                requires
                    n == v + p,
            ;
            if rest.is_positive() {
                lemma_taking_at_limit(levels, start + 1, limit, is_buy, rest, next, wanted);
            } else {
                lemma_nothing_is_left(levels, wanted, allowed, price_of(), start + 1);
            }
        }
    }
}

/// Taking a quantity at allowed prices takes the levels in turn: there is a value exactly where
/// the allowed levels offer the whole quantity, and it is what the amounts taken cost, each at
/// the price of its own level.
pub proof fn depth_at_a_limit_is_taken_in_turn(
    levels: Seq<LevelView>,
    quantity: DecimalView,
    limit: DecimalView,
    is_buy: bool,
)
    requires
        offers(levels),
        quantity.is_positive(),
        unrounded_turns(levels, 0, within(limit.units(), is_buy), quantity, zero()),
    ensures
        ({
            let allowed = within(limit.units(), is_buy);
            let all = offered_before(levels, levels.len() as int, allowed);
            match consumed_at_limit_from(levels, 0, limit, is_buy, quantity, zero()) {
                Some(Some(paid)) => {
                    &&& quantity.units() <= all
                    &&& exists|amounts: Seq<int>| #[trigger]
                        bought_in_turn(levels, amounts, quantity.units(), allowed) && weighed(
                            levels,
                            amounts,
                            price_of(),
                            0,
                        ) == paid.units() * whole(1).units()
                },
                Some(None) => quantity.units() > all,
                None => false,
            }
        }),
{
    positive_units(quantity);
    zero_units();
    let allowed = within(limit.units(), is_buy);
    let wanted = quantity.units();
    lemma_taking_at_limit(levels, 0, limit, is_buy, quantity, zero(), wanted);
    if wanted <= offered_before(levels, levels.len() as int, allowed) {
        lemma_in_turn_buys(levels, wanted, allowed);
    }
}

proof fn lemma_taking(
    levels: Seq<LevelView>,
    start: int,
    remaining: DecimalView,
    value: DecimalView,
    wanted: int,
)
    requires
        offers(levels),
        0 <= start <= levels.len(),
        0 < remaining.units() == wanted - offered_before(levels, start, any_level()),
        unrounded_turns(levels, start, any_level(), remaining, value),
    ensures
        ({
            let all = offered_before(levels, levels.len() as int, any_level());
            match consumed_from(levels, start, remaining, value) {
                Some(Some(paid)) => {
                    &&& wanted <= all
                    &&& paid.units() * whole(1).units() == value.units() * whole(1).units()
                        + weighed(levels, in_turn(levels, wanted, any_level()), price_of(), start)
                },
                Some(None) => wanted > all,
                None => false,
            }
        }),
    decreases levels.len() - start,
{
    if start < levels.len() {
        let level = levels[start];
        assert(level.quantity.units() >= 0);
        assert(any_level()(level));
        let one = whole(1).units();
        let taken = remaining.smaller(level.quantity);
        let paid = product(taken, level.price)->0;
        let rest = difference(remaining, taken)->0;
        let next = sum(value, paid)->0;
        positive_units(rest);
        assert(in_turn(levels, wanted, any_level())[start] == taken.units());
        let (v, p, n) = (value.units(), paid.units(), next.units());
        assert(n * one == v * one + p * one) by (nonlinear_arith)
            requires
                n == v + p,
        ;
        if rest.is_positive() {
            lemma_taking(levels, start + 1, rest, next, wanted);
        } else {
            lemma_nothing_is_left(levels, wanted, any_level(), price_of(), start + 1);
        }
    }
}

/// Taking a quantity from a ladder takes the levels in turn: there is a value exactly where the
/// ladder offers the whole quantity, and it is what the amounts taken cost, each at the price
/// of its own level.
pub proof fn depth_is_taken_in_turn(levels: Seq<LevelView>, quantity: DecimalView)
    requires
        offers(levels),
        quantity.is_positive(),
        unrounded_turns(levels, 0, any_level(), quantity, zero()),
    ensures
        ({
            let all = offered_before(levels, levels.len() as int, any_level());
            match consumed(levels, quantity) {
                Some(Some(paid)) => {
                    &&& quantity.units() <= all
                    &&& exists|amounts: Seq<int>| #[trigger]
                        bought_in_turn(levels, amounts, quantity.units(), any_level()) && weighed(
                            levels,
                            amounts,
                            price_of(),
                            0,
                        ) == paid.units() * whole(1).units()
                },
                Some(None) => quantity.units() > all,
                None => false,
            }
        }),
{
    positive_units(quantity);
    zero_units();
    let wanted = quantity.units();
    lemma_taking(levels, 0, quantity, zero(), wanted);
    if wanted <= offered_before(levels, levels.len() as int, any_level()) {
        lemma_in_turn_buys(levels, wanted, any_level());
    }
}

proof fn lemma_limit(levels: Seq<LevelView>, start: int, remaining: DecimalView, wanted: int)
    requires
        offers(levels),
        0 <= start <= levels.len(),
        0 < remaining.units() == wanted - offered_before(levels, start, any_level()),
        unrounded_limit(levels, start, remaining),
    ensures
        match limit_from(levels, start, remaining) {
            Some(Some(price)) => exists|place: int|
                start <= place < levels.len() && #[trigger] levels[place].price == price
                    && offered_before(levels, place, any_level()) < wanted <= offered_before(
                    levels,
                    place + 1,
                    any_level(),
                ),
            Some(None) => wanted > offered_before(levels, levels.len() as int, any_level()),
            None => false,
        },
    decreases levels.len() - start,
{
    if start < levels.len() {
        let level = levels[start];
        assert(level.quantity.units() >= 0);
        assert(any_level()(level));
        let rest = difference(remaining, remaining.smaller(level.quantity))->0;
        positive_units(rest);
        if rest.is_positive() {
            lemma_limit(levels, start + 1, rest, wanted);
        } else {
            assert(levels[start].price == level.price);
        }
    }
}

/// Nothing is rounded in counting `remaining` down over the levels from `start` on.
pub open spec fn unrounded_limit(levels: Seq<LevelView>, start: int, remaining: DecimalView) -> bool
    decreases levels.len() - start,
{
    if start < 0 || start >= levels.len() {
        true
    } else {
        let taken = remaining.smaller(levels[start].quantity);
        match difference(remaining, taken) {
            Some(rest) => difference_miss(remaining, taken) == 0 && (rest.is_positive()
                ==> unrounded_limit(levels, start + 1, rest)),
            None => false,
        }
    }
}

/// The limit price of a quantity is that of the level at which the quantity is complete: the
/// levels ahead of it offer less than the quantity, with it they offer enough. There is none
/// exactly where the whole ladder does not offer the quantity.
pub proof fn limit_is_the_completing_price(levels: Seq<LevelView>, quantity: DecimalView)
    requires
        offers(levels),
        quantity.is_positive(),
        unrounded_limit(levels, 0, quantity),
    ensures
        match limit_from(levels, 0, quantity) {
            Some(Some(price)) => exists|place: int|
                0 <= place < levels.len() && #[trigger] levels[place].price == price
                    && offered_before(levels, place, any_level()) < quantity.units()
                    <= offered_before(levels, place + 1, any_level()),
            Some(None) => quantity.units() > offered_before(
                levels,
                levels.len() as int,
                any_level(),
            ),
            None => false,
        },
{
    positive_units(quantity);
    lemma_limit(levels, 0, quantity, quantity.units());
}

/// Nothing is rounded in the fee on one level.
pub open spec fn unrounded_fee(filled: DecimalView, rate: DecimalView, price: DecimalView) -> bool {
    match (product(filled, rate), difference(whole(1), price)) {
        (Some(rated), Some(left)) => {
            &&& product_miss(filled, rate) == 0
            &&& difference_miss(whole(1), price) == 0
            &&& match product(rated, price) {
                Some(priced) => {
                    &&& product_miss(rated, price) == 0
                    &&& product(priced, left) is Some
                    &&& product_miss(priced, left) == 0
                },
                None => false,
            }
        },
        _ => false,
    }
}

/// Nothing is rounded, but for the five places in the end, in the fee on buying `remaining`
/// from the levels from `start` on.
pub open spec fn unrounded_fees(
    levels: Seq<LevelView>,
    start: int,
    rate: DecimalView,
    remaining: DecimalView,
    fee: DecimalView,
) -> bool
    decreases levels.len() - start,
{
    if start < 0 || start >= levels.len() {
        true
    } else {
        let taken = remaining.smaller(levels[start].quantity);
        &&& unrounded_fee(taken, rate, levels[start].price)
        &&& match (level_fee(taken, rate, levels[start].price), difference(remaining, taken)) {
            (Some(charged), Some(rest)) => {
                &&& difference_miss(remaining, taken) == 0
                &&& sum(fee, charged) is Some
                &&& sum_miss(fee, charged) == 0
                &&& sum(fee, charged)->0.scale <= MAX_SCALE
                &&& rest.is_positive() ==> unrounded_fees(
                    levels,
                    start + 1,
                    rate,
                    rest,
                    sum(fee, charged)->0,
                )
            },
            _ => false,
        }
    }
}

/// One, in units, taken to the third power.
pub open spec fn cube() -> int {
    whole(1).units() * whole(1).units() * whole(1).units()
}

proof fn lemma_level_fee(filled: DecimalView, rate: DecimalView, price: DecimalView)
    requires
        unrounded_fee(filled, rate, price),
    ensures
        level_fee(filled, rate, price) is Some,
        level_fee(filled, rate, price)->0.units() * cube() == filled.units() * (rate.units()
            * price.units() * (whole(1).units() - price.units())),
{
    let one = whole(1).units();
    let rated = product(filled, rate)->0;
    let left = difference(whole(1), price)->0;
    let priced = product(rated, price)->0;
    let charged = product(priced, left)->0;
    let (f, r, p, l) = (filled.units(), rate.units(), price.units(), left.units());
    let (a, b, c) = (rated.units(), priced.units(), charged.units());
    assert(c * (one * one * one) == (c * one) * (one * one)) by (nonlinear_arith);
    assert((b * l) * (one * one) == (b * one) * (l * one)) by (nonlinear_arith);
    assert((a * p) * (l * one) == (a * one) * (p * l)) by (nonlinear_arith);
    assert((f * r) * (p * l) == f * (r * p * l)) by (nonlinear_arith);
}

proof fn lemma_fees(
    levels: Seq<LevelView>,
    start: int,
    rate: DecimalView,
    remaining: DecimalView,
    fee: DecimalView,
    wanted: int,
)
    requires
        offers(levels),
        0 <= start <= levels.len(),
        0 < remaining.units() == wanted - offered_before(levels, start, any_level()),
        unrounded_fees(levels, start, rate, remaining, fee),
    ensures
        ({
            let all = offered_before(levels, levels.len() as int, any_level());
            match fee_from(levels, start, rate, remaining, fee) {
                Some(Some(charged)) => {
                    &&& wanted <= all
                    &&& exists|exact: DecimalView|
                        exact.scale <= MAX_SCALE && charged == #[trigger] exact.rounded(5)
                            && exact.units() * cube() == fee.units() * cube() + weighed(
                            levels,
                            in_turn(levels, wanted, any_level()),
                            fee_of(rate.units()),
                            start,
                        )
                },
                Some(None) => wanted > all,
                None => false,
            }
        }),
    decreases levels.len() - start,
{
    if start < levels.len() {
        let level = levels[start];
        assert(level.quantity.units() >= 0);
        assert(any_level()(level));
        let taken = remaining.smaller(level.quantity);
        lemma_level_fee(taken, rate, level.price);
        let charged = level_fee(taken, rate, level.price)->0;
        let rest = difference(remaining, taken)->0;
        let next = sum(fee, charged)->0;
        positive_units(rest);
        assert(in_turn(levels, wanted, any_level())[start] == taken.units());
        let (f, c, n, k) = (fee.units(), charged.units(), next.units(), cube());
        assert(n * k == f * k + c * k) by (nonlinear_arith)
            requires
                n == f + c,
        ;
        if rest.is_positive() {
            lemma_fees(levels, start + 1, rate, rest, next, wanted);
        } else {
            lemma_nothing_is_left(levels, wanted, any_level(), fee_of(rate.units()), start + 1);
            assert(next.rounded(5) == next.rounded(5));
        }
    }
}

proof fn lemma_half_places(a: int, b: int)
    requires
        2 * size_of_number(a - b) <= 100_000_000_000_000_000_000_000,
    ensures
        2 * size_of_number(a * cube() - b * cube()) <= 100_000_000_000_000_000_000_000 * cube(),
{
    whole_units(1);
    let (k, h): (int, int) = (cube(), 100_000_000_000_000_000_000_000);
    assert(k > 0) by (nonlinear_arith)
        requires
            k == whole(1).units() * whole(1).units() * whole(1).units(),
            whole(1).units() > 0,
    ;
    assert(-(h * k) <= 2 * (a * k - b * k) <= h * k) by (nonlinear_arith)
        requires
            -h <= 2 * (a - b) <= h,
            k > 0,
    ;
}

/// The fee charges each share once, at the level that it is bought at. There is a fee exactly
/// where the ladder offers the whole quantity. It is, to half of the fifth decimal place, the
/// sum over the levels of the amount taken there times rate * price * (1 - price), where the
/// amounts taken add up to the quantity and none exceeds what its level offers.
#[verifier::spinoff_prover]
pub proof fn fee_charges_each_share_once(
    levels: Seq<LevelView>,
    quantity: DecimalView,
    rate: DecimalView,
)
    requires
        offers(levels),
        quantity.is_positive(),
        unrounded_fees(levels, 0, rate, quantity, zero()),
    ensures
        ({
            let all = offered_before(levels, levels.len() as int, any_level());
            match polymarket_fee(levels, quantity, rate) {
                Some(Some(fee)) => {
                    &&& quantity.units() <= all
                    &&& exists|amounts: Seq<int>| #[trigger]
                        bought_in_turn(levels, amounts, quantity.units(), any_level()) && 2
                            * size_of_number(
                            fee.units() * cube() - weighed(
                                levels,
                                amounts,
                                fee_of(rate.units()),
                                0,
                            ),
                        ) <= 100_000_000_000_000_000_000_000 * cube()
                },
                Some(None) => quantity.units() > all,
                None => false,
            }
        }),
{
    positive_units(quantity);
    zero_units();
    let wanted = quantity.units();
    lemma_fees(levels, 0, rate, quantity, zero(), wanted);
    if wanted <= offered_before(levels, levels.len() as int, any_level()) {
        lemma_in_turn_buys(levels, wanted, any_level());
        let fee = polymarket_fee(levels, quantity, rate)->0->0;
        let exact = choose|exact: DecimalView|
            exact.scale <= MAX_SCALE && fee == #[trigger] exact.rounded(5) && exact.units()
                * cube() == 0 * cube() + weighed(
                levels,
                in_turn(levels, wanted, any_level()),
                fee_of(rate.units()),
                0,
            );
        rounding_moves_half_a_place(exact, 5);
        assert(pow10(23) == 100_000_000_000_000_000_000_000) by {
            reveal_with_fuel(pow10, 24);
        }
        lemma_half_places(fee.units(), exact.units());
        assert(bought_in_turn(levels, in_turn(levels, wanted, any_level()), wanted, any_level()));
    }
}

proof fn lemma_weighed_bounded(
    levels: Seq<LevelView>,
    amounts: Seq<int>,
    weight: spec_fn(LevelView) -> int,
    most: int,
    start: int,
)
    requires
        amounts.len() == levels.len(),
        0 <= start <= levels.len(),
        forall|i: int| 0 <= i < levels.len() ==> 0 <= #[trigger] amounts[i],
        forall|i: int| 0 <= i < levels.len() ==> weight(#[trigger] levels[i]) <= most,
    ensures
        weighed(levels, amounts, weight, start) <= bought_amount(amounts, start) * most,
    decreases levels.len() - start,
{
    if start < levels.len() {
        lemma_weighed_bounded(levels, amounts, weight, most, start + 1);
        let (a, w, later) = (
            amounts[start],
            weight(levels[start]),
            bought_amount(amounts, start + 1),
        );
        assert(a * w <= a * most) by (nonlinear_arith)
            requires
                0 <= a,
                w <= most,
        ;
        assert((a + later) * most == a * most + later * most) by (nonlinear_arith);
    }
}

/// The fee is at most the quantity times the largest rate * price * (1 - price) of a level,
/// rounded to five places.
pub proof fn fee_is_at_most_that_of_the_dearest_level(
    levels: Seq<LevelView>,
    quantity: DecimalView,
    rate: DecimalView,
    fee: DecimalView,
    most: int,
)
    requires
        offers(levels),
        quantity.is_positive(),
        unrounded_fees(levels, 0, rate, quantity, zero()),
        polymarket_fee(levels, quantity, rate) == Some(Some(fee)),
        forall|i: int|
            0 <= i < levels.len() ==> rate.units() * #[trigger] levels[i].price.units() * (whole(
                1,
            ).units() - levels[i].price.units()) <= most,
    ensures
        2 * (fee.units() * cube()) <= 2 * (quantity.units() * most)
            + 100_000_000_000_000_000_000_000 * cube(),
{
    fee_charges_each_share_once(levels, quantity, rate);
    let weight = fee_of(rate.units());
    let amounts = choose|amounts: Seq<int>| #[trigger]
        bought_in_turn(levels, amounts, quantity.units(), any_level()) && 2 * size_of_number(
            fee.units() * cube() - weighed(levels, amounts, weight, 0),
        ) <= 100_000_000_000_000_000_000_000 * cube();
    assert forall|i: int| 0 <= i < levels.len() implies weight(#[trigger] levels[i]) <= most by {
        assert(rate.units() * levels[i].price.units() * (whole(1).units()
            - levels[i].price.units()) <= most);
    }
    lemma_weighed_bounded(levels, amounts, weight, most, 0);
}

/// A ladder with the level at `place` offered in two parts of the same price.
pub open spec fn in_two_parts(
    levels: Seq<LevelView>,
    place: int,
    first: DecimalView,
    second: DecimalView,
) -> Seq<LevelView> {
    levels.subrange(0, place).push(
        LevelView { price: levels[place].price, quantity: first },
    ).push(LevelView { price: levels[place].price, quantity: second }) + levels.subrange(
        place + 1,
        levels.len() as int,
    )
}

proof fn lemma_parts_offered(
    levels: Seq<LevelView>,
    place: int,
    first: DecimalView,
    second: DecimalView,
    count: int,
)
    requires
        0 <= place < levels.len(),
        first.units() + second.units() == levels[place].quantity.units(),
        0 <= count <= levels.len(),
    ensures
        ({
            let parts = in_two_parts(levels, place, first, second);
            if count <= place {
                offered_before(parts, count, any_level()) == offered_before(
                    levels,
                    count,
                    any_level(),
                )
            } else {
                offered_before(parts, count + 1, any_level()) == offered_before(
                    levels,
                    count,
                    any_level(),
                )
            }
        }),
    decreases count,
{
    let parts = in_two_parts(levels, place, first, second);
    if count > 0 {
        lemma_parts_offered(levels, place, first, second, count - 1);
        if count == place + 1 {
            assert(offered_before(parts, count, any_level()) == offered_before(
                parts,
                count - 1,
                any_level(),
            ) + first.units());
        }
    }
}

proof fn lemma_parts_weighed(
    levels: Seq<LevelView>,
    place: int,
    first: DecimalView,
    second: DecimalView,
    wanted: int,
    rate: int,
    start: int,
)
    requires
        0 <= place < levels.len(),
        first.units() >= 0,
        second.units() >= 0,
        first.units() + second.units() == levels[place].quantity.units(),
        0 <= start <= levels.len(),
    ensures
        ({
            let parts = in_two_parts(levels, place, first, second);
            let shift: int = if start <= place {
                0
            } else {
                1
            };
            weighed(parts, in_turn(parts, wanted, any_level()), fee_of(rate), start + shift)
                == weighed(levels, in_turn(levels, wanted, any_level()), fee_of(rate), start)
        }),
    decreases levels.len() - start,
{
    let parts = in_two_parts(levels, place, first, second);
    let there = in_turn(parts, wanted, any_level());
    let here = in_turn(levels, wanted, any_level());
    if start < levels.len() {
        lemma_parts_weighed(levels, place, first, second, wanted, rate, start + 1);
        lemma_parts_offered(levels, place, first, second, start);
        if start == place {
            let weight = fee_of(rate)(levels[place]);
            assert(fee_of(rate)(parts[place]) == weight);
            assert(fee_of(rate)(parts[place + 1]) == weight);
            assert(offered_before(parts, place + 1, any_level()) == offered_before(
                parts,
                place,
                any_level(),
            ) + first.units());
            let (a, b) = (there[place], there[place + 1]);
            assert(here[place] == a + b);
            assert((a + b) * weight == a * weight + b * weight) by (nonlinear_arith);
            assert(weighed(parts, there, fee_of(rate), place + 1) == b * weight + weighed(
                parts,
                there,
                fee_of(rate),
                place + 2,
            ));
        } else {
            let shift: int = if start < place {
                0
            } else {
                1
            };
            assert(parts[start + shift] == levels[start]);
            assert(there[start + shift] == here[start]);
        }
    }
}

/// Offering one level in two parts of the same price leaves the fee as it is.
pub proof fn parts_of_a_level_are_charged_alike(
    levels: Seq<LevelView>,
    place: int,
    first: DecimalView,
    second: DecimalView,
    quantity: DecimalView,
    rate: DecimalView,
    fee: DecimalView,
    fee_in_parts: DecimalView,
)
    requires
        offers(levels),
        0 <= place < levels.len(),
        first.units() >= 0,
        second.units() >= 0,
        first.units() + second.units() == levels[place].quantity.units(),
        quantity.is_positive(),
        unrounded_fees(levels, 0, rate, quantity, zero()),
        unrounded_fees(in_two_parts(levels, place, first, second), 0, rate, quantity, zero()),
        polymarket_fee(levels, quantity, rate) == Some(Some(fee)),
        polymarket_fee(in_two_parts(levels, place, first, second), quantity, rate) == Some(
            Some(fee_in_parts),
        ),
    ensures
        fee.units() == fee_in_parts.units(),
{
    let parts = in_two_parts(levels, place, first, second);
    positive_units(quantity);
    zero_units();
    let wanted = quantity.units();
    assert forall|i: int| 0 <= i < parts.len() implies #[trigger] parts[i].quantity.units()
        >= 0 by {
        if i < place {
            assert(parts[i] == levels[i]);
        } else if i > place + 1 {
            assert(parts[i] == levels[i - 1]);
        }
    }
    lemma_fees(levels, 0, rate, quantity, zero(), wanted);
    lemma_fees(parts, 0, rate, quantity, zero(), wanted);
    lemma_parts_weighed(levels, place, first, second, wanted, rate.units(), 0);
    let weight = fee_of(rate.units());
    let a = choose|exact: DecimalView|
        exact.scale <= MAX_SCALE && fee == #[trigger] exact.rounded(5) && exact.units() * cube()
            == 0 * cube() + weighed(levels, in_turn(levels, wanted, any_level()), weight, 0);
    let b = choose|exact: DecimalView|
        exact.scale <= MAX_SCALE && fee_in_parts == #[trigger] exact.rounded(5) && exact.units()
            * cube() == 0 * cube() + weighed(parts, in_turn(parts, wanted, any_level()), weight, 0);
    whole_units(1);
    assert(a.units() == b.units()) by (nonlinear_arith)
        requires
            a.units() * cube() == b.units() * cube(),
            cube() == whole(1).units() * whole(1).units() * whole(1).units(),
            whole(1).units() == 10_000_000_000_000_000_000_000_000_000,
    ;
    rounding_is_to_the_nearest(a, 5);
    rounding_is_to_the_nearest(b, 5);
}

proof fn lemma_cost(
    levels: Seq<LevelView>,
    start: int,
    remaining: DecimalView,
    cost: DecimalView,
    wanted: int,
)
    requires
        offers(levels),
        forall|i: int| 0 <= i < levels.len() ==> is_usable(#[trigger] levels[i]),
        0 <= start <= levels.len(),
        0 < remaining.units() == wanted - offered_before(levels, start, any_level()),
        unrounded_turns(levels, start, any_level(), remaining, cost),
    ensures
        ({
            let all = offered_before(levels, levels.len() as int, any_level());
            match cost_from(levels, start, remaining, cost) {
                Some(Some(paid)) => {
                    &&& wanted <= all
                    &&& paid.units() * whole(1).units() == cost.units() * whole(1).units()
                        + weighed(levels, in_turn(levels, wanted, any_level()), price_of(), start)
                },
                Some(None) => wanted > all,
                None => false,
            }
        }),
    decreases levels.len() - start,
{
    if start < levels.len() {
        let level = levels[start];
        assert(is_usable(levels[start]));
        assert(level.quantity.units() >= 0);
        assert(any_level()(level));
        let one = whole(1).units();
        let taken = remaining.smaller(level.quantity);
        let paid = product(taken, level.price)->0;
        let rest = difference(remaining, taken)->0;
        let next = sum(cost, paid)->0;
        positive_units(rest);
        assert(in_turn(levels, wanted, any_level())[start] == taken.units());
        let (v, p, n) = (cost.units(), paid.units(), next.units());
        assert(n * one == v * one + p * one) by (nonlinear_arith)
            requires
                n == v + p,
        ;
        if rest.mantissa != 0 {
            lemma_cost(levels, start + 1, rest, next, wanted);
        } else {
            lemma_nothing_is_left(levels, wanted, any_level(), price_of(), start + 1);
        }
    }
}

/// The cost of buying a quantity from usable asks is that of the levels taken in turn, and there
/// is one exactly where the asks offer the whole quantity.
pub proof fn cost_is_taken_in_turn(levels: Seq<LevelView>, quantity: DecimalView)
    requires
        forall|i: int| 0 <= i < levels.len() ==> is_usable(#[trigger] levels[i]),
        quantity.is_positive(),
        unrounded_turns(levels, 0, any_level(), quantity, zero()),
    ensures
        ({
            let all = offered_before(levels, levels.len() as int, any_level());
            match cost_of(levels, quantity) {
                Some(Some(paid)) => {
                    &&& quantity.units() <= all
                    &&& exists|amounts: Seq<int>| #[trigger]
                        bought_in_turn(levels, amounts, quantity.units(), any_level()) && weighed(
                            levels,
                            amounts,
                            price_of(),
                            0,
                        ) == paid.units() * whole(1).units()
                },
                Some(None) => quantity.units() > all,
                None => false,
            }
        }),
{
    assert forall|i: int| 0 <= i < levels.len() implies #[trigger] levels[i].quantity.units()
        >= 0 by {
        assert(is_usable(levels[i]));
        positive_units(levels[i].quantity);
    }
    positive_units(quantity);
    zero_units();
    let wanted = quantity.units();
    lemma_cost(levels, 0, quantity, zero(), wanted);
    if wanted <= offered_before(levels, levels.len() as int, any_level()) {
        lemma_in_turn_buys(levels, wanted, any_level());
    }
}

proof fn lemma_cost_stops(
    levels: Seq<LevelView>,
    place: int,
    start: int,
    remaining: DecimalView,
    cost: DecimalView,
)
    requires
        0 <= start <= place < levels.len(),
        !(levels[place].price.mantissa > 0 && levels[place].quantity.mantissa > 0),
    ensures
        cost_from(levels, start, remaining, cost) == cost_from(
            levels.subrange(0, place),
            start,
            remaining,
            cost,
        ),
    decreases place - start,
{
    let ahead = levels.subrange(0, place);
    if start < place && is_usable(levels[start]) {
        assert(ahead[start] == levels[start]);
        let take = remaining.smaller(levels[start].quantity);
        match (plus(Some(cost), product(take, levels[start].price)), difference(remaining, take)) {
            (Some(next), Some(rest)) => {
                lemma_cost_stops(levels, place, start + 1, rest, next);
            },
            _ => {},
        }
    } else if start < place {
        assert(ahead[start] == levels[start]);
    }
}

/// Asks from the first one on that has no positive price and quantity are never bought: an
/// order costs what it costs without them.
pub proof fn unusable_asks_end_the_ladder(
    levels: Seq<LevelView>,
    place: int,
    quantity: DecimalView,
)
    requires
        0 <= place < levels.len(),
        !(levels[place].price.mantissa > 0 && levels[place].quantity.mantissa > 0),
    ensures
        cost_of(levels, quantity) == cost_of(levels.subrange(0, place), quantity),
{
    lemma_cost_stops(levels, place, 0, quantity, zero());
}

/// What a level offers at a positive price up to a limit.
pub open spec fn offer_up_to(limit: int) -> spec_fn(LevelView) -> int {
    |level: LevelView|
        if 0 < level.price.units() <= limit && level.quantity.units() > 0 {
            level.quantity.units()
        } else {
            0
        }
}

/// Nothing is rounded in summing up what the levels from `start` on offer up to a limit.
pub open spec fn unrounded_offer_up_to(
    levels: Seq<LevelView>,
    start: int,
    limit: DecimalView,
    total: DecimalView,
) -> bool
    decreases levels.len() - start,
{
    if start < 0 || start >= levels.len() {
        true
    } else if offer_up_to(limit.units())(levels[start]) == 0 {
        unrounded_offer_up_to(levels, start + 1, limit, total)
    } else {
        match sum(total, levels[start].quantity) {
            Some(next) => sum_miss(total, levels[start].quantity) == 0 && unrounded_offer_up_to(
                levels,
                start + 1,
                limit,
                next,
            ),
            None => false,
        }
    }
}

/// The quantity offered up to a limit is the sum of the positive quantities at positive prices
/// that do not exceed the limit.
pub proof fn offers_up_to_a_limit_add_up(
    levels: Seq<LevelView>,
    start: int,
    limit: DecimalView,
    total: DecimalView,
)
    requires
        0 <= start <= levels.len(),
        unrounded_offer_up_to(levels, start, limit, total),
    ensures
        quantity_from(levels, start, limit, total) is Some,
        quantity_from(levels, start, limit, total)->0.units() == total.units() + total_from(
            levels,
            start,
            offer_up_to(limit.units()),
        ),
    decreases levels.len() - start,
{
    if start < levels.len() {
        let level = levels[start];
        positive_units(level.price);
        positive_units(level.quantity);
        if is_usable(level) && level.price.le(limit) {
            offers_up_to_a_limit_add_up(
                levels,
                start + 1,
                limit,
                sum(total, level.quantity)->0,
            );
        } else {
            offers_up_to_a_limit_add_up(levels, start + 1, limit, total);
        }
    }
}

/// Nothing is rounded in summing up the quantities of the levels from `start` on.
pub open spec fn unrounded_depth(levels: Seq<LevelView>, start: int, total: DecimalView) -> bool
    decreases levels.len() - start,
{
    if start < 0 || start >= levels.len() {
        true
    } else {
        match sum(total, levels[start].quantity) {
            Some(next) => sum_miss(total, levels[start].quantity) == 0 && unrounded_depth(
                levels,
                start + 1,
                next,
            ),
            None => false,
        }
    }
}

proof fn lemma_depth(levels: Seq<LevelView>, start: int, total: DecimalView)
    requires
        0 <= start <= levels.len(),
        unrounded_depth(levels, start, total),
        total.units() == offered_before(levels, start, any_level()),
    ensures
        depth_from(levels, start, total) matches Some(all) && all.units() == offered_before(
            levels,
            levels.len() as int,
            any_level(),
        ),
    decreases levels.len() - start,
{
    if start < levels.len() {
        assert(any_level()(levels[start]));
        lemma_depth(levels, start + 1, sum(total, levels[start].quantity)->0);
    }
}

/// The depth of a ladder is what all of its levels offer together.
pub proof fn depths_add_up(levels: Seq<LevelView>)
    requires
        unrounded_depth(levels, 0, zero()),
    ensures
        depth(levels) matches Some(all) && all.units() == offered_before(
            levels,
            levels.len() as int,
            any_level(),
        ),
{
    zero_units();
    lemma_depth(levels, 0, zero());
}

proof fn lemma_bought(
    levels: Seq<LevelView>,
    start: int,
    limit: DecimalView,
    remaining: DecimalView,
    cost: DecimalView,
    worst: Option<DecimalView>,
    wanted: int,
)
    requires
        offers(levels),
        forall|i: int| 0 <= i < levels.len() ==> is_usable(#[trigger] levels[i]),
        0 <= start <= levels.len(),
        0 < remaining.units() == wanted - offered_before(levels, start, within(limit.units(), true)),
        unrounded_turns(levels, start, within(limit.units(), true), remaining, cost),
        consumed_at_limit_from(levels, start, limit, true, remaining, cost) matches Some(Some(_)),
    ensures
        bought_from(levels, start, limit, remaining, cost, worst) matches Some((paid, last)) && {
            &&& consumed_at_limit_from(levels, start, limit, true, remaining, cost) == Some(
                Some(paid),
            )
            &&& last matches Some(last) && exists|place: int|
                start <= place < levels.len() && #[trigger] levels[place].price == last
                    && offered_before(levels, place, within(limit.units(), true)) < wanted
                    <= offered_before(levels, place + 1, within(limit.units(), true))
        },
    decreases levels.len() - start,
{
    let allowed = within(limit.units(), true);
    if start < levels.len() {
        let level = levels[start];
        assert(is_usable(levels[start]));
        if !allowed(level) {
            lemma_bought(levels, start + 1, limit, remaining, cost, worst, wanted);
        } else {
            let taken = remaining.smaller(level.quantity);
            let paid = product(taken, level.price)->0;
            let rest = difference(remaining, taken)->0;
            let next = sum(cost, paid)->0;
            positive_units(rest);
            positive_units(taken);
            positive_units(level.quantity);
            if rest.is_positive() {
                lemma_bought(
                    levels,
                    start + 1,
                    limit,
                    rest,
                    next,
                    Some(level.price),
                    wanted,
                );
            } else {
                assert(levels[start].price == level.price);
            }
        }
    }
}

/// A fill-or-kill purchase that is filled pays for the cheapest levels within its limit in turn:
/// for each amount the price of its own level. Its worst price is that of the level at which it
/// is complete, and its average times the quantity is what it pays.
pub proof fn fok_pays_for_the_levels_in_turn(
    request: RequestView,
    asks: Seq<LevelView>,
    fill: FillView,
)
    requires
        fok(request, asks) == Some(fill),
        fill.status == OrderStatus::FullyFilled,
        forall|i: int|
            0 <= i < by_price(asks, false).len() ==> is_usable(#[trigger] by_price(asks, false)[i]),
        unrounded_turns(
            by_price(asks, false),
            0,
            within(request.limit_price.units(), true),
            request.quantity,
            zero(),
        ),
        request.quantity.units() <= offered_before(
            by_price(asks, false),
            by_price(asks, false).len() as int,
            within(request.limit_price.units(), true),
        ),
    ensures
        ({
            let levels = by_price(asks, false);
            let allowed = within(request.limit_price.units(), true);
            let wanted = request.quantity.units();
            &&& fill.filled_quantity == request.quantity
            &&& exists|amounts: Seq<int>| #[trigger]
                bought_in_turn(levels, amounts, wanted, allowed) && weighed(
                    levels,
                    amounts,
                    price_of(),
                    0,
                ) == fill.total_cost.units() * whole(1).units()
            &&& fill.worst_price matches Some(worst) && exists|place: int|
                0 <= place < levels.len() && #[trigger] levels[place].price == worst
                    && offered_before(levels, place, allowed) < wanted <= offered_before(
                    levels,
                    place + 1,
                    allowed,
                )
            &&& fill.average_price matches Some(average) && average.units() * wanted
                - fill.total_cost.units() * whole(1).units() <= quotient_miss(
                fill.total_cost,
                request.quantity,
            ) && fill.total_cost.units() * whole(1).units() - average.units() * wanted
                <= quotient_miss(fill.total_cost, request.quantity) && within_rounding(
                quotient_miss(fill.total_cost, request.quantity),
                request.quantity,
                average,
            )
        }),
{
    let levels = by_price(asks, false);
    positive_units(request.quantity);
    zero_units();
    assert forall|i: int| 0 <= i < levels.len() implies #[trigger] levels[i].quantity.units()
        >= 0 by {
        assert(is_usable(levels[i]));
        positive_units(levels[i].quantity);
    }
    depth_at_a_limit_is_taken_in_turn(levels, request.quantity, request.limit_price, true);
    lemma_bought(
        levels,
        0,
        request.limit_price,
        request.quantity,
        zero(),
        None,
        request.quantity.units(),
    );
    quotients_are_close(fill.total_cost, request.quantity, fill.average_price->0);
}

proof fn lemma_offered(levels: Seq<LevelView>, start: int, limit: DecimalView, total: DecimalView)
    requires
        forall|i: int| 0 <= i < levels.len() ==> is_usable(#[trigger] levels[i]),
        0 <= start <= levels.len(),
        unrounded_offer_up_to(levels, start, limit, total),
        total.units() == offered_before(levels, start, within(limit.units(), true)),
    ensures
        offered_from(levels, start, limit, total) matches Some(all) && all.units()
            == offered_before(levels, levels.len() as int, within(limit.units(), true)),
    decreases levels.len() - start,
{
    if start < levels.len() {
        let level = levels[start];
        assert(is_usable(levels[start]));
        positive_units(level.price);
        positive_units(level.quantity);
        if level.price.le(limit) {
            lemma_offered(levels, start + 1, limit, sum(total, level.quantity)->0);
        } else {
            lemma_offered(levels, start + 1, limit, total);
        }
    }
}

/// A valid fill-or-kill purchase from usable asks is filled exactly where what they offer within
/// its limit is enough, and cancelled as a whole where it is not.
pub proof fn fok_fills_where_enough_is_offered(
    request: RequestView,
    asks: Seq<LevelView>,
    fill: FillView,
)
    requires
        fok(request, asks) == Some(fill),
        request.quantity.units() > 0,
        0 < request.limit_price.units() <= whole(1).units(),
        forall|i: int| 0 <= i < asks.len() ==> is_usable(#[trigger] asks[i]),
        forall|i: int|
            0 <= i < by_price(asks, false).len() ==> is_usable(#[trigger] by_price(asks, false)[i]),
        unrounded_offer_up_to(by_price(asks, false), 0, request.limit_price, zero()),
    ensures
        ({
            let levels = by_price(asks, false);
            let enough = request.quantity.units() <= offered_before(
                levels,
                levels.len() as int,
                within(request.limit_price.units(), true),
            );
            &&& enough ==> fill.status == OrderStatus::FullyFilled && fill.filled_quantity
                == request.quantity
            &&& !enough ==> fill.status == OrderStatus::Cancelled && fill.filled_quantity.units()
                == 0 && fill.total_cost.units() == 0
        }),
{
    positive_units(request.quantity);
    positive_units(request.limit_price);
    zero_units();
    lemma_offered(by_price(asks, false), 0, request.limit_price, zero());
}

/// A fill-or-kill purchase of no quantity, without a limit above nothing and up to one, or from
/// asks of which one is unusable, is rejected and buys nothing.
pub proof fn invalid_foks_are_rejected(request: RequestView, asks: Seq<LevelView>)
    ensures
        ({
            let valid = request.quantity.units() > 0 && 0 < request.limit_price.units()
                <= whole(1).units() && forall|i: int|
                0 <= i < asks.len() ==> is_usable(#[trigger] asks[i]);
            &&& !valid ==> {
                &&& fok(request, asks) is Some
                &&& fok(request, asks)->0.status == OrderStatus::Rejected
                &&& fok(request, asks)->0.filled_quantity.units() == 0
                &&& fok(request, asks)->0.total_cost.units() == 0
                &&& fok(request, asks)->0.average_price is None
            }
            &&& valid ==> (fok(request, asks) matches Some(fill) ==> fill.status
                != OrderStatus::Rejected)
        }),
{
    positive_units(request.quantity);
    positive_units(request.limit_price);
    zero_units();
}

} // verus!
