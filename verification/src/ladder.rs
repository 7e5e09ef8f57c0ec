//! Price ladders: levels of a book, each a price and the quantity offered at it.
use vstd::prelude::*;

use crate::decimal::{parsed_decimal, sum, view_of, zero, Decimal, DecimalView};

verus! {

/// One level of a ladder.
pub struct LevelView {
    pub price: DecimalView,
    pub quantity: DecimalView,
}

pub open spec fn level_of(pair: (Decimal, Decimal)) -> LevelView {
    LevelView { price: pair.0@, quantity: pair.1@ }
}

/// The ladder held as pairs of price and quantity.
pub open spec fn ladder_of(levels: Seq<(Decimal, Decimal)>) -> Seq<LevelView> {
    levels.map_values(|pair: (Decimal, Decimal)| level_of(pair))
}

/// Whether `first` may stand before `second` in a ladder sorted by price.
pub open spec fn in_order(first: LevelView, second: LevelView, descending: bool) -> bool {
    if descending {
        second.price.le(first.price)
    } else {
        first.price.le(second.price)
    }
}

/// A sorted ladder with one more level, placed behind those of the same price.
pub open spec fn with_level(ladder: Seq<LevelView>, level: LevelView, descending: bool) -> Seq<
    LevelView,
>
    decreases ladder.len(),
{
    if ladder.len() == 0 || in_order(ladder.last(), level, descending) {
        ladder.push(level)
    } else {
        with_level(ladder.drop_last(), level, descending).push(ladder.last())
    }
}

/// The levels sorted by price; levels of the same price keep their order.
pub open spec fn by_price(levels: Seq<LevelView>, descending: bool) -> Seq<LevelView>
    decreases levels.len(),
{
    if levels.len() == 0 {
        Seq::empty()
    } else {
        with_level(by_price(levels.drop_last(), descending), levels.last(), descending)
    }
}

pub open spec fn sorted(ladder: Seq<LevelView>, descending: bool) -> bool {
    forall|i: int, j: int|
        0 <= i < j < ladder.len() ==> in_order(#[trigger] ladder[i], #[trigger] ladder[j], descending)
}

proof fn lemma_with_level_sorted(ladder: Seq<LevelView>, level: LevelView, descending: bool)
    requires
        sorted(ladder, descending),
    ensures
        sorted(with_level(ladder, level, descending), descending),
        with_level(ladder, level, descending).to_multiset() == ladder.to_multiset().insert(level),
        with_level(ladder, level, descending).len() == ladder.len() + 1,
        forall|i: int|
            0 <= i <= ladder.len() ==> #[trigger] with_level(ladder, level, descending)[i] == level
                || ladder.contains(with_level(ladder, level, descending)[i]),
    decreases ladder.len(),
{
    broadcast use vstd::seq_lib::group_to_multiset_ensures;

    if ladder.len() == 0 || in_order(ladder.last(), level, descending) {
        assert(with_level(ladder, level, descending) == ladder.push(level));
        assert forall|i: int| 0 <= i < ladder.len() implies ladder.contains(
            #[trigger] with_level(ladder, level, descending)[i],
        ) by {
            assert(with_level(ladder, level, descending)[i] == ladder[i]);
        }
    } else {
        let rest = ladder.drop_last();
        assert(sorted(rest, descending));
        lemma_with_level_sorted(rest, level, descending);
        let inserted = with_level(rest, level, descending);
        let whole = with_level(ladder, level, descending);
        assert(whole == inserted.push(ladder.last()));
        assert(ladder =~= rest.push(ladder.last()));
        assert(whole.to_multiset() =~= ladder.to_multiset().insert(level));
        assert forall|i: int| 0 <= i <= ladder.len() implies (#[trigger] whole[i] == level
            || ladder.contains(whole[i])) by {
            if i < ladder.len() {
                assert(whole[i] == inserted[i]);
                if inserted[i] != level {
                    assert(rest.contains(inserted[i]));
                    let k = rest.index_of(inserted[i]);
                    assert(ladder[k] == inserted[i]);
                }
            } else {
                assert(ladder[ladder.len() - 1] == whole[i]);
            }
        }
        assert forall|i: int, j: int| 0 <= i < j < whole.len() implies in_order(
            #[trigger] whole[i],
            #[trigger] whole[j],
            descending,
        ) by {
            if j < inserted.len() {
                assert(whole[i] == inserted[i] && whole[j] == inserted[j]);
            } else {
                assert(whole[i] == inserted[i]);
                if inserted[i] != level {
                    assert(rest.contains(inserted[i]));
                    let k = rest.index_of(inserted[i]);
                    assert(ladder[k] == inserted[i]);
                    assert(in_order(ladder[k], ladder[ladder.len() - 1], descending));
                }
            }
        }
    }
}

/// Sorting by price keeps exactly the levels it was given and puts them in order.
pub proof fn sorting_keeps_levels(levels: Seq<LevelView>, descending: bool)
    ensures
        sorted(by_price(levels, descending), descending),
        by_price(levels, descending).to_multiset() == levels.to_multiset(),
        by_price(levels, descending).len() == levels.len(),
    decreases levels.len(),
{
    broadcast use vstd::seq_lib::group_to_multiset_ensures;

    if levels.len() > 0 {
        let rest = levels.drop_last();
        sorting_keeps_levels(rest, descending);
        lemma_with_level_sorted(by_price(rest, descending), levels.last(), descending);
        assert(levels =~= rest.push(levels.last()));
    }
}

/// The first level of a sorted ladder has the best price: the lowest of an ascending one,
/// the highest of a descending one.
pub proof fn first_level_is_best(levels: Seq<LevelView>, descending: bool, i: int)
    requires
        0 <= i < levels.len(),
    ensures
        in_order(by_price(levels, descending)[0], levels[i], descending),
        levels.contains(by_price(levels, descending)[0]),
{
    broadcast use vstd::seq_lib::group_to_multiset_ensures;

    sorting_keeps_levels(levels, descending);
    let ladder = by_price(levels, descending);
    assert(levels.to_multiset().count(levels[i]) > 0) by {
        assert(levels.contains(levels[i]));
    }
    assert(ladder.contains(levels[i]));
    let k = ladder.index_of(levels[i]);
    assert(ladder.contains(ladder[0]));
    assert(ladder.to_multiset().count(ladder[0]) > 0);
    if k > 0 {
        assert(in_order(ladder[0], ladder[k], descending));
    }
}

/// Whether the first pair may stand before the second in a ladder sorted by price.
fn pairs_in_order(first: &(Decimal, Decimal), second: &(Decimal, Decimal), descending: bool) -> (result:
    bool)
    ensures
        result == in_order(level_of(*first), level_of(*second), descending),
{
    if descending {
        second.0.at_most(&first.0)
    } else {
        first.0.at_most(&second.0)
    }
}

proof fn lemma_with_level_position(
    ladder: Seq<LevelView>,
    level: LevelView,
    descending: bool,
    position: int,
)
    requires
        0 <= position <= ladder.len(),
        forall|i: int|
            position <= i < ladder.len() ==> !in_order(#[trigger] ladder[i], level, descending),
        position == 0 || in_order(ladder[position - 1], level, descending),
    ensures
        with_level(ladder, level, descending) == ladder.insert(position, level),
    decreases ladder.len(),
{
    if position == ladder.len() {
        assert(ladder.push(level) =~= ladder.insert(position, level));
    } else {
        let rest = ladder.drop_last();
        assert(!in_order(ladder[ladder.len() - 1], level, descending));
        lemma_with_level_position(rest, level, descending, position);
        assert(rest.insert(position, level).push(ladder.last()) =~= ladder.insert(position, level));
    }
}

/// Sorts a ladder by price; levels of the same price keep their order.
pub fn sort_levels(levels: &Vec<(Decimal, Decimal)>, descending: bool) -> (result: Vec<
    (Decimal, Decimal),
>)
    ensures
        ladder_of(result@) == by_price(ladder_of(levels@), descending),
{
    let mut result: Vec<(Decimal, Decimal)> = Vec::new();
    let mut i: usize = 0;
    proof {
        assert(ladder_of(result@) =~= by_price(ladder_of(levels@).take(0), descending));
    }
    while i < levels.len()
        invariant
            i <= levels@.len(),
            ladder_of(result@) == by_price(ladder_of(levels@).take(i as int), descending),
        decreases levels@.len() - i,
    {
        let mut position: usize = result.len();
        while position > 0 && !pairs_in_order(&result[position - 1], &levels[i], descending)
            invariant
                i < levels@.len(),
                position <= result@.len(),
                forall|k: int|
                    position <= k < result@.len() ==> !in_order(
                        #[trigger] ladder_of(result@)[k],
                        ladder_of(levels@)[i as int],
                        descending,
                    ),
            decreases position,
        {
            position = position - 1;
        }
        proof {
            let ladder = ladder_of(result@);
            let source = ladder_of(levels@);
            lemma_with_level_position(ladder, source[i as int], descending, position as int);
            assert(source.take(i + 1).drop_last() =~= source.take(i as int));
            assert(ladder_of(result@.insert(position as int, levels@[i as int])) =~= ladder.insert(
                position as int,
                source[i as int],
            ));
        }
        result.insert(position, levels[i]);
        i = i + 1;
    }
    proof {
        assert(ladder_of(levels@).take(i as int) =~= ladder_of(levels@));
    }
    result
}

/// The total quantity of the levels from `start` on, added to `total`.
pub open spec fn depth_from(levels: Seq<LevelView>, start: int, total: DecimalView) -> Option<
    DecimalView,
>
    decreases levels.len() - start,
{
    if start < 0 || start >= levels.len() {
        Some(total)
    } else {
        match sum(total, levels[start].quantity) {
            Some(next) => depth_from(levels, start + 1, next),
            None => None,
        }
    }
}

/// The total quantity of a ladder; `None` on overflow.
pub open spec fn depth(levels: Seq<LevelView>) -> Option<DecimalView> {
    depth_from(levels, 0, zero())
}

/// The total quantity of a ladder; `None` on overflow.
pub fn total_quantity(levels: &[(Decimal, Decimal)]) -> (result: Option<Decimal>)
    ensures
        view_of(result) == depth(ladder_of(levels@)),
{
    let mut total = Decimal::zero();
    let mut i: usize = 0;
    while i < levels.len()
        invariant
            i <= levels@.len(),
            depth(ladder_of(levels@)) == depth_from(ladder_of(levels@), i as int, total@),
        decreases levels@.len() - i,
    {
        proof {
            assert(ladder_of(levels@)[i as int] == level_of(levels@[i as int]));
        }
        total = total.checked_add(levels[i].1)?;
        i = i + 1;
    }
    Some(total)
}

/// The sum of a figure over the levels from `start` on.
pub open spec fn total_from(
    levels: Seq<LevelView>,
    start: int,
    figure: spec_fn(LevelView) -> int,
) -> int
    decreases levels.len() - start,
{
    if start < 0 || start >= levels.len() {
        0
    } else {
        figure(levels[start]) + total_from(levels, start + 1, figure)
    }
}

proof fn lemma_total_folds(levels: Seq<LevelView>, start: int, figure: spec_fn(LevelView) -> int)
    requires
        0 <= start <= levels.len(),
    ensures
        total_from(levels, start, figure) == levels.skip(start).fold_right_alt(
            |level: LevelView, total: int| figure(level) + total,
            0,
        ),
    decreases levels.len() - start,
{
    if start < levels.len() {
        lemma_total_folds(levels, start + 1, figure);
        assert(levels.skip(start).first() == levels[start]);
        assert(levels.skip(start).subrange(1, levels.skip(start).len() as int) =~= levels.skip(
            start + 1,
        ));
    }
}

/// A sum over levels does not depend on their order.
pub proof fn totals_ignore_order(
    levels: Seq<LevelView>,
    other: Seq<LevelView>,
    figure: spec_fn(LevelView) -> int,
)
    requires
        levels.to_multiset() == other.to_multiset(),
    ensures
        total_from(levels, 0, figure) == total_from(other, 0, figure),
{
    let add = |level: LevelView, total: int| figure(level) + total;
    lemma_total_folds(levels, 0, figure);
    lemma_total_folds(other, 0, figure);
    assert(levels.skip(0) =~= levels);
    assert(other.skip(0) =~= other);
    levels.lemma_fold_right_alt(add, 0);
    other.lemma_fold_right_alt(add, 0);
    vstd::seq_lib::lemma_fold_right_permutation(levels, other, add, 0);
}

/// The quantity of a level that is offered below a price, in units.
pub open spec fn offer_below(price: int) -> spec_fn(LevelView) -> int {
    |level: LevelView|
        if level.price.units() < price {
            level.quantity.units()
        } else {
            0
        }
}

/// The quantity of a level that is offered at a price or below it, in units.
pub open spec fn offer_within(price: int) -> spec_fn(LevelView) -> int {
    |level: LevelView|
        if level.price.units() <= price {
            level.quantity.units()
        } else {
            0
        }
}

/// What buying all of a level saves against paying a price for it.
pub open spec fn saving_against(price: int) -> spec_fn(LevelView) -> int {
    |level: LevelView|
        if level.price.units() < price {
            level.quantity.units() * (price - level.price.units())
        } else {
            0
        }
}

/// Amounts bought of each level, in units: none negative, none above what is offered.
pub open spec fn buyable(levels: Seq<LevelView>, amounts: Seq<int>) -> bool {
    &&& amounts.len() == levels.len()
    &&& forall|i: int|
        0 <= i < levels.len() ==> 0 <= #[trigger] amounts[i] <= levels[i].quantity.units()
}

/// The amount that is bought from the levels from `start` on, in units.
pub open spec fn bought_amount(amounts: Seq<int>, start: int) -> int
    decreases amounts.len() - start,
{
    if start < 0 || start >= amounts.len() {
        0
    } else {
        amounts[start] + bought_amount(amounts, start + 1)
    }
}

/// What is paid for the amounts from `start` on, in units of units.
pub open spec fn paid_amount(levels: Seq<LevelView>, amounts: Seq<int>, start: int) -> int
    decreases amounts.len() - start,
{
    if start < 0 || start >= amounts.len() {
        0
    } else {
        amounts[start] * levels[start].price.units() + paid_amount(levels, amounts, start + 1)
    }
}

/// Whatever is bought costs at least any one price for all of it, less what the levels below
/// that price save.
pub proof fn payment_is_bounded(
    levels: Seq<LevelView>,
    amounts: Seq<int>,
    start: int,
    price: int,
)
    requires
        buyable(levels, amounts),
        0 <= start <= levels.len(),
    ensures
        paid_amount(levels, amounts, start) >= price * bought_amount(amounts, start) - total_from(
            levels,
            start,
            saving_against(price),
        ),
    decreases levels.len() - start,
{
    if start < levels.len() {
        payment_is_bounded(levels, amounts, start + 1, price);
        let (x, q, p) = (
            amounts[start],
            levels[start].quantity.units(),
            levels[start].price.units(),
        );
        let (rest, later) = (
            bought_amount(amounts, start + 1),
            total_from(levels, start + 1, saving_against(price)),
        );
        assert(price * (x + rest) == price * x + price * rest) by (nonlinear_arith);
        if p < price {
            assert(x * p >= price * x - q * (price - p)) by (nonlinear_arith)
                requires
                    0 <= x <= q,
                    p < price,
            ;
        } else {
            assert(x * p >= price * x) by (nonlinear_arith)
                requires
                    0 <= x,
                    p >= price,
            ;
        }
    }
}

/// In an ascending ladder nothing is offered below the price of a level from that level on.
pub proof fn nothing_cheaper_follows(levels: Seq<LevelView>, place: int, start: int)
    requires
        sorted(levels, false),
        0 <= place <= start,
        place < levels.len(),
    ensures
        total_from(levels, start, offer_below(levels[place].price.units())) == 0,
        total_from(levels, start, saving_against(levels[place].price.units())) == 0,
    decreases levels.len() - start,
{
    if start < levels.len() {
        nothing_cheaper_follows(levels, place, start + 1);
        if place < start {
            assert(in_order(levels[place], levels[start], false));
        }
    }
}

/// What is offered at a price is offered below any higher one.
pub proof fn offers_grow(levels: Seq<LevelView>, start: int, low: int, high: int)
    requires
        low < high,
        0 <= start,
        forall|i: int| 0 <= i < levels.len() ==> (#[trigger] levels[i]).quantity.units() >= 0,
    ensures
        0 <= total_from(levels, start, offer_within(low)) <= total_from(
            levels,
            start,
            offer_below(high),
        ),
    decreases levels.len() - start,
{
    if start < levels.len() {
        offers_grow(levels, start + 1, low, high);
    }
}

/// Why a level cannot be read.
#[derive(Clone, Copy, Debug, PartialEq, Eq, Structural)]
pub enum LevelFault {
    Price,
    Quantity,
}

/// The level that a price and a quantity in decimal notation stand for.
pub open spec fn read_level_text(price: Seq<char>, quantity: Seq<char>) -> Result<
    LevelView,
    LevelFault,
> {
    match (parsed_decimal(price), parsed_decimal(quantity)) {
        (None, _) => Err(LevelFault::Price),
        (Some(_), None) => Err(LevelFault::Quantity),
        (Some(price), Some(quantity)) => Ok(LevelView { price, quantity }),
    }
}

/// The levels that the texts from `start` on stand for, behind those read so far; or the first
/// fault among them.
pub open spec fn read_levels_from(
    texts: Seq<(Seq<char>, Seq<char>)>,
    start: int,
    so_far: Seq<LevelView>,
) -> Result<Seq<LevelView>, LevelFault>
    decreases texts.len() - start,
{
    if start < 0 || start >= texts.len() {
        Ok(so_far)
    } else {
        match read_level_text(texts[start].0, texts[start].1) {
            Err(fault) => Err(fault),
            Ok(level) => read_levels_from(texts, start + 1, so_far.push(level)),
        }
    }
}

/// The ladder that texts of prices and quantities stand for, sorted by price; or the first
/// fault among them.
pub open spec fn read_ladder(texts: Seq<(Seq<char>, Seq<char>)>, descending: bool) -> Result<
    Seq<LevelView>,
    LevelFault,
> {
    match read_levels_from(texts, 0, Seq::empty()) {
        Ok(levels) => Ok(by_price(levels, descending)),
        Err(fault) => Err(fault),
    }
}

/// Reads one level from decimal notation.
pub fn read_level(price: &str, quantity: &str) -> (result: Result<(Decimal, Decimal), LevelFault>)
    ensures
        match result {
            Ok(level) => read_level_text(price@, quantity@) == Ok::<LevelView, LevelFault>(
                level_of(level),
            ),
            Err(fault) => read_level_text(price@, quantity@) == Err::<LevelView, LevelFault>(fault),
        },
{
    match Decimal::parse(price) {
        None => Err(LevelFault::Price),
        Some(price) => match Decimal::parse(quantity) {
            None => Err(LevelFault::Quantity),
            Some(quantity) => Ok((price, quantity)),
        },
    }
}

proof fn lemma_levels_read(
    texts: Seq<(Seq<char>, Seq<char>)>,
    start: int,
    so_far: Seq<LevelView>,
)
    requires
        0 <= start <= texts.len(),
        read_levels_from(texts, start, so_far) is Ok,
    ensures
        ({
            let read = read_levels_from(texts, start, so_far)->Ok_0;
            &&& read.len() == so_far.len() + texts.len() - start
            &&& forall|i: int| 0 <= i < so_far.len() ==> #[trigger] read[i] == so_far[i]
            &&& forall|i: int|
                start <= i < texts.len() ==> {
                    let level = read[so_far.len() + i - start];
                    &&& parsed_decimal((#[trigger] texts[i]).0) == Some(level.price)
                    &&& parsed_decimal(texts[i].1) == Some(level.quantity)
                }
        }),
    decreases texts.len() - start,
{
    if start < texts.len() {
        let level = read_level_text(texts[start].0, texts[start].1)->Ok_0;
        let next = so_far.push(level);
        lemma_levels_read(texts, start + 1, next);
        let read = read_levels_from(texts, start, so_far)->Ok_0;
        assert(read[so_far.len() as int] == next[so_far.len() as int]);
        assert forall|i: int| 0 <= i < so_far.len() implies #[trigger] read[i] == so_far[i] by {
            assert(read[i] == next[i]);
        }
    }
}

/// A ladder that is read holds one level for each text and no other, at the price and of the
/// quantity that the text says, the best price first.
pub proof fn read_ladders_hold_every_level(
    texts: Seq<(Seq<char>, Seq<char>)>,
    descending: bool,
    ladder: Seq<LevelView>,
    place: int,
)
    requires
        read_ladder(texts, descending) == Ok::<Seq<LevelView>, LevelFault>(ladder),
        0 <= place < texts.len(),
    ensures
        ladder.len() == texts.len(),
        parsed_decimal(texts[place].0) is Some,
        parsed_decimal(texts[place].1) is Some,
        ladder.contains(
            LevelView {
                price: parsed_decimal(texts[place].0)->0,
                quantity: parsed_decimal(texts[place].1)->0,
            },
        ),
        !descending ==> ladder[0].price.units() <= parsed_decimal(texts[place].0)->0.units(),
        descending ==> ladder[0].price.units() >= parsed_decimal(texts[place].0)->0.units(),
{
    broadcast use vstd::seq_lib::group_to_multiset_ensures;

    let read = read_levels_from(texts, 0, Seq::empty())->Ok_0;
    lemma_levels_read(texts, 0, Seq::empty());
    sorting_keeps_levels(read, descending);
    first_level_is_best(read, descending, place);
    let level = read[place];
    assert(parsed_decimal(texts[place].0) == Some(level.price));
    assert(read.contains(level));
    assert(read.to_multiset().count(level) > 0);
    assert(ladder.to_multiset().count(level) > 0);
}

} // verus!
