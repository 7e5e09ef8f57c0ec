//! Markets, order books and what the observer reports of them.
use vstd::prelude::*;

use crate::decimal::{
    difference, exact_product, exact_products_multiply, exact_sum, exact_sums_add_up,
    negated_units, plus, positive_units, product, sum, view_of, whole, zero, zero_units, Decimal,
    DecimalView, MAX_SCALE,
};
use crate::ladder::LevelView;
use crate::text::{copy_option, text_of};
use crate::time::Timestamp;

verus! {

#[derive(Clone, Copy, Debug, PartialEq, Eq, Structural)]
pub enum Venue {
    Binance,
    Polymarket,
}

#[derive(Clone, Copy, Debug, PartialEq, Eq, Structural)]
pub enum Outcome {
    Up,
    Down,
}

#[derive(Clone, Copy, Debug, PartialEq, Eq, Structural)]
pub enum ArbitrageDirection {
    BinanceUpPolymarketDown,
    BinanceDownPolymarketUp,
}

#[derive(Clone, Copy, Debug, PartialEq, Eq, Structural)]
pub enum OrderStatus {
    Detected,
    Preparing,
    Submitting,
    PartiallyFilled,
    FullyFilled,
    Hedged,
    Cancelled,
    Rejected,
    Failed,
    Unhedged,
    Settled,
    Redeemed,
}

#[derive(Clone, Copy, Debug, PartialEq, Eq, Structural)]
pub enum MarketStatus {
    Open,
    Closed,
    Cancelled,
    Unknown,
}

/// How two markets on the same event relate: settled alike, settled by different rules,
/// or not about the same event at all.
#[derive(Clone, Copy, Debug, PartialEq, Eq, Structural)]
pub enum PairClassification {
    Exact,
    Basis,
    Incompatible,
}

/// The rules by which a market is resolved.
#[derive(Clone, Debug, PartialEq, Eq)]
pub struct ResolutionSpec {
    pub asset: String,
    pub quote_currency: String,
    pub price_feed_provider: String,
    pub price_feed_id: Option<String>,
    pub calculation: String,
    pub up_comparison: String,
    pub equal_rule: String,
    pub fallback_rule: Option<String>,
    pub collateral: String,
}

/// The rules by which a market is resolved, as characters.
#[verifier::ext_equal]
pub struct ResolutionView {
    pub asset: Seq<char>,
    pub quote_currency: Seq<char>,
    pub price_feed_provider: Seq<char>,
    pub price_feed_id: Option<Seq<char>>,
    pub calculation: Seq<char>,
    pub up_comparison: Seq<char>,
    pub equal_rule: Seq<char>,
    pub fallback_rule: Option<Seq<char>>,
    pub collateral: Seq<char>,
}

impl View for ResolutionSpec {
    type V = ResolutionView;

    open spec fn view(&self) -> ResolutionView {
        ResolutionView {
            asset: self.asset@,
            quote_currency: self.quote_currency@,
            price_feed_provider: self.price_feed_provider@,
            price_feed_id: text_of(self.price_feed_id),
            calculation: self.calculation@,
            up_comparison: self.up_comparison@,
            equal_rule: self.equal_rule@,
            fallback_rule: text_of(self.fallback_rule),
            collateral: self.collateral@,
        }
    }
}

#[derive(Clone, Debug, PartialEq, Eq)]
pub struct PairAssessment {
    pub classification: PairClassification,
    pub differences: Vec<String>,
}

/// What identifies the event a market is settled on.
#[derive(Clone, Debug, PartialEq, Eq)]
pub struct EventIdentity {
    pub asset: String,
    pub start_time: Timestamp,
    pub end_time: Timestamp,
    pub settlement_source: String,
    pub settlement_rule: String,
}

#[derive(Clone, Debug)]
pub struct Market {
    pub venue: Venue,
    pub market_id: String,
    pub symbol: String,
    pub outcome: Outcome,
    pub start_time: Timestamp,
    pub end_time: Timestamp,
    pub settlement_source: Option<String>,
    pub settlement_rule: Option<String>,
    pub status: MarketStatus,
}

impl Market {
    /// Whether both the settlement source and the settlement rule are known.
    pub open spec fn settlement_known(self) -> bool {
        self.settlement_source is Some && self.settlement_rule is Some
    }

    /// The event of the market, known only where its settlement is.
    pub fn identity(&self) -> (result: Option<EventIdentity>)
        ensures
            result is Some <==> self.settlement_known(),
            result matches Some(identity) ==> {
                &&& identity.asset == self.symbol
                &&& identity.start_time == self.start_time
                &&& identity.end_time == self.end_time
                &&& Some(identity.settlement_source) == self.settlement_source
                &&& Some(identity.settlement_rule) == self.settlement_rule
            },
    {
        Some(
            EventIdentity {
                asset: self.symbol.clone(),
                start_time: self.start_time,
                end_time: self.end_time,
                settlement_source: copy_option(&self.settlement_source)?,
                settlement_rule: copy_option(&self.settlement_rule)?,
            },
        )
    }
}

#[derive(Clone, Copy, Debug, PartialEq, Eq)]
pub struct PriceLevel {
    pub price: Decimal,
    pub quantity: Decimal,
}

/// The ladder made of price levels.
pub open spec fn ladder_view(levels: Seq<PriceLevel>) -> Seq<LevelView> {
    levels.map_values(
        |level: PriceLevel| (LevelView { price: level.price@, quantity: level.quantity@ }),
    )
}

/// A level offers a positive quantity at a positive price.
pub open spec fn is_usable(level: LevelView) -> bool {
    level.price.is_positive() && level.quantity.is_positive()
}

#[derive(Clone, Debug)]
pub struct OrderBook {
    pub venue: Venue,
    pub market_id: String,
    pub outcome: Outcome,
    pub bids: Vec<PriceLevel>,
    pub asks: Vec<PriceLevel>,
    pub timestamp: Timestamp,
}

/// The cost of buying `remaining` from the levels from `start` on, added to `cost`.
/// The outer `None` is an overflow, the inner one an order that the ladder cannot fill.
pub open spec fn cost_from(
    levels: Seq<LevelView>,
    start: int,
    remaining: DecimalView,
    cost: DecimalView,
) -> Option<Option<DecimalView>>
    decreases levels.len() - start,
{
    if start < 0 || start >= levels.len() || !is_usable(levels[start]) {
        Some(None)
    } else {
        let take = remaining.smaller(levels[start].quantity);
        match (plus(Some(cost), product(take, levels[start].price)), difference(remaining, take)) {
            (Some(next_cost), Some(rest)) => if rest.mantissa == 0 {
                Some(Some(next_cost))
            } else {
                cost_from(levels, start + 1, rest, next_cost)
            },
            _ => None,
        }
    }
}

/// The cost of buying a quantity from the asks in their order. There is one only for a
/// positive quantity, and where every level that is reached is usable and the depth suffices.
pub open spec fn cost_of(levels: Seq<LevelView>, quantity: DecimalView) -> Option<
    Option<DecimalView>,
> {
    if !quantity.is_positive() {
        Some(None)
    } else {
        cost_from(levels, 0, quantity, zero())
    }
}

/// Nothing is rounded in buying `remaining` from the levels from `start` on.
pub open spec fn unrounded_from(
    levels: Seq<LevelView>,
    start: int,
    remaining: DecimalView,
    cost: DecimalView,
) -> bool
    decreases levels.len() - start,
{
    if start < 0 || start >= levels.len() || !is_usable(levels[start]) {
        true
    } else {
        let take = remaining.smaller(levels[start].quantity);
        match (exact_product(take, levels[start].price), exact_sum(remaining, take.negated())) {
            (Some(paid), Some(rest)) => match exact_sum(cost, paid) {
                Some(next_cost) => rest.mantissa == 0 || unrounded_from(
                    levels,
                    start + 1,
                    rest,
                    next_cost,
                ),
                None => false,
            },
            _ => false,
        }
    }
}

/// Nothing is rounded in buying a quantity from the asks in their order.
pub open spec fn unrounded_cost(levels: Seq<LevelView>, quantity: DecimalView) -> bool {
    unrounded_from(levels, 0, quantity, zero())
}

proof fn lemma_cost_at_least(
    levels: Seq<LevelView>,
    start: int,
    remaining: DecimalView,
    cost: DecimalView,
    total: DecimalView,
    price: DecimalView,
)
    requires
        cost_from(levels, start, remaining, cost) == Some(Some(total)),
        unrounded_from(levels, start, remaining, cost),
        remaining.is_positive(),
        remaining.scale <= MAX_SCALE,
        cost.scale <= MAX_SCALE,
        forall|i: int|
            start <= i < levels.len() ==> (#[trigger] levels[i]).price.valid()
                && levels[i].quantity.valid() && price.le(levels[i].price),
    ensures
        (total.units() - cost.units()) * whole(1).units() >= remaining.units() * price.units(),
        total.scale <= MAX_SCALE,
    decreases levels.len() - start,
{
    let one = whole(1).units();
    let level = levels[start];
    let take = remaining.smaller(level.quantity);
    let paid = exact_product(take, level.price)->0;
    let rest = exact_sum(remaining, take.negated())->0;
    let next_cost = exact_sum(cost, paid)->0;
    positive_units(remaining);
    positive_units(level.quantity);
    positive_units(rest);
    exact_products_multiply(take, level.price, paid);
    exact_sums_add_up(cost, paid, next_cost);
    exact_sums_add_up(remaining, take.negated(), rest);
    negated_units(take);
    let (t, p, q) = (take.units(), level.price.units(), price.units());
    assert(t * p >= t * q) by (nonlinear_arith)
        requires
            t >= 0,
            p >= q,
    ;
    if rest.mantissa == 0 {
        let c = cost.units();
        assert((c + paid.units() - c) * one == paid.units() * one);
    } else {
        lemma_cost_at_least(levels, start + 1, rest, next_cost, total, price);
        let (c, d, n, r) = (cost.units(), total.units(), paid.units(), rest.units());
        assert((d - c) * one >= (r + t) * q) by (nonlinear_arith)
            requires
                (d - (c + n)) * one >= r * q,
                n * one >= t * q,
        ;
    }
}

/// Where nothing is rounded, a quantity costs at least its number times the lowest price.
pub proof fn cost_is_at_least_the_lowest_price(
    levels: Seq<LevelView>,
    quantity: DecimalView,
    cost: DecimalView,
    price: DecimalView,
)
    requires
        cost_of(levels, quantity) == Some(Some(cost)),
        unrounded_cost(levels, quantity),
        quantity.valid(),
        forall|i: int|
            0 <= i < levels.len() ==> (#[trigger] levels[i]).price.valid()
                && levels[i].quantity.valid() && price.le(levels[i].price),
    ensures
        cost.units() * whole(1).units() >= quantity.units() * price.units(),
        cost.scale <= MAX_SCALE,
{
    zero_units();
    lemma_cost_at_least(levels, 0, quantity, zero(), cost, price);
}

/// The quantity offered at usable levels from `start` on at a price of at most `limit`.
pub open spec fn quantity_from(
    levels: Seq<LevelView>,
    start: int,
    limit: DecimalView,
    total: DecimalView,
) -> Option<DecimalView>
    decreases levels.len() - start,
{
    if start < 0 || start >= levels.len() {
        Some(total)
    } else if is_usable(levels[start]) && levels[start].price.le(limit) {
        match sum(total, levels[start].quantity) {
            Some(next) => quantity_from(levels, start + 1, limit, next),
            None => None,
        }
    } else {
        quantity_from(levels, start + 1, limit, total)
    }
}

/// The view of a nested optional decimal.
pub open spec fn nested_view(value: Option<Option<Decimal>>) -> Option<Option<DecimalView>> {
    match value {
        Some(inner) => Some(view_of(inner)),
        None => None,
    }
}

impl PriceLevel {
    /// A level offers a positive quantity at a positive price.
    pub fn usable(&self) -> (result: bool)
        ensures
            result == is_usable(LevelView { price: self.price@, quantity: self.quantity@ }),
    {
        self.price.is_positive() && self.quantity.is_positive()
    }
}

impl OrderBook {
    /// The cost of buying `quantity` from the asks; the outer `None` is an overflow.
    pub fn checked_cost_for_quantity(&self, quantity: Decimal) -> (result: Option<Option<Decimal>>)
        ensures
            nested_view(result) == cost_of(ladder_view(self.asks@), quantity@),
    {
        if !quantity.is_positive() {
            return Some(None);
        }
        let mut remaining = quantity;
        let mut cost = Decimal::zero();
        let mut i: usize = 0;
        let ghost ladder = ladder_view(self.asks@);
        while i < self.asks.len()
            invariant
                ladder == ladder_view(self.asks@),
                i <= self.asks@.len(),
                quantity@.is_positive(),
                cost_of(ladder, quantity@) == cost_from(ladder, i as int, remaining@, cost@),
            decreases self.asks@.len() - i,
        {
            let level = self.asks[i];
            proof {
                assert(ladder[i as int] == (LevelView { price: level.price@, quantity: level.quantity@ }));
            }
            if !level.usable() {
                return Some(None);
            }
            let take = remaining.min(level.quantity);
            cost = cost.checked_add(take.checked_mul(level.price)?)?;
            remaining = remaining.checked_sub(take)?;
            if remaining.is_zero() {
                return Some(Some(cost));
            }
            i = i + 1;
        }
        Some(None)
    }

    /// The cost of buying `quantity` from the asks.
    pub fn cost_for_quantity(&self, quantity: Decimal) -> (result: Option<Decimal>)
        requires
            cost_of(ladder_view(self.asks@), quantity@) is Some,
        ensures
            Some(view_of(result)) == cost_of(ladder_view(self.asks@), quantity@),
    {
        self.checked_cost_for_quantity(quantity).unwrap()
    }

    /// The quantity offered at a price of at most `max_cost_per_unit`; `None` on overflow.
    pub fn checked_max_quantity_at_or_below(&self, max_cost_per_unit: Decimal) -> (result: Option<
        Decimal,
    >)
        ensures
            view_of(result) == quantity_from(
                ladder_view(self.asks@),
                0,
                max_cost_per_unit@,
                zero(),
            ),
    {
        let mut total = Decimal::zero();
        let mut i: usize = 0;
        let ghost ladder = ladder_view(self.asks@);
        while i < self.asks.len()
            invariant
                ladder == ladder_view(self.asks@),
                i <= self.asks@.len(),
                quantity_from(ladder, 0, max_cost_per_unit@, zero()) == quantity_from(
                    ladder,
                    i as int,
                    max_cost_per_unit@,
                    total@,
                ),
            decreases self.asks@.len() - i,
        {
            let level = self.asks[i];
            proof {
                assert(ladder[i as int] == (LevelView { price: level.price@, quantity: level.quantity@ }));
            }
            if level.usable() && level.price.at_most(&max_cost_per_unit) {
                total = total.checked_add(level.quantity)?;
            }
            i = i + 1;
        }
        Some(total)
    }

    /// The quantity offered at a price of at most `max_cost_per_unit`.
    pub fn max_quantity_at_or_below(&self, max_cost_per_unit: Decimal) -> (result: Decimal)
        requires
            quantity_from(ladder_view(self.asks@), 0, max_cost_per_unit@, zero()) is Some,
        ensures
            Some(result@) == quantity_from(
                ladder_view(self.asks@),
                0,
                max_cost_per_unit@,
                zero(),
            ),
    {
        self.checked_max_quantity_at_or_below(max_cost_per_unit).unwrap()
    }
}

/// A purchase of one outcome on each venue that pays more than it costs.
#[derive(Clone, Debug)]
pub struct ArbitrageOpportunity {
    pub direction: ArbitrageDirection,
    pub executable_size: Decimal,
    pub cost: Decimal,
    pub gross_payout: Decimal,
    pub gross_profit: Decimal,
    pub fees: Decimal,
    pub slippage: Decimal,
    pub safety_buffer: Decimal,
    pub net_profit: Decimal,
    pub net_profit_rate: Decimal,
    pub detected_at: Timestamp,
}

} // verus!
