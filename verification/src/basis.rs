//! Cash-and-carry on Binance: buying spot against a perpetual or a delivery contract.
use vstd::prelude::*;

use crate::binance::{
    public_ladder, public_ladders_are_sorted, BinanceFundingInfo, BinancePremiumIndex,
    BinancePublicOrderBook,
};
use crate::decimal::{
    ceilings_lie_above, difference, has_quotient, minus, miss, over, parsed_decimal,
    plain_notation, plus, positive_units, product, quotient, quotients_are_close, sum, times,
    view_of, whole, within_rounding, zero, zero_units, Decimal, DecimalView,
};
use crate::domain::nested_view;
use crate::ladder::{depth, ladder_of, level_of, total_quantity, LevelView};
use crate::text::{no_notes, note_if, push_note, same, text_of, texts_of};

verus! {

/// The largest amount of money put into one position.
pub const MAX_NOTIONAL: i64 = 1_000;

pub const SPOT_ROUND_TRIP_TAKER_BPS: i64 = 20;

pub const FUTURES_ROUND_TRIP_TAKER_BPS: i64 = 10;

pub const ROUND_TRIP_SLIPPAGE_BPS: i64 = 10;

pub const DEFAULT_FUNDING_INTERVAL_HOURS: i64 = 8;

pub const MAX_RESPONSE_SKEW_MS: i64 = 1_000;

pub const MAX_PREMIUM_AGE_MS: i64 = 5_000;

pub const CAPITAL_APR_BPS: i64 = 1_000;

pub const DELIVERY_SETTLEMENT_BUFFER_BPS: i64 = 2;

pub const MILLISECONDS_PER_YEAR: i64 = 31_536_000_000;

pub const MILLISECONDS_PER_DAY: i64 = 86_400_000;

pub const BASIS_POINTS: i64 = 10_000;

/// Basis of a perpetual against spot, with every number in decimal notation.
#[derive(Clone, Debug)]
pub struct BinanceBasisView {
    pub symbol: String,
    pub observed_at_ms: i64,
    pub quantity: String,
    pub spot_vwap_ask: String,
    pub perp_vwap_bid: String,
    pub spot_cost: String,
    pub perp_proceeds: String,
    pub entry_basis: String,
    pub entry_basis_rate: String,
    pub estimated_round_trip_fees: String,
    pub slippage_buffer: String,
    pub funding_rate: String,
    pub funding_interval_hours: i64,
    pub funding_income_per_round: String,
    pub projected_net_24h: String,
    pub projected_net_7d: String,
    pub funding_apr: String,
    pub break_even_rounds: Option<String>,
    pub mark_price: String,
    pub index_price: String,
    pub next_funding_time_ms: i64,
    pub response_skew_ms: i64,
    pub premium_age_ms: i64,
    pub scan_latency_ms: i64,
    pub rejections: Vec<String>,
}

/// The value of taking `remaining` from the levels from `start` on, added to `value`. The
/// outer `None` is an overflow, the inner one a ladder that is not deep enough.
pub open spec fn consumed_from(
    levels: Seq<LevelView>,
    start: int,
    remaining: DecimalView,
    value: DecimalView,
) -> Option<Option<DecimalView>>
    decreases levels.len() - start,
{
    if start < 0 || start >= levels.len() {
        Some(None)
    } else {
        let filled = remaining.smaller(levels[start].quantity);
        match (plus(Some(value), product(filled, levels[start].price)), difference(
            remaining,
            filled,
        )) {
            (Some(next), Some(rest)) => if !rest.is_positive() {
                Some(Some(next))
            } else {
                consumed_from(levels, start + 1, rest, next)
            },
            _ => None,
        }
    }
}

/// The value of taking a quantity from a ladder in its order.
pub open spec fn consumed(levels: Seq<LevelView>, quantity: DecimalView) -> Option<
    Option<DecimalView>,
> {
    consumed_from(levels, 0, quantity, zero())
}

/// The value of taking a quantity from a ladder in its order; the outer `None` is an overflow.
pub fn consume_depth(levels: &[(Decimal, Decimal)], quantity: Decimal) -> (result: Option<
    Option<Decimal>,
>)
    ensures
        nested_view(result) == consumed(ladder_of(levels@), quantity@),
{
    let mut remaining = quantity;
    let mut value = Decimal::zero();
    let mut i: usize = 0;
    let ghost ladder = ladder_of(levels@);
    while i < levels.len()
        invariant
            ladder == ladder_of(levels@),
            i <= levels@.len(),
            consumed(ladder, quantity@) == consumed_from(ladder, i as int, remaining@, value@),
        decreases levels@.len() - i,
    {
        proof {
            assert(ladder[i as int] == level_of(levels@[i as int]));
        }
        let (price, available) = levels[i];
        let filled = remaining.min(available);
        value = value.checked_add(filled.checked_mul(price)?)?;
        remaining = remaining.checked_sub(filled)?;
        if !remaining.is_positive() {
            return Some(Some(value));
        }
        i = i + 1;
    }
    Some(None)
}

/// The price of the level at which taking `remaining` from `start` on is complete.
pub open spec fn limit_from(levels: Seq<LevelView>, start: int, remaining: DecimalView) -> Option<
    Option<DecimalView>,
>
    decreases levels.len() - start,
{
    if start < 0 || start >= levels.len() {
        Some(None)
    } else {
        match difference(remaining, remaining.smaller(levels[start].quantity)) {
            None => None,
            Some(rest) => if !rest.is_positive() {
                Some(Some(levels[start].price))
            } else {
                limit_from(levels, start + 1, rest)
            },
        }
    }
}

/// The price of the last level needed for a quantity; the outer `None` is an overflow.
pub fn limit_price_for_quantity(levels: &[(Decimal, Decimal)], quantity: Decimal) -> (result:
    Option<Result<Decimal, String>>)
    ensures
        match limit_from(ladder_of(levels@), 0, quantity@) {
            None => result is None,
            Some(None) => result matches Some(Err(error)) && error@ == "限价内深度不足"@,
            Some(Some(price)) => result matches Some(Ok(found)) && found@ == price,
        },
{
    let mut remaining = quantity;
    let mut i: usize = 0;
    let ghost ladder = ladder_of(levels@);
    while i < levels.len()
        invariant
            ladder == ladder_of(levels@),
            i <= levels@.len(),
            limit_from(ladder, 0, quantity@) == limit_from(ladder, i as int, remaining@),
        decreases levels@.len() - i,
    {
        proof {
            assert(ladder[i as int] == level_of(levels@[i as int]));
        }
        let (price, available) = levels[i];
        remaining = remaining.checked_sub(remaining.min(available))?;
        if !remaining.is_positive() {
            return Some(Ok(price));
        }
        i = i + 1;
    }
    Some(Err("限价内深度不足".to_owned()))
}

/// A buyer pays at most the limit, a seller receives at least the limit.
pub open spec fn price_allowed(price: DecimalView, limit: DecimalView, is_buy: bool) -> bool {
    if is_buy {
        price.le(limit)
    } else {
        limit.le(price)
    }
}

/// [`consumed_from`] that passes over the levels whose price the limit does not allow.
pub open spec fn consumed_at_limit_from(
    levels: Seq<LevelView>,
    start: int,
    limit: DecimalView,
    is_buy: bool,
    remaining: DecimalView,
    value: DecimalView,
) -> Option<Option<DecimalView>>
    decreases levels.len() - start,
{
    if start < 0 || start >= levels.len() {
        Some(None)
    } else if !price_allowed(levels[start].price, limit, is_buy) {
        consumed_at_limit_from(levels, start + 1, limit, is_buy, remaining, value)
    } else {
        let filled = remaining.smaller(levels[start].quantity);
        match (plus(Some(value), product(filled, levels[start].price)), difference(
            remaining,
            filled,
        )) {
            (Some(next), Some(rest)) => if !rest.is_positive() {
                Some(Some(next))
            } else {
                consumed_at_limit_from(levels, start + 1, limit, is_buy, rest, next)
            },
            _ => None,
        }
    }
}

/// The value of taking a quantity at allowed prices only; the outer `None` is an overflow.
pub fn consume_depth_at_limit(
    levels: &[(Decimal, Decimal)],
    quantity: Decimal,
    limit_price: Decimal,
    is_buy: bool,
) -> (result: Option<Option<Decimal>>)
    ensures
        nested_view(result) == consumed_at_limit_from(
            ladder_of(levels@),
            0,
            limit_price@,
            is_buy,
            quantity@,
            zero(),
        ),
{
    let mut remaining = quantity;
    let mut value = Decimal::zero();
    let mut i: usize = 0;
    let ghost ladder = ladder_of(levels@);
    while i < levels.len()
        invariant
            ladder == ladder_of(levels@),
            i <= levels@.len(),
            consumed_at_limit_from(ladder, 0, limit_price@, is_buy, quantity@, zero())
                == consumed_at_limit_from(
                ladder,
                i as int,
                limit_price@,
                is_buy,
                remaining@,
                value@,
            ),
        decreases levels@.len() - i,
    {
        proof {
            assert(ladder[i as int] == level_of(levels@[i as int]));
        }
        let (price, available) = levels[i];
        let allowed = if is_buy {
            price.at_most(&limit_price)
        } else {
            limit_price.at_most(&price)
        };
        if allowed {
            let filled = remaining.min(available);
            value = value.checked_add(filled.checked_mul(price)?)?;
            remaining = remaining.checked_sub(filled)?;
            if !remaining.is_positive() {
                return Some(Some(value));
            }
        }
        i = i + 1;
    }
    Some(None)
}

/// A position as it is entered: bought spot, sold contract, and what that costs.
pub struct EntryFigures {
    pub quantity: DecimalView,
    pub spot_cost: DecimalView,
    pub proceeds: DecimalView,
    pub spot_vwap: DecimalView,
    pub proceeds_vwap: DecimalView,
    pub basis: DecimalView,
    pub basis_rate: DecimalView,
    pub fees: DecimalView,
    pub slippage: DecimalView,
}

/// `amount` times a number of basis points.
pub open spec fn basis_points_of(amount: Option<DecimalView>, points: int) -> Option<DecimalView> {
    over(times(amount, Some(whole(points))), Some(whole(BASIS_POINTS as int)))
}

/// The figures of a position of `quantity`; `None` on overflow or where something is divided
/// by zero.
pub open spec fn entry_figures(
    quantity: DecimalView,
    spot_cost: DecimalView,
    proceeds: DecimalView,
) -> Option<EntryFigures> {
    let basis = difference(proceeds, spot_cost);
    let fees = over(
        plus(
            product(spot_cost, whole(SPOT_ROUND_TRIP_TAKER_BPS as int)),
            product(proceeds, whole(FUTURES_ROUND_TRIP_TAKER_BPS as int)),
        ),
        Some(whole(BASIS_POINTS as int)),
    );
    let slippage = basis_points_of(sum(spot_cost, proceeds), ROUND_TRIP_SLIPPAGE_BPS as int);
    match (
        quotient(spot_cost, quantity),
        quotient(proceeds, quantity),
        basis,
        over(basis, Some(spot_cost)),
        fees,
        slippage,
    ) {
        (
            Some(spot_vwap),
            Some(proceeds_vwap),
            Some(basis),
            Some(basis_rate),
            Some(fees),
            Some(slippage),
        ) => Some(
            EntryFigures {
                quantity,
                spot_cost,
                proceeds,
                spot_vwap,
                proceeds_vwap,
                basis,
                basis_rate,
                fees,
                slippage,
            },
        ),
        _ => None,
    }
}

/// A position as it is entered.
#[derive(Clone, Copy, Debug)]
pub struct Entry {
    pub quantity: Decimal,
    pub spot_cost: Decimal,
    pub proceeds: Decimal,
    pub spot_vwap: Decimal,
    pub proceeds_vwap: Decimal,
    pub basis: Decimal,
    pub basis_rate: Decimal,
    pub fees: Decimal,
    pub slippage: Decimal,
}

impl View for Entry {
    type V = EntryFigures;

    open spec fn view(&self) -> EntryFigures {
        EntryFigures {
            quantity: self.quantity@,
            spot_cost: self.spot_cost@,
            proceeds: self.proceeds@,
            spot_vwap: self.spot_vwap@,
            proceeds_vwap: self.proceeds_vwap@,
            basis: self.basis@,
            basis_rate: self.basis_rate@,
            fees: self.fees@,
            slippage: self.slippage@,
        }
    }
}

/// `amount` times a number of basis points; `None` on overflow.
pub fn basis_points(amount: Decimal, points: i64) -> (result: Option<Decimal>)
    ensures
        view_of(result) == basis_points_of(Some(amount@), points as int),
{
    amount.checked_mul(Decimal::from_i64(points))?.checked_div(Decimal::from_i64(BASIS_POINTS))
}

/// The figures of a position of `quantity`.
fn enter_position(quantity: Decimal, spot_cost: Decimal, proceeds: Decimal) -> (result: Option<Entry>)
    ensures
        match result {
            Some(entry) => entry_figures(quantity@, spot_cost@, proceeds@) == Some(entry@),
            None => entry_figures(quantity@, spot_cost@, proceeds@) is None,
        },
{
    let spot_vwap = spot_cost.checked_div(quantity)?;
    let proceeds_vwap = proceeds.checked_div(quantity)?;
    let basis = proceeds.checked_sub(spot_cost)?;
    let basis_rate = basis.checked_div(spot_cost)?;
    let spot_fees = spot_cost.checked_mul(Decimal::from_i64(SPOT_ROUND_TRIP_TAKER_BPS))?;
    let futures_fees = proceeds.checked_mul(Decimal::from_i64(FUTURES_ROUND_TRIP_TAKER_BPS))?;
    let fees = spot_fees.checked_add(futures_fees)?.checked_div(Decimal::from_i64(BASIS_POINTS))?;
    let slippage = basis_points(spot_cost.checked_add(proceeds)?, ROUND_TRIP_SLIPPAGE_BPS)?;
    Some(
        Entry {
            quantity,
            spot_cost,
            proceeds,
            spot_vwap,
            proceeds_vwap,
            basis,
            basis_rate,
            fees,
            slippage,
        },
    )
}

/// What the largest position may hold: the notional at the best ask, within both ladders.
pub open spec fn capacity(spot: Seq<LevelView>, contract: Seq<LevelView>) -> Option<DecimalView> {
    match (
        quotient(whole(MAX_NOTIONAL as int), spot[0].price),
        depth(spot),
        depth(contract),
    ) {
        (Some(affordable), Some(spot_depth), Some(contract_depth)) => Some(
            affordable.smaller(spot_depth).smaller(contract_depth),
        ),
        _ => None,
    }
}

/// The quantity that the largest position may hold; `None` on overflow or at a price of zero.
pub fn position_capacity(spot: &[(Decimal, Decimal)], contract: &[(Decimal, Decimal)]) -> (result: Option<
    Decimal,
>)
    requires
        spot@.len() > 0,
    ensures
        view_of(result) == capacity(ladder_of(spot@), ladder_of(contract@)),
{
    proof {
        assert(ladder_of(spot@)[0] == level_of(spot@[0]));
    }
    let spot_depth = total_quantity(spot)?;
    let contract_depth = total_quantity(contract)?;
    let affordable = Decimal::from_i64(MAX_NOTIONAL).checked_div(spot[0].0)?;
    Some(affordable.min(spot_depth).min(contract_depth))
}

/// The entry of a position of `quantity` on two ladders; the inner `None` says that one of
/// them is not deep enough.
pub open spec fn entry_on(
    spot: Seq<LevelView>,
    contract: Seq<LevelView>,
    quantity: DecimalView,
) -> Option<Option<EntryFigures>> {
    match consumed(spot, quantity) {
        None => None,
        Some(None) => Some(None),
        Some(Some(spot_cost)) => match consumed(contract, quantity) {
            None => None,
            Some(None) => Some(None),
            Some(Some(proceeds)) => match entry_figures(quantity, spot_cost, proceeds) {
                None => None,
                Some(entry) => Some(Some(entry)),
            },
        },
    }
}

pub fn enter_on(
    spot: &[(Decimal, Decimal)],
    contract: &[(Decimal, Decimal)],
    quantity: Decimal,
) -> (result: Option<Option<Entry>>)
    ensures
        match entry_on(ladder_of(spot@), ladder_of(contract@), quantity@) {
            None => result is None,
            Some(None) => result matches Some(None),
            Some(Some(figures)) => result matches Some(Some(entry)) && entry@ == figures,
        },
{
    let spot_cost = match consume_depth(spot, quantity)? {
        Some(cost) => cost,
        None => return Some(None),
    };
    let proceeds = match consume_depth(contract, quantity)? {
        Some(value) => value,
        None => return Some(None),
    };
    Some(Some(enter_position(quantity, spot_cost, proceeds)?))
}

/// The basis of a perpetual: the entry and what the funding makes of it.
pub struct BasisFigures {
    pub entry: EntryFigures,
    pub funding_income: DecimalView,
    pub projected_net_24h: DecimalView,
    pub projected_net_7d: DecimalView,
    pub funding_apr: DecimalView,
    pub break_even_rounds: Option<DecimalView>,
}

/// The number of fundings after which the costs of a position are earned, as far as there is
/// one; the outer `None` is an overflow.
pub open spec fn break_even(entry: EntryFigures, income: DecimalView) -> Option<
    Option<DecimalView>,
> {
    match minus(sum(entry.fees, entry.slippage), Some(entry.basis)) {
        None => None,
        Some(missing) => {
            let required = missing.larger(zero());
            if required.mantissa == 0 {
                Some(Some(zero()))
            } else if income.is_positive() {
                match quotient(required, income) {
                    None => None,
                    Some(rounds) => Some(Some(rounds.ceiled())),
                }
            } else {
                Some(None)
            }
        },
    }
}

/// What the funding makes of an entry, at one funding every `hours` hours.
pub open spec fn funded(
    entry: EntryFigures,
    income: DecimalView,
    funding_rate: DecimalView,
    hours: int,
) -> Option<BasisFigures> {
    let per_day = quotient(whole(24), whole(hours));
    let base_net = minus(difference(entry.basis, entry.fees), Some(entry.slippage));
    let daily = times(Some(income), per_day);
    match (
        plus(base_net, daily),
        plus(base_net, times(daily, Some(whole(7)))),
        times(times(Some(funding_rate), per_day), Some(whole(365))),
        break_even(entry, income),
    ) {
        (
            Some(projected_net_24h),
            Some(projected_net_7d),
            Some(funding_apr),
            Some(break_even_rounds),
        ) => Some(
            BasisFigures {
                entry,
                funding_income: income,
                projected_net_24h,
                projected_net_7d,
                funding_apr,
                break_even_rounds,
            },
        ),
        _ => None,
    }
}

/// The basis of a perpetual against spot. The outer `None` is an overflow; the inner one says
/// that a price, the depth or the funding interval does not allow for a position.
pub open spec fn perpetual_basis(
    spot: Seq<LevelView>,
    perp: Seq<LevelView>,
    mark_price: DecimalView,
    funding_rate: DecimalView,
    hours: int,
) -> Option<Option<BasisFigures>> {
    if spot.len() == 0 || !spot[0].price.is_positive() || !mark_price.is_positive() {
        Some(None)
    } else {
        match capacity(spot, perp) {
            None => None,
            Some(quantity) => if !quantity.is_positive() {
                Some(None)
            } else {
                match entry_on(spot, perp, quantity) {
                    None => None,
                    Some(None) => Some(None),
                    Some(Some(entry)) => match times(
                        product(mark_price, quantity),
                        Some(funding_rate),
                    ) {
                        None => None,
                        Some(income) => if hours <= 0 || 24int % hours != 0 {
                            Some(None)
                        } else {
                            match funded(entry, income, funding_rate, hours) {
                                None => None,
                                Some(figures) => Some(Some(figures)),
                            }
                        },
                    },
                }
            },
        }
    }
}

/// Why a basis is no trade.
pub open spec fn basis_rejections(
    funding_rate: DecimalView,
    projected_net_24h: DecimalView,
    response_skew_ms: i64,
    premium_age_ms: i64,
) -> Seq<Seq<char>> {
    note_if(!funding_rate.is_positive(), "当前资金费率不利于买现货、空永续"@) + note_if(
        !projected_net_24h.is_positive(),
        "按当前资金费率投影 24 小时仍无正净收益"@,
    ) + note_if(
        response_skew_ms > MAX_RESPONSE_SKEW_MS,
        "现货与永续接口响应完成时差超过 1 秒"@,
    ) + note_if(
        premium_age_ms > MAX_PREMIUM_AGE_MS,
        "永续标记价或资金费率数据超过 5 秒"@,
    )
}

/// Every number of a view is that of the figures, in plain notation.
pub open spec fn shows_basis(
    view: BinanceBasisView,
    figures: BasisFigures,
    funding_rate: DecimalView,
) -> bool {
    &&& view.quantity@ == plain_notation(figures.entry.quantity)
    &&& view.spot_vwap_ask@ == plain_notation(figures.entry.spot_vwap)
    &&& view.perp_vwap_bid@ == plain_notation(figures.entry.proceeds_vwap)
    &&& view.spot_cost@ == plain_notation(figures.entry.spot_cost)
    &&& view.perp_proceeds@ == plain_notation(figures.entry.proceeds)
    &&& view.entry_basis@ == plain_notation(figures.entry.basis)
    &&& view.entry_basis_rate@ == plain_notation(figures.entry.basis_rate)
    &&& view.estimated_round_trip_fees@ == plain_notation(figures.entry.fees)
    &&& view.slippage_buffer@ == plain_notation(figures.entry.slippage)
    &&& view.funding_rate@ == plain_notation(funding_rate)
    &&& view.funding_income_per_round@ == plain_notation(figures.funding_income)
    &&& view.projected_net_24h@ == plain_notation(figures.projected_net_24h)
    &&& view.projected_net_7d@ == plain_notation(figures.projected_net_7d)
    &&& view.funding_apr@ == plain_notation(figures.funding_apr)
    &&& text_of(view.break_even_rounds) == (match figures.break_even_rounds {
        Some(rounds) => Some(plain_notation(rounds)),
        None => None,
    })
    &&& texts_of(view.rejections@) == basis_rejections(
        funding_rate,
        figures.projected_net_24h,
        view.response_skew_ms,
        view.premium_age_ms,
    )
}

/// The plain notation of an optional decimal.
pub fn optional_text(value: Option<Decimal>) -> (result: Option<String>)
    ensures
        text_of(result) == (match view_of(value) {
            Some(number) => Some(plain_notation(number)),
            None => None,
        }),
{
    match value {
        Some(number) => Some(number.plain_text()),
        None => None,
    }
}

/// The number of fundings after which the costs of a position are earned.
fn break_even_rounds(entry: &Entry, income: Decimal) -> (result: Option<Option<Decimal>>)
    ensures
        nested_view(result) == break_even(entry@, income@),
{
    let missing = entry.fees.checked_add(entry.slippage)?.checked_sub(entry.basis)?;
    let required = missing.max(Decimal::zero());
    if required.is_zero() {
        Some(Some(Decimal::zero()))
    } else if income.is_positive() {
        Some(Some(required.checked_div(income)?.ceil()))
    } else {
        Some(None)
    }
}

/// The basis of a perpetual against spot; the outer `None` is an overflow.
pub fn checked_calculate_basis(
    symbol: &str,
    observed_at_ms: i64,
    spot_asks: &[(Decimal, Decimal)],
    perp_bids: &[(Decimal, Decimal)],
    mark_price: Decimal,
    index_price: Decimal,
    funding_rate: Decimal,
    funding_interval_hours: i64,
    next_funding_time_ms: i64,
    response_skew_ms: i64,
    premium_age_ms: i64,
    scan_latency_ms: i64,
) -> (result: Option<Option<BinanceBasisView>>)
    ensures
        match perpetual_basis(
            ladder_of(spot_asks@),
            ladder_of(perp_bids@),
            mark_price@,
            funding_rate@,
            funding_interval_hours as int,
        ) {
            None => result is None,
            Some(None) => result matches Some(None),
            Some(Some(figures)) => result matches Some(Some(view)) && {
                &&& shows_basis(view, figures, funding_rate@)
                &&& view.symbol@ == symbol@
                &&& view.observed_at_ms == observed_at_ms
                &&& view.funding_interval_hours == funding_interval_hours
                &&& view.mark_price@ == plain_notation(mark_price@)
                &&& view.index_price@ == plain_notation(index_price@)
                &&& view.next_funding_time_ms == next_funding_time_ms
                &&& view.response_skew_ms == response_skew_ms
                &&& view.premium_age_ms == premium_age_ms
                &&& view.scan_latency_ms == scan_latency_ms
            },
        },
{
    if spot_asks.len() == 0 {
        return Some(None);
    }
    proof {
        assert(ladder_of(spot_asks@)[0] == level_of(spot_asks@[0]));
    }
    if !spot_asks[0].0.is_positive() || !mark_price.is_positive() {
        return Some(None);
    }
    let quantity = position_capacity(spot_asks, perp_bids)?;
    if !quantity.is_positive() {
        return Some(None);
    }
    let entry = match enter_on(spot_asks, perp_bids, quantity)? {
        Some(entry) => entry,
        None => return Some(None),
    };
    let income = mark_price.checked_mul(quantity)?.checked_mul(funding_rate)?;
    if funding_interval_hours <= 0 || 24 % funding_interval_hours != 0 {
        return Some(None);
    }
    let per_day = Decimal::from_i64(24).checked_div(Decimal::from_i64(funding_interval_hours))?;
    let base_net = entry.basis.checked_sub(entry.fees)?.checked_sub(entry.slippage)?;
    let daily = income.checked_mul(per_day)?;
    let projected_net_24h = base_net.checked_add(daily)?;
    let projected_net_7d = base_net.checked_add(daily.checked_mul(Decimal::from_i64(7))?)?;
    let funding_apr = funding_rate.checked_mul(per_day)?.checked_mul(Decimal::from_i64(365))?;
    let rounds = break_even_rounds(&entry, income)?;
    let mut rejections = no_notes();
    push_note(
        &mut rejections,
        !funding_rate.is_positive(),
        "当前资金费率不利于买现货、空永续",
    );
    push_note(
        &mut rejections,
        !projected_net_24h.is_positive(),
        "按当前资金费率投影 24 小时仍无正净收益",
    );
    push_note(
        &mut rejections,
        response_skew_ms > MAX_RESPONSE_SKEW_MS,
        "现货与永续接口响应完成时差超过 1 秒",
    );
    push_note(
        &mut rejections,
        premium_age_ms > MAX_PREMIUM_AGE_MS,
        "永续标记价或资金费率数据超过 5 秒",
    );
    proof {
        assert(texts_of(rejections@) =~= basis_rejections(
            funding_rate@,
            projected_net_24h@,
            response_skew_ms,
            premium_age_ms,
        ));
    }
    Some(
        Some(
            BinanceBasisView {
                symbol: symbol.to_owned(),
                observed_at_ms,
                quantity: quantity.plain_text(),
                spot_vwap_ask: entry.spot_vwap.plain_text(),
                perp_vwap_bid: entry.proceeds_vwap.plain_text(),
                spot_cost: entry.spot_cost.plain_text(),
                perp_proceeds: entry.proceeds.plain_text(),
                entry_basis: entry.basis.plain_text(),
                entry_basis_rate: entry.basis_rate.plain_text(),
                estimated_round_trip_fees: entry.fees.plain_text(),
                slippage_buffer: entry.slippage.plain_text(),
                funding_rate: funding_rate.plain_text(),
                funding_interval_hours,
                funding_income_per_round: income.plain_text(),
                projected_net_24h: projected_net_24h.plain_text(),
                projected_net_7d: projected_net_7d.plain_text(),
                funding_apr: funding_apr.plain_text(),
                break_even_rounds: optional_text(rounds),
                mark_price: mark_price.plain_text(),
                index_price: index_price.plain_text(),
                next_funding_time_ms,
                response_skew_ms,
                premium_age_ms,
                scan_latency_ms,
                rejections,
            },
        ),
    )
}

/// The basis of a perpetual against spot.
pub fn calculate_basis(
    symbol: &str,
    observed_at_ms: i64,
    spot_asks: &[(Decimal, Decimal)],
    perp_bids: &[(Decimal, Decimal)],
    mark_price: Decimal,
    index_price: Decimal,
    funding_rate: Decimal,
    funding_interval_hours: i64,
    next_funding_time_ms: i64,
    response_skew_ms: i64,
    premium_age_ms: i64,
    scan_latency_ms: i64,
) -> (result: Option<BinanceBasisView>)
    requires
        perpetual_basis(
            ladder_of(spot_asks@),
            ladder_of(perp_bids@),
            mark_price@,
            funding_rate@,
            funding_interval_hours as int,
        ) is Some,
    ensures
        match perpetual_basis(
            ladder_of(spot_asks@),
            ladder_of(perp_bids@),
            mark_price@,
            funding_rate@,
            funding_interval_hours as int,
        )->0 {
            None => result is None,
            Some(figures) => result matches Some(view) && {
                &&& shows_basis(view, figures, funding_rate@)
                &&& view.symbol@ == symbol@
                &&& view.observed_at_ms == observed_at_ms
                &&& view.funding_interval_hours == funding_interval_hours
                &&& view.mark_price@ == plain_notation(mark_price@)
                &&& view.index_price@ == plain_notation(index_price@)
                &&& view.next_funding_time_ms == next_funding_time_ms
                &&& view.response_skew_ms == response_skew_ms
                &&& view.premium_age_ms == premium_age_ms
                &&& view.scan_latency_ms == scan_latency_ms
            },
        },
{
    checked_calculate_basis(
        symbol,
        observed_at_ms,
        spot_asks,
        perp_bids,
        mark_price,
        index_price,
        funding_rate,
        funding_interval_hours,
        next_funding_time_ms,
        response_skew_ms,
        premium_age_ms,
        scan_latency_ms,
    ).unwrap()
}

/// The distance of two times, as a signed number of the same 64 bits.
pub open spec fn wrapped_gap(a: int, b: int) -> int {
    let gap = if a >= b {
        a - b
    } else {
        b - a
    };
    if gap <= i64::MAX {
        gap
    } else {
        gap - 0x1_0000_0000_0000_0000
    }
}

/// The distance of two times in milliseconds.
pub fn gap_ms(a: i64, b: i64) -> (result: i64)
    ensures
        result == wrapped_gap(a as int, b as int),
{
    let wide: i128 = if a >= b {
        a as i128 - b as i128
    } else {
        b as i128 - a as i128
    };
    if wide <= i64::MAX as i128 {
        wide as i64
    } else {
        (wide - 0x1_0000_0000_0000_0000) as i64
    }
}

/// The funding interval of a symbol: the last one announced for it, else the usual one.
pub open spec fn interval_of(infos: Seq<BinanceFundingInfo>, symbol: Seq<char>) -> int
    decreases infos.len(),
{
    if infos.len() == 0 {
        DEFAULT_FUNDING_INTERVAL_HOURS as int
    } else if infos.last().symbol@ == symbol {
        infos.last().funding_interval_hours as int
    } else {
        interval_of(infos.drop_last(), symbol)
    }
}

/// The funding interval of a symbol in hours.
pub fn funding_interval(infos: &Vec<BinanceFundingInfo>, symbol: &str) -> (result: i64)
    ensures
        result == interval_of(infos@, symbol@),
{
    let mut i: usize = infos.len();
    proof {
        assert(infos@.take(i as int) =~= infos@);
    }
    while i > 0
        invariant
            i <= infos@.len(),
            interval_of(infos@, symbol@) == interval_of(infos@.take(i as int), symbol@),
        decreases i,
    {
        proof {
            assert(infos@.take(i as int).drop_last() =~= infos@.take(i - 1));
        }
        if same(infos[i - 1].symbol.as_str(), symbol) {
            return infos[i - 1].funding_interval_hours;
        }
        i = i - 1;
    }
    DEFAULT_FUNDING_INTERVAL_HOURS
}

/// The basis that a round of answers comes to: the first field that cannot be read decides,
/// then the depth. The outer `None` is an overflow.
pub open spec fn answered_basis(
    symbol: Seq<char>,
    spot: BinancePublicOrderBook,
    perp: BinancePublicOrderBook,
    premium: BinancePremiumIndex,
    hours: int,
) -> Option<Result<BasisFigures, Seq<char>>> {
    match public_ladder(spot.asks@, false) {
        Err(fault) => Some(Err(fault.words())),
        Ok(spot_ladder) => match public_ladder(perp.bids@, true) {
            Err(fault) => Some(Err(fault.words())),
            Ok(perp_ladder) => match (
                parsed_decimal(premium.mark_price@),
                parsed_decimal(premium.index_price@),
                parsed_decimal(premium.last_funding_rate@),
            ) {
                (None, _, _) => Some(Err("标记价格无效"@)),
                (_, None, _) => Some(Err("指数价格无效"@)),
                (_, _, None) => Some(Err("资金费率无效"@)),
                (Some(mark), Some(_), Some(rate)) => match perpetual_basis(
                    spot_ladder,
                    perp_ladder,
                    mark,
                    rate,
                    hours,
                ) {
                    None => None,
                    Some(None) => Some(Err(symbol + " 订单簿深度不足"@)),
                    Some(Some(figures)) => Some(Ok(figures)),
                },
            },
        },
    }
}

/// Whether a view of the basis shows what the answers it comes from say of themselves.
pub open spec fn answers_shown(
    view: BinanceBasisView,
    symbol: Seq<char>,
    observed_at_ms: i64,
    spot_completed_at_ms: i64,
    perp_completed_at_ms: i64,
    premium: BinancePremiumIndex,
    funding_interval_hours: i64,
    scan_latency_ms: i64,
) -> bool {
    &&& view.symbol@ == symbol
    &&& view.observed_at_ms == observed_at_ms
    &&& view.funding_interval_hours == funding_interval_hours
    &&& view.mark_price@ == plain_notation(parsed_decimal(premium.mark_price@)->0)
    &&& view.index_price@ == plain_notation(parsed_decimal(premium.index_price@)->0)
    &&& view.next_funding_time_ms == premium.next_funding_time
    &&& view.response_skew_ms == wrapped_gap(
        spot_completed_at_ms as int,
        perp_completed_at_ms as int,
    )
    &&& view.premium_age_ms == wrapped_gap(observed_at_ms as int, premium.time as int)
    &&& view.scan_latency_ms == scan_latency_ms
}

/// What a round of answers on a symbol comes to; the outer `None` is an overflow.
pub fn basis_from_answers(
    symbol: &str,
    observed_at_ms: i64,
    spot: &BinancePublicOrderBook,
    spot_completed_at_ms: i64,
    perp: &BinancePublicOrderBook,
    perp_completed_at_ms: i64,
    premium: &BinancePremiumIndex,
    funding_interval_hours: i64,
    scan_latency_ms: i64,
) -> (result: Option<Result<BinanceBasisView, String>>)
    ensures
        match answered_basis(symbol@, *spot, *perp, *premium, funding_interval_hours as int) {
            None => result is None,
            Some(Err(words)) => result matches Some(Err(error)) && error@ == words,
            Some(Ok(figures)) => result matches Some(Ok(view)) && {
                &&& shows_basis(view, figures, parsed_decimal(premium.last_funding_rate@)->0)
                &&& answers_shown(
                    view,
                    symbol@,
                    observed_at_ms,
                    spot_completed_at_ms,
                    perp_completed_at_ms,
                    *premium,
                    funding_interval_hours,
                    scan_latency_ms,
                )
            },
        },
{
    let spot_levels = match spot.ask_levels() {
        Ok(levels) => levels,
        Err(error) => return Some(Err(error.message())),
    };
    let perp_levels = match perp.bid_levels() {
        Ok(levels) => levels,
        Err(error) => return Some(Err(error.message())),
    };
    let mark_price = match Decimal::parse(premium.mark_price.as_str()) {
        Some(price) => price,
        None => return Some(Err("标记价格无效".to_owned())),
    };
    let index_price = match Decimal::parse(premium.index_price.as_str()) {
        Some(price) => price,
        None => return Some(Err("指数价格无效".to_owned())),
    };
    let funding_rate = match Decimal::parse(premium.last_funding_rate.as_str()) {
        Some(rate) => rate,
        None => return Some(Err("资金费率无效".to_owned())),
    };
    let view = checked_calculate_basis(
        symbol,
        observed_at_ms,
        spot_levels.as_slice(),
        perp_levels.as_slice(),
        mark_price,
        index_price,
        funding_rate,
        funding_interval_hours,
        premium.next_funding_time,
        gap_ms(spot_completed_at_ms, perp_completed_at_ms),
        gap_ms(observed_at_ms, premium.time),
        scan_latency_ms,
    )?;
    match view {
        Some(view) => Some(Ok(view)),
        None => Some(Err(symbol.to_owned().concat(" 订单簿深度不足"))),
    }
}

/// A basis without a rejection earns money within a day at the current, positive funding
/// rate, and rests on answers that are close together and recent.
pub proof fn accepted_basis_is_sound(
    funding_rate: DecimalView,
    projected_net_24h: DecimalView,
    response_skew_ms: i64,
    premium_age_ms: i64,
)
    ensures
        basis_rejections(funding_rate, projected_net_24h, response_skew_ms, premium_age_ms).len()
            == 0 <==> {
            &&& funding_rate.is_positive()
            &&& projected_net_24h.is_positive()
            &&& response_skew_ms <= MAX_RESPONSE_SKEW_MS
            &&& premium_age_ms <= MAX_PREMIUM_AGE_MS
        },
{
}

/// A position never holds more than either ladder offers, and no more than the notional
/// affords at the best ask.
pub proof fn capacity_is_bounded(
    spot: Seq<LevelView>,
    contract: Seq<LevelView>,
    quantity: DecimalView,
)
    requires
        capacity(spot, contract) == Some(quantity),
    ensures
        depth(spot) matches Some(spot_depth) && quantity.le(spot_depth),
        depth(contract) matches Some(contract_depth) && quantity.le(contract_depth),
        quotient(whole(MAX_NOTIONAL as int), spot[0].price) matches Some(affordable)
            && quantity.le(affordable),
{
}

/// The fundings to break even are the fewest that earn the costs which the basis does not cover:
/// they earn them and one less would not, up to the rounding of their number. Without that
/// rounding this is so exactly.
pub proof fn break_even_rounds_are_the_fewest(
    entry: EntryFigures,
    income: DecimalView,
    missing: DecimalView,
    rounds: DecimalView,
    count: int,
)
    requires
        minus(sum(entry.fees, entry.slippage), Some(entry.basis)) == Some(missing),
        break_even(entry, income) == Some(Some(rounds)),
        income.is_positive(),
    ensures
        rounds.scale == 0,
        !missing.is_positive() ==> rounds.mantissa == 0,
        missing.is_positive() ==> ({
            let one = whole(1).units();
            let off = miss(missing, income, quotient(missing, income)->0);
            &&& rounds.mantissa * income.units() * one >= missing.units() * one - off
            &&& (rounds.mantissa - 1) * income.units() * one < missing.units() * one + off
            &&& within_rounding(off, income, quotient(missing, income)->0)
        }),
        missing.is_positive() && has_quotient(missing, income) ==> (count * income.units()
            >= missing.units() <==> count >= rounds.mantissa),
{
    zero_units();
    positive_units(missing);
    positive_units(income);
    if missing.is_positive() {
        let share = quotient(missing, income)->0;
        quotients_are_close(missing, income, share);
        ceilings_lie_above(share);
        positive_units(whole(1));
        let off = miss(missing, income, share);
        let (m, one, s, i, r) = (
            rounds.mantissa,
            whole(1).units(),
            share.units(),
            income.units(),
            missing.units(),
        );
        assert(m * i * one >= s * i) by (nonlinear_arith)
            requires
                s <= m * one,
                i > 0,
        ;
        assert((m - 1) * i * one < s * i) by (nonlinear_arith)
            requires
                m * one - one < s,
                i > 0,
        ;
        if has_quotient(missing, income) {
            assert(count * i >= r <==> count >= m) by (nonlinear_arith)
                requires
                    s * i == r * one,
                    m * one - one < s <= m * one,
                    i > 0,
                    one > 0,
            ;
        }
    }
}

/// The funding interval of a symbol is the last one that is announced for it, and eight hours
/// where none is.
pub proof fn the_last_announced_interval_holds(infos: Seq<BinanceFundingInfo>, symbol: Seq<char>)
    ensures
        (exists|place: int|
            0 <= place < infos.len() && #[trigger] infos[place].symbol@ == symbol
                && infos[place].funding_interval_hours == interval_of(infos, symbol) && forall|i: int|
                place < i < infos.len() ==> #[trigger] infos[i].symbol@ != symbol) || (
        interval_of(infos, symbol) == 8 && forall|i: int|
            0 <= i < infos.len() ==> #[trigger] infos[i].symbol@ != symbol),
    decreases infos.len(),
{
    if infos.len() > 0 {
        let rest = infos.drop_last();
        let last = infos.len() - 1;
        the_last_announced_interval_holds(rest, symbol);
        assert forall|i: int| 0 <= i < last implies #[trigger] infos[i] == rest[i] by {}
        if infos[last].symbol@ == symbol {
            assert(infos[last].funding_interval_hours == interval_of(infos, symbol));
        } else if exists|place: int|
            0 <= place < rest.len() && #[trigger] rest[place].symbol@ == symbol
                && rest[place].funding_interval_hours == interval_of(rest, symbol) && forall|i: int|
                place < i < rest.len() ==> #[trigger] rest[i].symbol@ != symbol {
            let place = choose|place: int|
                0 <= place < rest.len() && #[trigger] rest[place].symbol@ == symbol
                    && rest[place].funding_interval_hours == interval_of(rest, symbol)
                    && forall|i: int|
                    place < i < rest.len() ==> #[trigger] rest[i].symbol@ != symbol;
            assert(infos[place].symbol@ == symbol);
        }
    }
}

/// The distance of two times is the same in both directions, and is the plain one wherever 64
/// bits hold it.
pub proof fn gaps_are_distances(a: int, b: int)
    ensures
        wrapped_gap(a, b) == wrapped_gap(b, a),
        0 <= a - b <= i64::MAX ==> wrapped_gap(a, b) == a - b,
        0 <= b - a <= i64::MAX ==> wrapped_gap(a, b) == b - a,
{
}

/// The skew of a view is how far apart the two order books were answered, in either order, and
/// the age of its premium how long before or after the observation the index was made. The
/// prices are those of the index, each under its own name.
pub proof fn basis_views_are_timed_by_their_answers(
    view: BinanceBasisView,
    symbol: Seq<char>,
    observed_at_ms: i64,
    spot_completed_at_ms: i64,
    perp_completed_at_ms: i64,
    premium: BinancePremiumIndex,
    funding_interval_hours: i64,
    scan_latency_ms: i64,
)
    requires
        answers_shown(
            view,
            symbol,
            observed_at_ms,
            spot_completed_at_ms,
            perp_completed_at_ms,
            premium,
            funding_interval_hours,
            scan_latency_ms,
        ),
    ensures
        0 <= perp_completed_at_ms - spot_completed_at_ms <= i64::MAX ==> spot_completed_at_ms
            + view.response_skew_ms == perp_completed_at_ms,
        0 <= spot_completed_at_ms - perp_completed_at_ms <= i64::MAX ==> perp_completed_at_ms
            + view.response_skew_ms == spot_completed_at_ms,
        0 <= observed_at_ms - premium.time <= i64::MAX ==> premium.time + view.premium_age_ms
            == observed_at_ms,
        0 <= premium.time - observed_at_ms <= i64::MAX ==> observed_at_ms + view.premium_age_ms
            == premium.time,
        view.mark_price@ == plain_notation(parsed_decimal(premium.mark_price@)->0),
        view.index_price@ == plain_notation(parsed_decimal(premium.index_price@)->0),
        view.next_funding_time_ms == premium.next_funding_time,
        view.funding_interval_hours == funding_interval_hours,
        view.scan_latency_ms == scan_latency_ms,
{
}

/// The answers on a perpetual are read for a purchase of spot and a sale of the contract: the
/// asks from the lowest price up, the bids from the highest price down, with the mark price and
/// the funding rate of the premium index.
pub proof fn basis_answers_are_read_in_order(
    symbol: Seq<char>,
    spot: BinancePublicOrderBook,
    perp: BinancePublicOrderBook,
    premium: BinancePremiumIndex,
    hours: int,
    figures: BasisFigures,
)
    requires
        answered_basis(symbol, spot, perp, premium, hours) == Some(
            Ok::<BasisFigures, Seq<char>>(figures),
        ),
    ensures
        public_ladder(spot.asks@, false) is Ok,
        public_ladder(perp.bids@, true) is Ok,
        parsed_decimal(premium.mark_price@) is Some,
        parsed_decimal(premium.index_price@) is Some,
        parsed_decimal(premium.last_funding_rate@) is Some,
        ({
            let asks = public_ladder(spot.asks@, false)->Ok_0;
            let bids = public_ladder(perp.bids@, true)->Ok_0;
            &&& perpetual_basis(
                asks,
                bids,
                parsed_decimal(premium.mark_price@)->0,
                parsed_decimal(premium.last_funding_rate@)->0,
                hours,
            ) == Some(Some(figures))
            &&& forall|i: int, j: int|
                0 <= i < j < asks.len() ==> (#[trigger] asks[i]).price.units() <= (
                #[trigger] asks[j]).price.units()
            &&& forall|i: int, j: int|
                0 <= i < j < bids.len() ==> (#[trigger] bids[i]).price.units() >= (
                #[trigger] bids[j]).price.units()
        }),
{
    public_ladders_are_sorted(spot.asks@, false);
    public_ladders_are_sorted(perp.bids@, true);
}

/// Costs that the basis covers are earned at once; those that it does not cover are never earned
/// exactly where a funding earns nothing.
pub proof fn costs_are_earned_by_income_only(
    entry: EntryFigures,
    income: DecimalView,
    missing: DecimalView,
)
    requires
        minus(sum(entry.fees, entry.slippage), Some(entry.basis)) == Some(missing),
    ensures
        missing.units() <= 0 ==> break_even(entry, income) == Some(Some(zero())),
        zero().units() == 0,
        missing.units() > 0 && income.units() <= 0 <==> break_even(entry, income) == Some(
            None::<DecimalView>,
        ),
{
    zero_units();
    positive_units(missing);
    positive_units(income);
}

} // verus!
