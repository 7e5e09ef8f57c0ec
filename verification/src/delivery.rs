//! Cash-and-carry on Binance against delivery contracts.
use vstd::prelude::*;

use crate::basis::{
    basis_points, basis_points_of, capacity, consume_depth_at_limit, consumed_at_limit_from,
    enter_on, entry_on, gap_ms, limit_from, limit_price_for_quantity, optional_text,
    position_capacity, wrapped_gap, EntryFigures, CAPITAL_APR_BPS, DELIVERY_SETTLEMENT_BUFFER_BPS,
    MAX_PREMIUM_AGE_MS, MAX_RESPONSE_SKEW_MS, MILLISECONDS_PER_DAY, MILLISECONDS_PER_YEAR,
};
use crate::binance::{
    optional_decimal, public_ladder, public_ladders_are_sorted, BinanceDeliveryPremiumIndex, BinanceFuturesSymbol,
    BinancePublicOrderBook, BinanceSpotSymbol, BinanceSymbolFilter,
};
use crate::decimal::{
    difference, difference_miss, has_quotient, minus, over, parsed_decimal, plain_notation,
    positive_units, quotient, times, whole, within_rounding, zero, Decimal, DecimalView,
};
use crate::execution::{
    round_down_to_step, step_miss, steps_fit, whole_steps, whole_steps_are_the_most,
};
use crate::figures::close;
use crate::ladder::{ladder_of, LevelView};
use crate::table::PairTable;
use crate::takings::{
    bought_in_turn, depth_at_a_limit_is_taken_in_turn, offered_before, offers, price_of,
    unrounded_turns, weighed, within,
};
use crate::text::{no_notes, note_if, push_note, same, text_of, texts_of};

verus! {

/// Basis of a delivery contract against spot, with every number in decimal notation.
#[derive(Clone, Debug)]
pub struct BinanceDeliveryBasisView {
    pub symbol: String,
    pub pair: String,
    pub contract_type: String,
    pub delivery_time_ms: i64,
    pub observed_at_ms: i64,
    pub remaining_days: String,
    pub quantity: String,
    pub quantity_step: String,
    pub spot_price_tick: String,
    pub delivery_price_tick: String,
    pub spot_vwap_ask: String,
    pub delivery_vwap_bid: String,
    pub spot_cost: String,
    pub delivery_proceeds: String,
    pub gross_basis: String,
    pub gross_basis_rate: String,
    pub estimated_round_trip_fees: String,
    pub slippage_buffer: String,
    pub settlement_buffer: String,
    pub capital_cost: String,
    pub pre_capital_net_profit: String,
    pub net_profit_at_delivery: String,
    pub net_return: String,
    pub net_apr: String,
    pub mark_price: String,
    pub index_price: String,
    pub response_skew_ms: i64,
    pub premium_age_ms: i64,
    pub scan_latency_ms: i64,
    pub rejections: Vec<String>,
}

/// The basis of a delivery contract: the entry and what is left of it at delivery.
pub struct DeliveryFigures {
    pub entry: EntryFigures,
    pub remaining_days: DecimalView,
    pub settlement_buffer: DecimalView,
    pub capital_cost: DecimalView,
    pub pre_capital_net_profit: DecimalView,
    pub net_profit: DecimalView,
    pub net_return: DecimalView,
    pub net_apr: DecimalView,
}

/// What is left of an entry that is held for `remaining_ms`; `None` on overflow.
pub open spec fn held_to_delivery(entry: EntryFigures, remaining_ms: int) -> Option<
    DeliveryFigures,
> {
    let settlement_buffer = basis_points_of(
        Some(entry.proceeds),
        DELIVERY_SETTLEMENT_BUFFER_BPS as int,
    );
    let capital_cost = over(
        times(
            basis_points_of(Some(entry.spot_cost), CAPITAL_APR_BPS as int),
            Some(whole(remaining_ms)),
        ),
        Some(whole(MILLISECONDS_PER_YEAR as int)),
    );
    let pre_capital = minus(
        minus(difference(entry.basis, entry.fees), Some(entry.slippage)),
        settlement_buffer,
    );
    let net_profit = minus(pre_capital, capital_cost);
    let net_return = over(net_profit, Some(entry.spot_cost));
    let net_apr = over(
        times(net_return, Some(whole(MILLISECONDS_PER_YEAR as int))),
        Some(whole(remaining_ms)),
    );
    match (
        quotient(whole(remaining_ms), whole(MILLISECONDS_PER_DAY as int)),
        settlement_buffer,
        capital_cost,
        pre_capital,
        net_profit,
        net_return,
        net_apr,
    ) {
        (
            Some(remaining_days),
            Some(settlement_buffer),
            Some(capital_cost),
            Some(pre_capital_net_profit),
            Some(net_profit),
            Some(net_return),
            Some(net_apr),
        ) => Some(
            DeliveryFigures {
                entry,
                remaining_days,
                settlement_buffer,
                capital_cost,
                pre_capital_net_profit,
                net_profit,
                net_return,
                net_apr,
            },
        ),
        _ => None,
    }
}

/// The basis of a delivery contract against spot. The outer `None` is an overflow or a price
/// or quantity of zero; the inner one says that the contract has expired or that step, depth
/// or minimum quantity do not allow for a position.
pub open spec fn delivery_basis(
    delivery_time_ms: int,
    observed_at_ms: int,
    quantity_step: DecimalView,
    minimum_quantity: DecimalView,
    spot: Seq<LevelView>,
    delivery: Seq<LevelView>,
) -> Option<Option<DeliveryFigures>> {
    let remaining_ms = delivery_time_ms - observed_at_ms;
    if remaining_ms > i64::MAX || remaining_ms <= 0 || spot.len() == 0 {
        Some(None)
    } else {
        match capacity(spot, delivery) {
            None => None,
            Some(raw) => if !quantity_step.is_positive() {
                Some(None)
            } else {
                match whole_steps(raw, quantity_step) {
                    None => None,
                    Some(quantity) => if quantity.lt(minimum_quantity) {
                        Some(None)
                    } else {
                        match entry_on(spot, delivery, quantity) {
                            None => None,
                            Some(None) => Some(None),
                            Some(Some(entry)) => match held_to_delivery(entry, remaining_ms) {
                                None => None,
                                Some(figures) => Some(Some(figures)),
                            },
                        }
                    },
                }
            },
        }
    }
}

/// Why a delivery basis is no trade.
pub open spec fn delivery_rejections(
    basis: DecimalView,
    net_profit: DecimalView,
    response_skew_ms: i64,
    premium_age_ms: i64,
) -> Seq<Seq<char>> {
    note_if(!basis.is_positive(), "交割合约未高于现货买入成本"@) + note_if(
        !net_profit.is_positive(),
        "扣除费用、缓冲和资金占用后无正净利润"@,
    ) + note_if(
        response_skew_ms > MAX_RESPONSE_SKEW_MS,
        "现货与交割合约接口响应完成时差超过 1 秒"@,
    ) + note_if(premium_age_ms > MAX_PREMIUM_AGE_MS, "交割合约标记价数据超过 5 秒"@)
}

/// Every number of a view is that of the figures, in plain notation.
pub open spec fn shows_delivery(view: BinanceDeliveryBasisView, figures: DeliveryFigures) -> bool {
    &&& view.remaining_days@ == plain_notation(figures.remaining_days)
    &&& view.quantity@ == plain_notation(figures.entry.quantity)
    &&& view.spot_vwap_ask@ == plain_notation(figures.entry.spot_vwap)
    &&& view.delivery_vwap_bid@ == plain_notation(figures.entry.proceeds_vwap)
    &&& view.spot_cost@ == plain_notation(figures.entry.spot_cost)
    &&& view.delivery_proceeds@ == plain_notation(figures.entry.proceeds)
    &&& view.gross_basis@ == plain_notation(figures.entry.basis)
    &&& view.gross_basis_rate@ == plain_notation(figures.entry.basis_rate)
    &&& view.estimated_round_trip_fees@ == plain_notation(figures.entry.fees)
    &&& view.slippage_buffer@ == plain_notation(figures.entry.slippage)
    &&& view.settlement_buffer@ == plain_notation(figures.settlement_buffer)
    &&& view.capital_cost@ == plain_notation(figures.capital_cost)
    &&& view.pre_capital_net_profit@ == plain_notation(figures.pre_capital_net_profit)
    &&& view.net_profit_at_delivery@ == plain_notation(figures.net_profit)
    &&& view.net_return@ == plain_notation(figures.net_return)
    &&& view.net_apr@ == plain_notation(figures.net_apr)
    &&& texts_of(view.rejections@) == delivery_rejections(
        figures.entry.basis,
        figures.net_profit,
        view.response_skew_ms,
        view.premium_age_ms,
    )
}

/// The fields of a view that are handed in, rather than computed.
pub open spec fn delivery_of(
    view: BinanceDeliveryBasisView,
    symbol: Seq<char>,
    pair: Seq<char>,
    contract_type: Seq<char>,
    delivery_time_ms: i64,
    observed_at_ms: i64,
    quantity_step: DecimalView,
    spot_price_tick: DecimalView,
    delivery_price_tick: DecimalView,
    mark_price: DecimalView,
    index_price: DecimalView,
    response_skew_ms: int,
    premium_age_ms: int,
    scan_latency_ms: i64,
) -> bool {
    &&& view.symbol@ == symbol
    &&& view.pair@ == pair
    &&& view.contract_type@ == contract_type
    &&& view.delivery_time_ms == delivery_time_ms
    &&& view.observed_at_ms == observed_at_ms
    &&& view.quantity_step@ == plain_notation(quantity_step)
    &&& view.spot_price_tick@ == plain_notation(spot_price_tick)
    &&& view.delivery_price_tick@ == plain_notation(delivery_price_tick)
    &&& view.mark_price@ == plain_notation(mark_price)
    &&& view.index_price@ == plain_notation(index_price)
    &&& view.response_skew_ms == response_skew_ms
    &&& view.premium_age_ms == premium_age_ms
    &&& view.scan_latency_ms == scan_latency_ms
}

/// The basis of a delivery contract against spot; the outer `None` is an overflow or a
/// division by zero.
pub fn checked_calculate_delivery_basis(
    symbol: &str,
    pair: &str,
    contract_type: &str,
    delivery_time_ms: i64,
    observed_at_ms: i64,
    quantity_step: Decimal,
    minimum_quantity: Decimal,
    spot_price_tick: Decimal,
    delivery_price_tick: Decimal,
    spot_asks: &[(Decimal, Decimal)],
    delivery_bids: &[(Decimal, Decimal)],
    mark_price: Decimal,
    index_price: Decimal,
    response_skew_ms: i64,
    premium_age_ms: i64,
    scan_latency_ms: i64,
) -> (result: Option<Option<BinanceDeliveryBasisView>>)
    ensures
        match delivery_basis(
            delivery_time_ms as int,
            observed_at_ms as int,
            quantity_step@,
            minimum_quantity@,
            ladder_of(spot_asks@),
            ladder_of(delivery_bids@),
        ) {
            None => result is None,
            Some(None) => result matches Some(None),
            Some(Some(figures)) => result matches Some(Some(view)) && shows_delivery(view, figures)
                && figures.entry.quantity.normalized().valid() && delivery_of(
                view,
                symbol@,
                pair@,
                contract_type@,
                delivery_time_ms,
                observed_at_ms,
                quantity_step@,
                spot_price_tick@,
                delivery_price_tick@,
                mark_price@,
                index_price@,
                response_skew_ms as int,
                premium_age_ms as int,
                scan_latency_ms,
            ),
        },
{
    let remaining_ms: i64 = match delivery_time_ms.checked_sub(observed_at_ms) {
        Some(remaining) => remaining,
        None => return Some(None),
    };
    if remaining_ms <= 0 || spot_asks.len() == 0 {
        return Some(None);
    }
    let raw_quantity = position_capacity(spot_asks, delivery_bids)?;
    if !quantity_step.is_positive() {
        return Some(None);
    }
    let quantity = round_down_to_step(raw_quantity, quantity_step)?;
    if quantity.less(&minimum_quantity) {
        return Some(None);
    }
    let entry = match enter_on(spot_asks, delivery_bids, quantity)? {
        Some(entry) => entry,
        None => return Some(None),
    };
    let remaining = Decimal::from_i64(remaining_ms);
    let year = Decimal::from_i64(MILLISECONDS_PER_YEAR);
    let settlement_buffer = basis_points(entry.proceeds, DELIVERY_SETTLEMENT_BUFFER_BPS)?;
    let capital_cost = basis_points(entry.spot_cost, CAPITAL_APR_BPS)?.checked_mul(
        remaining,
    )?.checked_div(year)?;
    let before_buffer = entry.basis.checked_sub(entry.fees)?.checked_sub(entry.slippage)?;
    let pre_capital_net_profit = before_buffer.checked_sub(settlement_buffer)?;
    let net_profit = pre_capital_net_profit.checked_sub(capital_cost)?;
    let net_return = net_profit.checked_div(entry.spot_cost)?;
    let net_apr = net_return.checked_mul(year)?.checked_div(remaining)?;
    let remaining_days = remaining.checked_div(Decimal::from_i64(MILLISECONDS_PER_DAY))?;
    let mut rejections = no_notes();
    push_note(&mut rejections, !entry.basis.is_positive(), "交割合约未高于现货买入成本");
    push_note(
        &mut rejections,
        !net_profit.is_positive(),
        "扣除费用、缓冲和资金占用后无正净利润",
    );
    push_note(
        &mut rejections,
        response_skew_ms > MAX_RESPONSE_SKEW_MS,
        "现货与交割合约接口响应完成时差超过 1 秒",
    );
    push_note(
        &mut rejections,
        premium_age_ms > MAX_PREMIUM_AGE_MS,
        "交割合约标记价数据超过 5 秒",
    );
    proof {
        assert(texts_of(rejections@) =~= delivery_rejections(
            entry.basis@,
            net_profit@,
            response_skew_ms,
            premium_age_ms,
        ));
    }
    Some(
        Some(
            BinanceDeliveryBasisView {
                symbol: symbol.to_owned(),
                pair: pair.to_owned(),
                contract_type: contract_type.to_owned(),
                delivery_time_ms,
                observed_at_ms,
                remaining_days: remaining_days.plain_text(),
                quantity: quantity.plain_text(),
                quantity_step: quantity_step.plain_text(),
                spot_price_tick: spot_price_tick.plain_text(),
                delivery_price_tick: delivery_price_tick.plain_text(),
                spot_vwap_ask: entry.spot_vwap.plain_text(),
                delivery_vwap_bid: entry.proceeds_vwap.plain_text(),
                spot_cost: entry.spot_cost.plain_text(),
                delivery_proceeds: entry.proceeds.plain_text(),
                gross_basis: entry.basis.plain_text(),
                gross_basis_rate: entry.basis_rate.plain_text(),
                estimated_round_trip_fees: entry.fees.plain_text(),
                slippage_buffer: entry.slippage.plain_text(),
                settlement_buffer: settlement_buffer.plain_text(),
                capital_cost: capital_cost.plain_text(),
                pre_capital_net_profit: pre_capital_net_profit.plain_text(),
                net_profit_at_delivery: net_profit.plain_text(),
                net_return: net_return.plain_text(),
                net_apr: net_apr.plain_text(),
                mark_price: mark_price.plain_text(),
                index_price: index_price.plain_text(),
                response_skew_ms,
                premium_age_ms,
                scan_latency_ms,
                rejections,
            },
        ),
    )
}

/// The basis of a delivery contract against spot.
pub fn calculate_delivery_basis(
    symbol: &str,
    pair: &str,
    contract_type: &str,
    delivery_time_ms: i64,
    observed_at_ms: i64,
    quantity_step: Decimal,
    minimum_quantity: Decimal,
    spot_price_tick: Decimal,
    delivery_price_tick: Decimal,
    spot_asks: &[(Decimal, Decimal)],
    delivery_bids: &[(Decimal, Decimal)],
    mark_price: Decimal,
    index_price: Decimal,
    response_skew_ms: i64,
    premium_age_ms: i64,
    scan_latency_ms: i64,
) -> (result: Option<BinanceDeliveryBasisView>)
    requires
        delivery_basis(
            delivery_time_ms as int,
            observed_at_ms as int,
            quantity_step@,
            minimum_quantity@,
            ladder_of(spot_asks@),
            ladder_of(delivery_bids@),
        ) is Some,
    ensures
        match delivery_basis(
            delivery_time_ms as int,
            observed_at_ms as int,
            quantity_step@,
            minimum_quantity@,
            ladder_of(spot_asks@),
            ladder_of(delivery_bids@),
        )->0 {
            None => result is None,
            Some(figures) => result matches Some(view) && shows_delivery(view, figures)
                && delivery_of(
                view,
                symbol@,
                pair@,
                contract_type@,
                delivery_time_ms,
                observed_at_ms,
                quantity_step@,
                spot_price_tick@,
                delivery_price_tick@,
                mark_price@,
                index_price@,
                response_skew_ms as int,
                premium_age_ms as int,
                scan_latency_ms,
            ),
        },
{
    checked_calculate_delivery_basis(
        symbol,
        pair,
        contract_type,
        delivery_time_ms,
        observed_at_ms,
        quantity_step,
        minimum_quantity,
        spot_price_tick,
        delivery_price_tick,
        spot_asks,
        delivery_bids,
        mark_price,
        index_price,
        response_skew_ms,
        premium_age_ms,
        scan_latency_ms,
    ).unwrap()
}

/// A delivery basis without a rejection sells above the spot cost, leaves a profit after all
/// costs, and rests on answers that are close together and recent.
pub proof fn accepted_delivery_is_sound(
    basis: DecimalView,
    net_profit: DecimalView,
    response_skew_ms: i64,
    premium_age_ms: i64,
)
    ensures
        delivery_rejections(basis, net_profit, response_skew_ms, premium_age_ms).len() == 0 <==> {
            &&& basis.is_positive()
            &&& net_profit.is_positive()
            &&& response_skew_ms <= MAX_RESPONSE_SKEW_MS
            &&& premium_age_ms <= MAX_PREMIUM_AGE_MS
        },
{
}

/// A contract that can be carried to its delivery, with the rules of both exchanges.
#[derive(Clone, Debug)]
pub struct DeliveryContract {
    pub symbol: String,
    pub pair: String,
    pub contract_type: String,
    pub delivery_date: i64,
    pub quantity_step: Decimal,
    pub minimum_quantity: Decimal,
    pub spot_price_tick: Decimal,
    pub delivery_price_tick: Decimal,
}

/// The first filter of a kind from `start` on.
pub open spec fn filter_from(filters: Seq<BinanceSymbolFilter>, kind: Seq<char>, start: int) -> Option<
    BinanceSymbolFilter,
>
    decreases filters.len() - start,
{
    if start < 0 || start >= filters.len() {
        None
    } else if filters[start].filter_type@ == kind {
        Some(filters[start])
    } else {
        filter_from(filters, kind, start + 1)
    }
}

/// The step, minimum quantity and price tick of a symbol.
pub struct RuleView {
    pub step: DecimalView,
    pub minimum: DecimalView,
    pub tick: DecimalView,
}

/// The rules that the filters of a symbol state, if they state all of them.
pub open spec fn rules_of(filters: Seq<BinanceSymbolFilter>) -> Option<RuleView> {
    match (filter_from(filters, "LOT_SIZE"@, 0), filter_from(filters, "PRICE_FILTER"@, 0)) {
        (Some(lot), Some(price)) => match (
            optional_decimal(lot.step_size),
            optional_decimal(lot.min_qty),
            optional_decimal(price.tick_size),
        ) {
            (Some(step), Some(minimum), Some(tick)) => Some(RuleView { step, minimum, tick }),
            _ => None,
        },
        _ => None,
    }
}

/// The rules of a trading pair on the spot exchange: those of its last complete listing.
pub open spec fn spot_rules_of(symbols: Seq<BinanceSpotSymbol>, pair: Seq<char>) -> Option<RuleView>
    decreases symbols.len(),
{
    if symbols.len() == 0 {
        None
    } else if symbols.last().symbol@ == pair && symbols.last().status@ == "TRADING"@ && rules_of(
        symbols.last().filters@,
    ) is Some {
        rules_of(symbols.last().filters@)
    } else {
        spot_rules_of(symbols.drop_last(), pair)
    }
}

/// Whether a futures listing is a delivery contract on one of the observed pairs that has not
/// been delivered yet.
pub open spec fn is_tracked(listing: BinanceFuturesSymbol, now_ms: int) -> bool {
    &&& listing.status@ == "TRADING"@
    &&& listing.contract_type@ != "PERPETUAL"@
    &&& (listing.pair@ == "BTCUSDT"@ || listing.pair@ == "ETHUSDT"@ || listing.pair@ == "SOLUSDT"@
        || listing.pair@ == "XRPUSDT"@)
    &&& listing.delivery_date > now_ms
}

/// A contract is that of a listing, and follows the stricter rules of both exchanges.
pub open spec fn is_contract_of(
    contract: DeliveryContract,
    listing: BinanceFuturesSymbol,
    spot: RuleView,
    futures: RuleView,
) -> bool {
    &&& contract.symbol@ == listing.symbol@
    &&& contract.pair@ == listing.pair@
    &&& contract.contract_type@ == listing.contract_type@
    &&& contract.delivery_date == listing.delivery_date
    &&& contract.quantity_step@ == spot.step.larger(futures.step)
    &&& contract.minimum_quantity@ == spot.minimum.larger(futures.minimum)
    &&& contract.spot_price_tick@ == spot.tick
    &&& contract.delivery_price_tick@ == futures.tick
}

/// The step, minimum quantity and price tick of a symbol.
#[derive(Clone, Copy, Debug)]
pub struct SymbolRules {
    pub step: Decimal,
    pub minimum: Decimal,
    pub tick: Decimal,
}

impl View for SymbolRules {
    type V = RuleView;

    open spec fn view(&self) -> RuleView {
        RuleView { step: self.step@, minimum: self.minimum@, tick: self.tick@ }
    }
}

pub open spec fn rules_view(rules: Option<SymbolRules>) -> Option<RuleView> {
    match rules {
        Some(rules) => Some(rules@),
        None => None,
    }
}

/// The position of the first filter of a kind.
fn find_filter(filters: &Vec<BinanceSymbolFilter>, kind: &str) -> (result: Option<usize>)
    ensures
        match result {
            Some(i) => i < filters@.len() && filter_from(filters@, kind@, 0) == Some(
                filters@[i as int],
            ),
            None => filter_from(filters@, kind@, 0) is None,
        },
{
    let mut i: usize = 0;
    while i < filters.len()
        invariant
            i <= filters@.len(),
            filter_from(filters@, kind@, 0) == filter_from(filters@, kind@, i as int),
        decreases filters@.len() - i,
    {
        if same(filters[i].filter_type.as_str(), kind) {
            return Some(i);
        }
        i = i + 1;
    }
    None
}

/// The rules that the filters of a symbol state, if they state all of them.
pub fn symbol_rules(filters: &Vec<BinanceSymbolFilter>) -> (result: Option<SymbolRules>)
    ensures
        rules_view(result) == rules_of(filters@),
{
    let lot: usize = find_filter(filters, "LOT_SIZE")?;
    let price: usize = find_filter(filters, "PRICE_FILTER")?;
    Some(
        SymbolRules {
            step: filters[lot].decimal_step_size()?,
            minimum: filters[lot].decimal_min_qty()?,
            tick: filters[price].decimal_tick_size()?,
        },
    )
}

/// The rules of a trading pair on the spot exchange.
pub fn spot_rules(symbols: &Vec<BinanceSpotSymbol>, pair: &str) -> (result: Option<SymbolRules>)
    ensures
        rules_view(result) == spot_rules_of(symbols@, pair@),
{
    let mut i: usize = symbols.len();
    proof {
        assert(symbols@.take(i as int) =~= symbols@);
    }
    while i > 0
        invariant
            i <= symbols@.len(),
            spot_rules_of(symbols@, pair@) == spot_rules_of(symbols@.take(i as int), pair@),
        decreases i,
    {
        proof {
            assert(symbols@.take(i as int).drop_last() =~= symbols@.take(i - 1));
        }
        let listing = &symbols[i - 1];
        if same(listing.symbol.as_str(), pair) && same(listing.status.as_str(), "TRADING") {
            let rules = symbol_rules(&listing.filters);
            if rules.is_some() {
                return rules;
            }
        }
        i = i - 1;
    }
    None
}

/// The contract of a futures listing, where it is tracked and both exchanges state its rules.
pub fn delivery_contract(
    listing: &BinanceFuturesSymbol,
    spot: &Vec<BinanceSpotSymbol>,
    now_ms: i64,
) -> (result: Option<DeliveryContract>)
    ensures
        result is Some <==> is_tracked(*listing, now_ms as int) && spot_rules_of(
            spot@,
            listing.pair@,
        ) is Some && rules_of(listing.filters@) is Some,
        result matches Some(contract) ==> is_contract_of(
            contract,
            *listing,
            spot_rules_of(spot@, listing.pair@)->0,
            rules_of(listing.filters@)->0,
        ),
{
    let pair = listing.pair.as_str();
    let known = same(pair, "BTCUSDT") || same(pair, "ETHUSDT") || same(pair, "SOLUSDT") || same(
        pair,
        "XRPUSDT",
    );
    if !same(listing.status.as_str(), "TRADING") || same(
        listing.contract_type.as_str(),
        "PERPETUAL",
    ) || !known || listing.delivery_date <= now_ms {
        return None;
    }
    let spot_side = spot_rules(spot, pair)?;
    let futures_side = symbol_rules(&listing.filters)?;
    Some(
        DeliveryContract {
            symbol: listing.symbol.clone(),
            pair: listing.pair.clone(),
            contract_type: listing.contract_type.clone(),
            delivery_date: listing.delivery_date,
            quantity_step: spot_side.step.max(futures_side.step),
            minimum_quantity: spot_side.minimum.max(futures_side.minimum),
            spot_price_tick: spot_side.tick,
            delivery_price_tick: futures_side.tick,
        },
    )
}

/// A list of contracts is that of the listings, in their order, that give one.
pub open spec fn contracts_of(
    contracts: Seq<DeliveryContract>,
    listings: Seq<BinanceFuturesSymbol>,
    spot: Seq<BinanceSpotSymbol>,
    now_ms: int,
) -> bool
    decreases listings.len(),
{
    if listings.len() == 0 {
        contracts.len() == 0
    } else {
        let listing = listings.last();
        let spot_side = spot_rules_of(spot, listing.pair@);
        let futures_side = rules_of(listing.filters@);
        if is_tracked(listing, now_ms) && spot_side is Some && futures_side is Some {
            contracts.len() > 0 && is_contract_of(
                contracts.last(),
                listing,
                spot_side->0,
                futures_side->0,
            ) && contracts_of(contracts.drop_last(), listings.drop_last(), spot, now_ms)
        } else {
            contracts_of(contracts, listings.drop_last(), spot, now_ms)
        }
    }
}

/// The contracts of all futures listings.
pub fn discover_contracts(
    futures: &Vec<BinanceFuturesSymbol>,
    spot: &Vec<BinanceSpotSymbol>,
    now_ms: i64,
) -> (result: Vec<DeliveryContract>)
    ensures
        contracts_of(result@, futures@, spot@, now_ms as int),
{
    let mut contracts: Vec<DeliveryContract> = Vec::new();
    let mut i: usize = 0;
    while i < futures.len()
        invariant
            i <= futures@.len(),
            contracts_of(contracts@, futures@.take(i as int), spot@, now_ms as int),
        decreases futures@.len() - i,
    {
        let ghost before = contracts@;
        proof {
            assert(futures@.take(i + 1).drop_last() =~= futures@.take(i as int));
        }
        if let Some(contract) = delivery_contract(&futures[i], spot, now_ms) {
            contracts.push(contract);
            proof {
                assert(contracts@.drop_last() =~= before);
            }
        }
        i = i + 1;
    }
    proof {
        assert(futures@.take(i as int) =~= futures@);
    }
    contracts
}

/// The orders that a delivery basis would be entered with.
#[derive(Clone, Copy, Debug)]
pub struct DeliveryPlan {
    pub quantity: Decimal,
    pub spot_limit_price: Decimal,
    pub delivery_limit_price: Decimal,
}

#[derive(Clone, Debug)]
pub struct DeliveryScanResult {
    pub observation: BinanceDeliveryBasisView,
    pub plan: DeliveryPlan,
}

/// A delivery basis with the limit prices to enter it.
pub struct ScanView {
    pub figures: DeliveryFigures,
    pub spot_limit_price: DecimalView,
    pub delivery_limit_price: DecimalView,
}

/// What a round of answers on a contract comes to: the first field that cannot be read
/// decides, then the depth. The outer `None` is an overflow or a division by zero.
pub open spec fn answered_delivery(
    contract: DeliveryContract,
    observed_at_ms: int,
    spot: BinancePublicOrderBook,
    delivery: BinancePublicOrderBook,
    premium: BinanceDeliveryPremiumIndex,
) -> Option<Result<ScanView, Seq<char>>> {
    match public_ladder(spot.asks@, false) {
        Err(fault) => Some(Err(fault.words())),
        Ok(spot_ladder) => match public_ladder(delivery.bids@, true) {
            Err(fault) => Some(Err(fault.words())),
            Ok(delivery_ladder) => match (
                parsed_decimal(premium.mark_price@),
                parsed_decimal(premium.index_price@),
            ) {
                (None, _) => Some(Err("交割标记价无效"@)),
                (_, None) => Some(Err("交割指数价无效"@)),
                (Some(_), Some(_)) => match delivery_basis(
                    contract.delivery_date as int,
                    observed_at_ms,
                    contract.quantity_step@,
                    contract.minimum_quantity@,
                    spot_ladder,
                    delivery_ladder,
                ) {
                    None => None,
                    Some(None) => Some(
                        Err(contract.symbol@ + " 交割订单簿深度不足或已到期"@),
                    ),
                    Some(Some(figures)) => {
                        let quantity = figures.entry.quantity.normalized();
                        match limit_from(spot_ladder, 0, quantity) {
                            None => None,
                            Some(None) => Some(Err("限价内深度不足"@)),
                            Some(Some(spot_limit_price)) => match limit_from(
                                delivery_ladder,
                                0,
                                quantity,
                            ) {
                                None => None,
                                Some(None) => Some(Err("限价内深度不足"@)),
                                Some(Some(delivery_limit_price)) => Some(
                                    Ok(
                                        ScanView { figures, spot_limit_price, delivery_limit_price },
                                    ),
                                ),
                            },
                        }
                    },
                },
            },
        },
    }
}

/// Whether a view of a delivery contract shows what the answers it comes from say of themselves.
pub open spec fn delivery_answers_shown(
    view: BinanceDeliveryBasisView,
    contract: DeliveryContract,
    observed_at_ms: i64,
    spot_completed_at_ms: i64,
    delivery_completed_at_ms: i64,
    premium: BinanceDeliveryPremiumIndex,
    scan_latency_ms: i64,
) -> bool {
    delivery_of(
        view,
        contract.symbol@,
        contract.pair@,
        contract.contract_type@,
        contract.delivery_date,
        observed_at_ms,
        contract.quantity_step@,
        contract.spot_price_tick@,
        contract.delivery_price_tick@,
        parsed_decimal(premium.mark_price@)->0,
        parsed_decimal(premium.index_price@)->0,
        wrapped_gap(spot_completed_at_ms as int, delivery_completed_at_ms as int),
        wrapped_gap(observed_at_ms as int, premium.time as int),
        scan_latency_ms,
    )
}

/// The skew of a view is how far apart the two order books were answered, in either order, and
/// the age of its premium how long before or after the observation the index was made. What it
/// says of the contract is the contract's own, each under its own name.
pub proof fn delivery_views_are_timed_by_their_answers(
    view: BinanceDeliveryBasisView,
    contract: DeliveryContract,
    observed_at_ms: i64,
    spot_completed_at_ms: i64,
    delivery_completed_at_ms: i64,
    premium: BinanceDeliveryPremiumIndex,
    scan_latency_ms: i64,
)
    requires
        delivery_answers_shown(
            view,
            contract,
            observed_at_ms,
            spot_completed_at_ms,
            delivery_completed_at_ms,
            premium,
            scan_latency_ms,
        ),
    ensures
        0 <= delivery_completed_at_ms - spot_completed_at_ms <= i64::MAX ==> spot_completed_at_ms
            + view.response_skew_ms == delivery_completed_at_ms,
        0 <= spot_completed_at_ms - delivery_completed_at_ms <= i64::MAX
            ==> delivery_completed_at_ms + view.response_skew_ms == spot_completed_at_ms,
        0 <= observed_at_ms - premium.time <= i64::MAX ==> premium.time + view.premium_age_ms
            == observed_at_ms,
        0 <= premium.time - observed_at_ms <= i64::MAX ==> observed_at_ms + view.premium_age_ms
            == premium.time,
        view.symbol@ == contract.symbol@,
        view.pair@ == contract.pair@,
        view.contract_type@ == contract.contract_type@,
        view.delivery_time_ms == contract.delivery_date,
        view.quantity_step@ == plain_notation(contract.quantity_step@),
        view.spot_price_tick@ == plain_notation(contract.spot_price_tick@),
        view.delivery_price_tick@ == plain_notation(contract.delivery_price_tick@),
        view.mark_price@ == plain_notation(parsed_decimal(premium.mark_price@)->0),
        view.index_price@ == plain_notation(parsed_decimal(premium.index_price@)->0),
        view.scan_latency_ms == scan_latency_ms,
{
}

/// What a round of answers on a contract comes to; the outer `None` is an overflow or a
/// division by zero.
pub fn delivery_from_answers(
    contract: &DeliveryContract,
    observed_at_ms: i64,
    spot: &BinancePublicOrderBook,
    spot_completed_at_ms: i64,
    delivery: &BinancePublicOrderBook,
    delivery_completed_at_ms: i64,
    premium: &BinanceDeliveryPremiumIndex,
    scan_latency_ms: i64,
) -> (result: Option<Result<DeliveryScanResult, String>>)
    ensures
        match answered_delivery(*contract, observed_at_ms as int, *spot, *delivery, *premium) {
            None => result is None,
            Some(Err(words)) => result matches Some(Err(error)) && error@ == words,
            Some(Ok(scan)) => result matches Some(Ok(found)) && {
                &&& shows_delivery(found.observation, scan.figures)
                &&& delivery_answers_shown(
                    found.observation,
                    *contract,
                    observed_at_ms,
                    spot_completed_at_ms,
                    delivery_completed_at_ms,
                    *premium,
                    scan_latency_ms,
                )
                &&& found.plan.quantity@ == scan.figures.entry.quantity.normalized()
                &&& found.plan.spot_limit_price@ == scan.spot_limit_price
                &&& found.plan.delivery_limit_price@ == scan.delivery_limit_price
            },
        },
{
    let spot_levels = match spot.ask_levels() {
        Ok(levels) => levels,
        Err(error) => return Some(Err(error.message())),
    };
    let delivery_levels = match delivery.bid_levels() {
        Ok(levels) => levels,
        Err(error) => return Some(Err(error.message())),
    };
    let mark_price = match Decimal::parse(premium.mark_price.as_str()) {
        Some(price) => price,
        None => return Some(Err("交割标记价无效".to_owned())),
    };
    let index_price = match Decimal::parse(premium.index_price.as_str()) {
        Some(price) => price,
        None => return Some(Err("交割指数价无效".to_owned())),
    };
    let basis = checked_calculate_delivery_basis(
        contract.symbol.as_str(),
        contract.pair.as_str(),
        contract.contract_type.as_str(),
        contract.delivery_date,
        observed_at_ms,
        contract.quantity_step,
        contract.minimum_quantity,
        contract.spot_price_tick,
        contract.delivery_price_tick,
        spot_levels.as_slice(),
        delivery_levels.as_slice(),
        mark_price,
        index_price,
        gap_ms(spot_completed_at_ms, delivery_completed_at_ms),
        gap_ms(observed_at_ms, premium.time),
        scan_latency_ms,
    )?;
    let observation = match basis {
        Some(observation) => observation,
        None => return Some(
            Err(contract.symbol.clone().concat(" 交割订单簿深度不足或已到期")),
        ),
    };
    let quantity = match Decimal::parse(observation.quantity.as_str()) {
        Some(quantity) => quantity,
        None => return Some(Err("模拟数量无效".to_owned())),
    };
    let spot_limit_price = match limit_price_for_quantity(spot_levels.as_slice(), quantity)? {
        Ok(price) => price,
        Err(error) => return Some(Err(error)),
    };
    let delivery_limit_price = match limit_price_for_quantity(
        delivery_levels.as_slice(),
        quantity,
    )? {
        Ok(price) => price,
        Err(error) => return Some(Err(error)),
    };
    Some(
        Ok(
            DeliveryScanResult {
                observation,
                plan: DeliveryPlan { quantity, spot_limit_price, delivery_limit_price },
            },
        ),
    )
}

/// How a planned entry stands against later books.
#[derive(Clone, Debug)]
pub struct BinanceDeliveryRequoteView {
    pub symbol: String,
    pub quoted_at_ms: i64,
    pub checked_at_ms: i64,
    pub delay_ms: i64,
    pub quantity: String,
    pub spot_limit_price: String,
    pub delivery_limit_price: String,
    pub spot_fillable: bool,
    pub delivery_fillable: bool,
    pub spot_cost: Option<String>,
    pub delivery_proceeds: Option<String>,
    pub gross_basis: Option<String>,
    pub status: String,
    pub error: Option<String>,
}

/// What a planned entry comes to on later books.
pub struct RequoteFigures {
    pub spot_cost: Option<DecimalView>,
    pub delivery_proceeds: Option<DecimalView>,
    pub gross_basis: Option<DecimalView>,
}

/// A plan on later books: each leg at its limit or better, or not at all. `None` on overflow.
pub open spec fn requoted(
    plan: DeliveryPlan,
    spot: Seq<LevelView>,
    delivery: Seq<LevelView>,
) -> Option<RequoteFigures> {
    let cost = consumed_at_limit_from(
        spot,
        0,
        plan.spot_limit_price@,
        true,
        plan.quantity@,
        zero(),
    );
    let proceeds = consumed_at_limit_from(
        delivery,
        0,
        plan.delivery_limit_price@,
        false,
        plan.quantity@,
        zero(),
    );
    match (cost, proceeds) {
        (Some(Some(cost)), Some(Some(proceeds))) => match difference(proceeds, cost) {
            None => None,
            Some(basis) => Some(
                RequoteFigures {
                    spot_cost: Some(cost),
                    delivery_proceeds: Some(proceeds),
                    gross_basis: Some(basis),
                },
            ),
        },
        (Some(spot_cost), Some(delivery_proceeds)) => Some(
            RequoteFigures { spot_cost, delivery_proceeds, gross_basis: None },
        ),
        _ => None,
    }
}

/// What a later check of a plan finds: figures where both books can be read, else the words
/// of what is wrong. `None` on overflow.
pub open spec fn requote_outcome(
    plan: DeliveryPlan,
    books: Result<(BinancePublicOrderBook, BinancePublicOrderBook), Seq<char>>,
) -> Option<Result<RequoteFigures, Seq<char>>> {
    match books {
        Err(words) => Some(Err(words)),
        Ok((spot, delivery)) => match (
            public_ladder(spot.asks@, false),
            public_ladder(delivery.bids@, true),
        ) {
            (Err(fault), _) => Some(Err(fault.words())),
            (_, Err(fault)) => Some(Err(fault.words())),
            (Ok(spot_ladder), Ok(delivery_ladder)) => match requoted(
                plan,
                spot_ladder,
                delivery_ladder,
            ) {
                None => None,
                Some(figures) => Some(Ok(figures)),
            },
        },
    }
}

pub open spec fn optional_notation(value: Option<DecimalView>) -> Option<Seq<char>> {
    match value {
        Some(number) => Some(plain_notation(number)),
        None => None,
    }
}

/// A record shows the outcome of a check.
pub open spec fn shows_requote(
    record: BinanceDeliveryRequoteView,
    outcome: Result<RequoteFigures, Seq<char>>,
) -> bool {
    match outcome {
        Ok(figures) => {
            &&& record.spot_fillable == figures.spot_cost is Some
            &&& record.delivery_fillable == figures.delivery_proceeds is Some
            &&& text_of(record.spot_cost) == optional_notation(figures.spot_cost)
            &&& text_of(record.delivery_proceeds) == optional_notation(figures.delivery_proceeds)
            &&& text_of(record.gross_basis) == optional_notation(figures.gross_basis)
            &&& record.status@ == (if figures.gross_basis is Some {
                "both_fillable"@
            } else {
                "cancelled"@
            })
            &&& record.error is None
        },
        Err(words) => {
            &&& !record.spot_fillable && !record.delivery_fillable
            &&& record.spot_cost is None && record.delivery_proceeds is None
            &&& record.gross_basis is None
            &&& record.status@ == "error"@
            &&& text_of(record.error) == Some(words)
        },
    }
}

/// A record names the plan that was checked, and when.
pub open spec fn requote_of(
    record: BinanceDeliveryRequoteView,
    symbol: Seq<char>,
    quoted_at_ms: i64,
    checked_at_ms: i64,
    delay_ms: i64,
    plan: DeliveryPlan,
) -> bool {
    &&& record.symbol@ == symbol
    &&& record.quoted_at_ms == quoted_at_ms
    &&& record.checked_at_ms == checked_at_ms
    &&& record.delay_ms == delay_ms
    &&& record.quantity@ == plain_notation(plan.quantity@)
    &&& record.spot_limit_price@ == plain_notation(plan.spot_limit_price@)
    &&& record.delivery_limit_price@ == plain_notation(plan.delivery_limit_price@)
}

fn failed_requote(
    symbol: &str,
    quoted_at_ms: i64,
    checked_at_ms: i64,
    delay_ms: i64,
    plan: DeliveryPlan,
    error: String,
) -> (result: BinanceDeliveryRequoteView)
    ensures
        requote_of(result, symbol@, quoted_at_ms, checked_at_ms, delay_ms, plan),
        shows_requote(result, Err(error@)),
{
    BinanceDeliveryRequoteView {
        symbol: symbol.to_owned(),
        quoted_at_ms,
        checked_at_ms,
        delay_ms,
        quantity: plan.quantity.plain_text(),
        spot_limit_price: plan.spot_limit_price.plain_text(),
        delivery_limit_price: plan.delivery_limit_price.plain_text(),
        spot_fillable: false,
        delivery_fillable: false,
        spot_cost: None,
        delivery_proceeds: None,
        gross_basis: None,
        status: "error".to_owned(),
        error: Some(error),
    }
}

pub open spec fn books_view(
    books: Result<(BinancePublicOrderBook, BinancePublicOrderBook), String>,
) -> Result<(BinancePublicOrderBook, BinancePublicOrderBook), Seq<char>> {
    match books {
        Ok(pair) => Ok(pair),
        Err(error) => Err(error@),
    }
}

/// The record of checking a plan against later books; `None` on overflow.
pub fn requote_record(
    symbol: &str,
    quoted_at_ms: i64,
    checked_at_ms: i64,
    delay_ms: i64,
    plan: DeliveryPlan,
    books: Result<(BinancePublicOrderBook, BinancePublicOrderBook), String>,
) -> (result: Option<BinanceDeliveryRequoteView>)
    ensures
        match requote_outcome(plan, books_view(books)) {
            None => result is None,
            Some(outcome) => result matches Some(record) && requote_of(
                record,
                symbol@,
                quoted_at_ms,
                checked_at_ms,
                delay_ms,
                plan,
            ) && shows_requote(record, outcome),
        },
{
    let (spot, delivery) = match books {
        Ok(pair) => pair,
        Err(error) => return Some(
            failed_requote(symbol, quoted_at_ms, checked_at_ms, delay_ms, plan, error),
        ),
    };
    let spot_levels = match spot.ask_levels() {
        Ok(levels) => levels,
        Err(error) => return Some(
            failed_requote(symbol, quoted_at_ms, checked_at_ms, delay_ms, plan, error.message()),
        ),
    };
    let delivery_levels = match delivery.bid_levels() {
        Ok(levels) => levels,
        Err(error) => return Some(
            failed_requote(symbol, quoted_at_ms, checked_at_ms, delay_ms, plan, error.message()),
        ),
    };
    let spot_cost = consume_depth_at_limit(
        spot_levels.as_slice(),
        plan.quantity,
        plan.spot_limit_price,
        true,
    )?;
    let delivery_proceeds = consume_depth_at_limit(
        delivery_levels.as_slice(),
        plan.quantity,
        plan.delivery_limit_price,
        false,
    )?;
    let gross_basis = match (spot_cost, delivery_proceeds) {
        (Some(cost), Some(proceeds)) => Some(proceeds.checked_sub(cost)?),
        _ => None,
    };
    let status = if gross_basis.is_some() {
        "both_fillable".to_owned()
    } else {
        "cancelled".to_owned()
    };
    Some(
        BinanceDeliveryRequoteView {
            symbol: symbol.to_owned(),
            quoted_at_ms,
            checked_at_ms,
            delay_ms,
            quantity: plan.quantity.plain_text(),
            spot_limit_price: plan.spot_limit_price.plain_text(),
            delivery_limit_price: plan.delivery_limit_price.plain_text(),
            spot_fillable: spot_cost.is_some(),
            delivery_fillable: delivery_proceeds.is_some(),
            spot_cost: optional_text(spot_cost),
            delivery_proceeds: optional_text(delivery_proceeds),
            gross_basis: optional_text(gross_basis),
            status,
            error: None,
        },
    )
}

/// How long after the quote the next check of a plan is made, when `done` of them were made:
/// 250 milliseconds, one second, five seconds; then the follow-up is over.
pub fn next_requote_delay(done: usize) -> (result: Option<i64>)
    ensures
        result == (if done == 0 {
            Some(250i64)
        } else if done == 1 {
            Some(1_000i64)
        } else if done == 2 {
            Some(5_000i64)
        } else {
            None
        }),
        result == requote_delay(done as nat),
{
    if done == 0 {
        Some(250)
    } else if done == 1 {
        Some(1_000)
    } else if done == 2 {
        Some(5_000)
    } else {
        None
    }
}

/// How long to wait for the next check of a plan after the one before it, or after the quote.
pub fn next_requote_wait(done: usize) -> (result: Option<u64>)
    ensures
        result == (if done == 0 {
            Some(250u64)
        } else if done == 1 {
            Some(750u64)
        } else if done == 2 {
            Some(4_000u64)
        } else {
            None
        }),
        result == requote_wait(done as nat),
{
    let delay: i64 = match next_requote_delay(done) {
        Some(delay) => delay,
        None => return None,
    };
    let passed: i64 = if done == 0 {
        0
    } else {
        match next_requote_delay(done - 1) {
            Some(passed) => passed,
            None => return None,
        }
    };
    Some((delay - passed) as u64)
}

/// How long after the quote a check is made, when `done` were made before it.
pub open spec fn requote_delay(done: nat) -> Option<i64> {
    if done == 0 {
        Some(250i64)
    } else if done == 1 {
        Some(1_000i64)
    } else if done == 2 {
        Some(5_000i64)
    } else {
        None
    }
}

/// How long is waited for a check, when `done` were made before it.
pub open spec fn requote_wait(done: nat) -> Option<u64> {
    if done == 0 {
        Some(250u64)
    } else if done == 1 {
        Some(750u64)
    } else if done == 2 {
        Some(4_000u64)
    } else {
        None
    }
}

/// How long was waited for the checks of a plan that were made, together.
pub open spec fn waited(done: nat) -> int
    decreases done,
{
    if done == 0 {
        0
    } else {
        waited((done - 1) as nat) + match requote_wait((done - 1) as nat) {
            Some(wait) => wait as int,
            None => 0,
        }
    }
}

/// A plan is checked a quarter of a second, one second and five seconds after its quote, and no
/// more: the waits before a check and those before it add up to its delay.
pub proof fn waits_add_up_to_delays(done: nat)
    ensures
        requote_delay(done) is Some <==> done < 3,
        requote_wait(done) is Some <==> done < 3,
        requote_delay(done) is Some ==> waited(done + 1) == requote_delay(done)->0,
        waited(1) * 4 == 1_000,
        waited(2) == 1_000,
        done >= 3 ==> waited(done) == 5 * 1_000,
    decreases done,
{
    assert(waited(1) == 250) by {
        reveal_with_fuel(waited, 2);
    }
    assert(waited(2) == 1_000);
    assert(waited(3) == 5_000);
    if done > 3 {
        waits_add_up_to_delays((done - 1) as nat);
    }
}

/// The record of the check of a plan that comes after `done` others: `Some(None)` where the
/// follow-up is over, `None` on overflow.
pub fn scheduled_requote(
    symbol: &str,
    quoted_at_ms: i64,
    checked_at_ms: i64,
    done: usize,
    plan: DeliveryPlan,
    books: Result<(BinancePublicOrderBook, BinancePublicOrderBook), String>,
) -> (result: Option<Option<BinanceDeliveryRequoteView>>)
    ensures
        match requote_delay(done as nat) {
            None => result matches Some(None),
            Some(delay_ms) => match requote_outcome(plan, books_view(books)) {
                None => result is None,
                Some(outcome) => result matches Some(Some(record)) && requote_of(
                    record,
                    symbol@,
                    quoted_at_ms,
                    checked_at_ms,
                    delay_ms,
                    plan,
                ) && shows_requote(record, outcome),
            },
        },
{
    match next_requote_delay(done) {
        None => Some(None),
        Some(delay_ms) => Some(
            Some(requote_record(symbol, quoted_at_ms, checked_at_ms, delay_ms, plan, books)?),
        ),
    }
}

/// A record of a check says `both_fillable` exactly where both legs of the plan fill, `error`
/// exactly where a book could not be read, and else `cancelled`; there is a basis exactly where
/// both legs fill.
pub proof fn requotes_tell_whether_both_legs_fill(
    record: BinanceDeliveryRequoteView,
    plan: DeliveryPlan,
    books: Result<(BinancePublicOrderBook, BinancePublicOrderBook), Seq<char>>,
)
    requires
        requote_outcome(plan, books) matches Some(outcome) && shows_requote(record, outcome),
    ensures
        record.status@ == "error"@ <==> requote_outcome(plan, books)->0 is Err,
        record.status@ == "both_fillable"@ <==> record.spot_fillable && record.delivery_fillable,
        record.gross_basis is Some <==> record.spot_fillable && record.delivery_fillable,
        record.status@ == "error"@ || record.status@ == "both_fillable"@ || record.status@
            == "cancelled"@,
{
    reveal_strlit("error");
    reveal_strlit("both_fillable");
    reveal_strlit("cancelled");
    assert("error"@.len() != "both_fillable"@.len());
    assert("error"@.len() != "cancelled"@.len());
    assert("both_fillable"@.len() != "cancelled"@.len());
}

/// How long a contract is left alone after a plan on it was followed up.
pub const REQUOTE_PAUSE_MS: i64 = 3_600_000;

/// When the plans on each contract were last followed up.
#[derive(Debug)]
pub struct RequoteLog {
    times: PairTable<i64>,
}

impl RequoteLog {
    /// When the plan on `symbol` was last followed up; zero where it never was.
    pub closed spec fn last(self, symbol: Seq<char>) -> i64 {
        if self.times@.contains_key((symbol, ""@)) {
            self.times@[(symbol, ""@)]
        } else {
            0
        }
    }

    pub fn new() -> (result: RequoteLog)
        ensures
            forall|symbol: Seq<char>| #[trigger] result.last(symbol) == 0,
    {
        RequoteLog { times: PairTable::new() }
    }

    /// Whether the plan of an observation is followed up: it earns money before the cost of
    /// capital, and the contract was left alone for long enough. If so, this is noted.
    pub fn is_due(&mut self, observation: &BinanceDeliveryBasisView) -> (result: bool)
        ensures
            follow_up_noted(*old(self), *final(self), *observation, result),
    {
        let profitable = match Decimal::parse(observation.pre_capital_net_profit.as_str()) {
            Some(profit) => profit.is_positive(),
            None => false,
        };
        let last: i64 = match self.times.get(observation.symbol.as_str(), "") {
            Some(time) => time,
            None => 0,
        };
        let gap: i128 = observation.observed_at_ms as i128 - last as i128;
        if profitable && gap >= REQUOTE_PAUSE_MS as i128 {
            self.times.insert(observation.symbol.as_str(), "", observation.observed_at_ms);
            true
        } else {
            false
        }
    }
}

/// A plan is followed up where it earns money before the cost of capital and the contract was
/// left alone for long enough. The log then holds the time, and else stays as it was.
pub open spec fn follow_up_noted(
    before: RequoteLog,
    after: RequoteLog,
    observation: BinanceDeliveryBasisView,
    due: bool,
) -> bool {
    &&& due == ({
        &&& parsed_decimal(observation.pre_capital_net_profit@) matches Some(profit)
            && profit.is_positive()
        &&& observation.observed_at_ms - before.last(observation.symbol@) >= REQUOTE_PAUSE_MS
    })
    &&& forall|symbol: Seq<char>| #[trigger]
        after.last(symbol) == (if due && symbol == observation.symbol@ {
            observation.observed_at_ms
        } else {
            before.last(symbol)
        })
}

/// Two plans on one contract that are followed up one after the other lie at least the pause
/// apart.
pub proof fn follow_ups_keep_their_distance(
    before: RequoteLog,
    between: RequoteLog,
    after: RequoteLog,
    first: BinanceDeliveryBasisView,
    second: BinanceDeliveryBasisView,
)
    requires
        follow_up_noted(before, between, first, true),
        follow_up_noted(between, after, second, true),
        first.symbol@ == second.symbol@,
    ensures
        second.observed_at_ms - first.observed_at_ms >= 60 * 60 * 1_000,
{
    assert(between.last(first.symbol@) == first.observed_at_ms);
}

/// A delivery position holds the most whole steps within its capacity, up to the rounding of
/// their number, and no fewer than the least quantity. Without that rounding it holds exactly
/// the most.
pub proof fn delivery_positions_are_the_largest(
    delivery_time_ms: int,
    observed_at_ms: int,
    quantity_step: DecimalView,
    minimum_quantity: DecimalView,
    spot: Seq<LevelView>,
    delivery: Seq<LevelView>,
    figures: DeliveryFigures,
    raw: DecimalView,
    count: int,
)
    requires
        delivery_basis(
            delivery_time_ms,
            observed_at_ms,
            quantity_step,
            minimum_quantity,
            spot,
            delivery,
        ) == Some(Some(figures)),
        quantity_step.valid(),
        capacity(spot, delivery) == Some(raw),
        steps_fit(raw, quantity_step),
    ensures
        ({
            let one = whole(1).units();
            let off = step_miss(raw, quantity_step);
            &&& figures.entry.quantity.units() * one <= raw.units() * one + off
            &&& (figures.entry.quantity.units() + quantity_step.units()) * one > raw.units() * one
                - off
            &&& within_rounding(off, quantity_step, quotient(raw, quantity_step)->0)
        }),
        has_quotient(raw, quantity_step) ==> (count * quantity_step.units() <= raw.units() <==> count
            * quantity_step.units() <= figures.entry.quantity.units()),
        minimum_quantity.le(figures.entry.quantity),
{
    whole_steps_are_the_most(raw, quantity_step, figures.entry.quantity);
}

proof fn lemma_filter_is_first(filters: Seq<BinanceSymbolFilter>, kind: Seq<char>, start: int)
    requires
        0 <= start <= filters.len(),
    ensures
        match filter_from(filters, kind, start) {
            Some(filter) => exists|place: int|
                start <= place < filters.len() && #[trigger] filters[place] == filter
                    && filter.filter_type@ == kind && forall|i: int|
                    start <= i < place ==> (#[trigger] filters[i]).filter_type@ != kind,
            None => forall|i: int|
                start <= i < filters.len() ==> (#[trigger] filters[i]).filter_type@ != kind,
        },
    decreases filters.len() - start,
{
    if start < filters.len() {
        lemma_filter_is_first(filters, kind, start + 1);
        if filters[start].filter_type@ == kind {
            assert(filters[start] == filter_from(filters, kind, start)->0);
        }
    }
}

/// A filter is the first of a kind.
pub open spec fn is_first_filter(
    filters: Seq<BinanceSymbolFilter>,
    kind: Seq<char>,
    place: int,
) -> bool {
    &&& 0 <= place < filters.len()
    &&& filters[place].filter_type@ == kind
    &&& forall|i: int| 0 <= i < place ==> (#[trigger] filters[i]).filter_type@ != kind
}

/// The rules of a symbol are the step and the least quantity of its first lot-size filter and the
/// tick of its first price filter.
pub proof fn rules_are_those_of_the_filters(filters: Seq<BinanceSymbolFilter>, rules: RuleView)
    requires
        rules_of(filters) == Some(rules),
    ensures
        exists|lot: int, price: int| #[trigger]
            is_first_filter(filters, "LOT_SIZE"@, lot) && #[trigger] is_first_filter(
                filters,
                "PRICE_FILTER"@,
                price,
            ) && optional_decimal(filters[lot].step_size) == Some(rules.step) && optional_decimal(
                filters[lot].min_qty,
            ) == Some(rules.minimum) && optional_decimal(filters[price].tick_size) == Some(
                rules.tick,
            ),
{
    lemma_filter_is_first(filters, "LOT_SIZE"@, 0);
    lemma_filter_is_first(filters, "PRICE_FILTER"@, 0);
    let lot_filter = filter_from(filters, "LOT_SIZE"@, 0)->0;
    let price_filter = filter_from(filters, "PRICE_FILTER"@, 0)->0;
    let lot = choose|place: int|
        0 <= place < filters.len() && #[trigger] filters[place] == lot_filter && forall|i: int|
            0 <= i < place ==> (#[trigger] filters[i]).filter_type@ != "LOT_SIZE"@;
    let price = choose|place: int|
        0 <= place < filters.len() && #[trigger] filters[place] == price_filter && forall|i: int|
            0 <= i < place ==> (#[trigger] filters[i]).filter_type@ != "PRICE_FILTER"@;
    assert(is_first_filter(filters, "LOT_SIZE"@, lot));
    assert(is_first_filter(filters, "PRICE_FILTER"@, price));
}

/// A spot listing of a pair that is trading and states its rules.
pub open spec fn lists_rules(listing: BinanceSpotSymbol, pair: Seq<char>) -> bool {
    &&& listing.symbol@ == pair
    &&& listing.status@ == "TRADING"@
    &&& rules_of(listing.filters@) is Some
}

/// The rules of a pair on the spot exchange are those of its last listing that is trading and
/// states them, and there are none exactly where there is no such listing.
pub proof fn the_last_trading_listing_rules(symbols: Seq<BinanceSpotSymbol>, pair: Seq<char>)
    ensures
        match spot_rules_of(symbols, pair) {
            Some(rules) => exists|place: int|
                0 <= place < symbols.len() && #[trigger] lists_rules(symbols[place], pair)
                    && rules_of(symbols[place].filters@) == Some(rules) && forall|i: int|
                    place < i < symbols.len() ==> !#[trigger] lists_rules(symbols[i], pair),
            None => forall|i: int|
                0 <= i < symbols.len() ==> !#[trigger] lists_rules(symbols[i], pair),
        },
    decreases symbols.len(),
{
    if symbols.len() > 0 {
        let rest = symbols.drop_last();
        let last = symbols.len() - 1;
        the_last_trading_listing_rules(rest, pair);
        if lists_rules(symbols[last], pair) {
            assert(spot_rules_of(symbols, pair) == rules_of(symbols[last].filters@));
        } else {
            assert forall|i: int| 0 <= i < last implies #[trigger] symbols[i] == rest[i] by {}
            if let Some(rules) = spot_rules_of(rest, pair) {
                let place = choose|place: int|
                    0 <= place < rest.len() && #[trigger] lists_rules(rest[place], pair)
                        && rules_of(rest[place].filters@) == Some(rules) && forall|i: int|
                        place < i < rest.len() ==> !#[trigger] lists_rules(rest[i], pair);
                assert(lists_rules(symbols[place], pair));
                assert forall|i: int| place < i < symbols.len() implies !#[trigger] lists_rules(
                    symbols[i],
                    pair,
                ) by {
                    if i < last {
                        assert(lists_rules(rest[i], pair) == lists_rules(symbols[i], pair));
                    }
                }
            } else {
                assert forall|i: int| 0 <= i < symbols.len() implies !#[trigger] lists_rules(
                    symbols[i],
                    pair,
                ) by {
                    if i < last {
                        assert(lists_rules(rest[i], pair) == lists_rules(symbols[i], pair));
                    }
                }
            }
        }
    }
}

/// A contract comes from a listing: one that is trading, on one of four pairs, with a delivery
/// that is still to come. It follows the stricter step and least quantity of both exchanges, and
/// keeps the tick of each.
pub open spec fn comes_from(
    contract: DeliveryContract,
    listing: BinanceFuturesSymbol,
    spot: Seq<BinanceSpotSymbol>,
    now_ms: int,
) -> bool {
    let spot_side = spot_rules_of(spot, listing.pair@);
    let futures_side = rules_of(listing.filters@);
    &&& listing.status@ == "TRADING"@
    &&& listing.contract_type@ != "PERPETUAL"@
    &&& listing.pair@ == "BTCUSDT"@ || listing.pair@ == "ETHUSDT"@ || listing.pair@ == "SOLUSDT"@
        || listing.pair@ == "XRPUSDT"@
    &&& now_ms < listing.delivery_date
    &&& spot_side is Some && futures_side is Some
    &&& contract.symbol@ == listing.symbol@
    &&& contract.pair@ == listing.pair@
    &&& contract.contract_type@ == listing.contract_type@
    &&& contract.delivery_date == listing.delivery_date
    &&& is_stricter(contract.quantity_step@, spot_side->0.step, futures_side->0.step)
    &&& is_stricter(contract.minimum_quantity@, spot_side->0.minimum, futures_side->0.minimum)
    &&& contract.spot_price_tick@ == spot_side->0.tick
    &&& contract.delivery_price_tick@ == futures_side->0.tick
}

/// A rule is the larger one of two.
pub open spec fn is_stricter(rule: DecimalView, first: DecimalView, second: DecimalView) -> bool {
    &&& rule.units() >= first.units() && rule.units() >= second.units()
    &&& rule == first || rule == second
}

/// Every contract that is found comes from a listing.
pub proof fn contracts_come_from_listings(
    contracts: Seq<DeliveryContract>,
    listings: Seq<BinanceFuturesSymbol>,
    spot: Seq<BinanceSpotSymbol>,
    now_ms: int,
    k: int,
)
    requires
        contracts_of(contracts, listings, spot, now_ms),
        0 <= k < contracts.len(),
    ensures
        exists|i: int|
            0 <= i < listings.len() && comes_from(
                contracts[k],
                #[trigger] listings[i],
                spot,
                now_ms,
            ),
    decreases listings.len(),
{
    if listings.len() > 0 {
        let last = listings.len() - 1;
        let listing = listings[last];
        let rest = listings.drop_last();
        let found = is_tracked(listing, now_ms) && spot_rules_of(spot, listing.pair@) is Some
            && rules_of(listing.filters@) is Some;
        if found && k == contracts.len() - 1 {
            assert(comes_from(contracts[k], listings[last], spot, now_ms));
        } else {
            let earlier = if found {
                contracts.drop_last()
            } else {
                contracts
            };
            contracts_come_from_listings(earlier, rest, spot, now_ms, k);
            let i = choose|i: int|
                0 <= i < rest.len() && comes_from(earlier[k], #[trigger] rest[i], spot, now_ms);
            assert(listings[i] == rest[i]);
        }
    }
}

/// A listing that is trading, on one of four pairs, with a delivery that is still to come and
/// with rules on both exchanges, gives a contract.
pub proof fn listings_give_contracts(
    contracts: Seq<DeliveryContract>,
    listings: Seq<BinanceFuturesSymbol>,
    spot: Seq<BinanceSpotSymbol>,
    now_ms: int,
    i: int,
)
    requires
        contracts_of(contracts, listings, spot, now_ms),
        0 <= i < listings.len(),
        listings[i].status@ == "TRADING"@,
        listings[i].contract_type@ != "PERPETUAL"@,
        listings[i].pair@ == "BTCUSDT"@ || listings[i].pair@ == "ETHUSDT"@ || listings[i].pair@
            == "SOLUSDT"@ || listings[i].pair@ == "XRPUSDT"@,
        now_ms < listings[i].delivery_date,
        spot_rules_of(spot, listings[i].pair@) is Some,
        rules_of(listings[i].filters@) is Some,
    ensures
        exists|k: int|
            0 <= k < contracts.len() && comes_from(
                #[trigger] contracts[k],
                listings[i],
                spot,
                now_ms,
            ),
    decreases listings.len(),
{
    let last = listings.len() - 1;
    let listing = listings[last];
    let rest = listings.drop_last();
    let found = is_tracked(listing, now_ms) && spot_rules_of(spot, listing.pair@) is Some
        && rules_of(listing.filters@) is Some;
    if i == last {
        assert(comes_from(contracts[contracts.len() - 1], listings[i], spot, now_ms));
    } else {
        let earlier = if found {
            contracts.drop_last()
        } else {
            contracts
        };
        assert(rest[i] == listings[i]);
        listings_give_contracts(earlier, rest, spot, now_ms, i);
        let k = choose|k: int|
            0 <= k < earlier.len() && comes_from(
                #[trigger] earlier[k],
                rest[i],
                spot,
                now_ms,
            );
        assert(contracts[k] == earlier[k]);
    }
}

/// A plan on later books buys spot at its limit or lower and sells the contract at its limit or
/// higher: each leg fills exactly where the allowed levels offer the quantity, and the basis is
/// what the contract brings less what the spot costs.
pub proof fn requotes_fill_within_their_limits(
    plan: DeliveryPlan,
    spot: Seq<LevelView>,
    delivery: Seq<LevelView>,
    figures: RequoteFigures,
)
    requires
        requoted(plan, spot, delivery) == Some(figures),
        plan.quantity@.is_positive(),
        offers(spot),
        offers(delivery),
        unrounded_turns(
            spot,
            0,
            within(plan.spot_limit_price@.units(), true),
            plan.quantity@,
            zero(),
        ),
        unrounded_turns(
            delivery,
            0,
            within(plan.delivery_limit_price@.units(), false),
            plan.quantity@,
            zero(),
        ),
    ensures
        figures.spot_cost is Some <==> plan.quantity@.units() <= offered_before(
            spot,
            spot.len() as int,
            within(plan.spot_limit_price@.units(), true),
        ),
        figures.delivery_proceeds is Some <==> plan.quantity@.units() <= offered_before(
            delivery,
            delivery.len() as int,
            within(plan.delivery_limit_price@.units(), false),
        ),
        figures.spot_cost matches Some(cost) ==> exists|amounts: Seq<int>| #[trigger]
            bought_in_turn(
                spot,
                amounts,
                plan.quantity@.units(),
                within(plan.spot_limit_price@.units(), true),
            ) && weighed(spot, amounts, price_of(), 0) == cost.units() * whole(1).units(),
        figures.delivery_proceeds matches Some(proceeds) ==> exists|amounts: Seq<int>| #[trigger]
            bought_in_turn(
                delivery,
                amounts,
                plan.quantity@.units(),
                within(plan.delivery_limit_price@.units(), false),
            ) && weighed(delivery, amounts, price_of(), 0) == proceeds.units() * whole(1).units(),
        figures.gross_basis is Some <==> figures.spot_cost is Some && figures.delivery_proceeds
            is Some,
        figures.gross_basis matches Some(basis) ==> close(
            basis.units(),
            figures.delivery_proceeds->0.units() - figures.spot_cost->0.units(),
            difference_miss(figures.delivery_proceeds->0, figures.spot_cost->0),
        ),
{
    depth_at_a_limit_is_taken_in_turn(spot, plan.quantity@, plan.spot_limit_price@, true);
    depth_at_a_limit_is_taken_in_turn(delivery, plan.quantity@, plan.delivery_limit_price@, false);
}

/// A plan is followed up exactly where it earns something before the cost of capital and the one
/// before it on its contract is an hour or more ago; that and nothing else is noted.
pub proof fn follow_ups_come_an_hour_apart(
    before: RequoteLog,
    after: RequoteLog,
    observation: BinanceDeliveryBasisView,
    due: bool,
    other: Seq<char>,
)
    requires
        follow_up_noted(before, after, observation, due),
    ensures
        due <==> {
            &&& parsed_decimal(observation.pre_capital_net_profit@) is Some
            &&& parsed_decimal(observation.pre_capital_net_profit@)->0.units() > 0
            &&& observation.observed_at_ms - before.last(observation.symbol@) >= 60 * 60 * 1_000
        },
        due ==> after.last(observation.symbol@) == observation.observed_at_ms,
        !due || other != observation.symbol@ ==> after.last(other) == before.last(other),
{
    if let Some(profit) = parsed_decimal(observation.pre_capital_net_profit@) {
        positive_units(profit);
    }
}

/// The books of a contract are read for a purchase of spot and a sale of the contract: the asks
/// from the lowest price up, the bids from the highest price down. The quantity of the position
/// then completes at the limit prices of the plan.
pub proof fn delivery_answers_are_read_in_order(
    contract: DeliveryContract,
    observed_at_ms: int,
    spot: BinancePublicOrderBook,
    delivery: BinancePublicOrderBook,
    premium: BinanceDeliveryPremiumIndex,
    scan: ScanView,
)
    requires
        answered_delivery(contract, observed_at_ms, spot, delivery, premium) == Some(
            Ok::<ScanView, Seq<char>>(scan),
        ),
    ensures
        public_ladder(spot.asks@, false) is Ok,
        public_ladder(delivery.bids@, true) is Ok,
        ({
            let asks = public_ladder(spot.asks@, false)->Ok_0;
            let bids = public_ladder(delivery.bids@, true)->Ok_0;
            let quantity = scan.figures.entry.quantity.normalized();
            &&& delivery_basis(
                contract.delivery_date as int,
                observed_at_ms,
                contract.quantity_step@,
                contract.minimum_quantity@,
                asks,
                bids,
            ) == Some(Some(scan.figures))
            &&& limit_from(asks, 0, quantity) == Some(Some(scan.spot_limit_price))
            &&& limit_from(bids, 0, quantity) == Some(Some(scan.delivery_limit_price))
            &&& forall|i: int, j: int|
                0 <= i < j < asks.len() ==> (#[trigger] asks[i]).price.units() <= (
                #[trigger] asks[j]).price.units()
            &&& forall|i: int, j: int|
                0 <= i < j < bids.len() ==> (#[trigger] bids[i]).price.units() >= (
                #[trigger] bids[j]).price.units()
        }),
{
    public_ladders_are_sorted(spot.asks@, false);
    public_ladders_are_sorted(delivery.bids@, true);
}

/// The record of a check names the plan and shows what each leg comes to under its own name.
pub proof fn requote_records_show_their_figures(
    record: BinanceDeliveryRequoteView,
    figures: RequoteFigures,
)
    requires
        shows_requote(record, Ok::<RequoteFigures, Seq<char>>(figures)),
    ensures
        record.spot_fillable <==> figures.spot_cost is Some,
        record.delivery_fillable <==> figures.delivery_proceeds is Some,
        figures.spot_cost matches Some(cost) ==> text_of(record.spot_cost) == Some(
            plain_notation(cost),
        ),
        figures.delivery_proceeds matches Some(proceeds) ==> text_of(record.delivery_proceeds)
            == Some(plain_notation(proceeds)),
        figures.gross_basis matches Some(basis) ==> text_of(record.gross_basis) == Some(
            plain_notation(basis),
        ),
        figures.spot_cost is None ==> record.spot_cost is None,
        figures.delivery_proceeds is None ==> record.delivery_proceeds is None,
        record.error is None,
{
}

/// The record of a check names the plan that was checked, each limit under its own side, and both
/// moments in their order.
pub proof fn requote_records_name_their_plan(
    record: BinanceDeliveryRequoteView,
    symbol: Seq<char>,
    quoted_at_ms: i64,
    checked_at_ms: i64,
    done: nat,
    plan: DeliveryPlan,
)
    requires
        requote_delay(done) is Some,
        requote_of(record, symbol, quoted_at_ms, checked_at_ms, requote_delay(done)->0, plan),
    ensures
        record.symbol@ == symbol,
        record.quoted_at_ms == quoted_at_ms,
        record.checked_at_ms == checked_at_ms,
        record.delay_ms == waited(done + 1),
        record.quantity@ == plain_notation(plan.quantity@),
        record.spot_limit_price@ == plain_notation(plan.spot_limit_price@),
        record.delivery_limit_price@ == plain_notation(plan.delivery_limit_price@),
{
    waits_add_up_to_delays(done);
}

} // verus!
