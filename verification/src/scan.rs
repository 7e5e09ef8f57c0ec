//! What the books of a pair show at one moment.
use vstd::prelude::*;

use crate::binance::{level_ladder, BinanceMarketDetail, BinanceOrderBook, BinanceOutcome};
use crate::cross::{
    checked_calculate_binance_internal, checked_calculate_cross,
    checked_calculate_polymarket_internal, cross, internal, internal_rejections, plans,
    price_levels, shows_internal, BinanceInternalView, CrossCalculation, PolymarketInternalView,
    PurchaseFigures, ShadowPlan, PAPER_MAX_QUOTE_AGE_MS, PAPER_MAX_QUOTE_SKEW_MS,
};
use crate::decimal::{decimal_text, quotient, whole, Decimal};
use crate::domain::{ladder_view, PriceLevel};
use crate::ladder::{ladder_of, level_of, LevelView};
use crate::pairs::{is_research_eligible, research_eligible, TrackedPair};
use crate::polymarket::PolymarketOrderBook;
use crate::quotes::{age_of, quote_age_ms, quote_skew_ms, skew_of};
use crate::text::{
    ascii_lower, ascii_lowercase, eq_ignore_ascii_case, int_text, integer_of, integer_text,
    parse_integer, parsed_integer, same, same_ignoring_case, text_of,
};
use crate::time::{
    age_capped, capped_gap, gap_capped, larger_of, minus_saturating, saturated_difference,
};

verus! {

/// What a scan of a pair found, with every number in decimal notation.
#[derive(Clone, Debug)]
pub struct ObservationView {
    pub slug: String,
    pub observed_at_ms: i64,
    pub binance_up_ask: Option<String>,
    pub binance_down_ask: Option<String>,
    pub polymarket_up_ask: Option<String>,
    pub polymarket_down_ask: Option<String>,
    pub direction_a_cost: Option<String>,
    pub direction_a_fees: Option<String>,
    pub direction_a_net_edge: Option<String>,
    pub direction_a_risk_buffers: Option<String>,
    pub direction_a_size: Option<String>,
    pub direction_b_cost: Option<String>,
    pub direction_b_fees: Option<String>,
    pub direction_b_net_edge: Option<String>,
    pub direction_b_risk_buffers: Option<String>,
    pub direction_b_size: Option<String>,
    pub direction_a_rejections: Vec<String>,
    pub direction_b_rejections: Vec<String>,
    pub scan_latency_ms: Option<i64>,
    pub direction_a_quote_skew_ms: Option<i64>,
    pub direction_b_quote_skew_ms: Option<i64>,
    pub direction_a_quote_age_ms: Option<i64>,
    pub direction_b_quote_age_ms: Option<i64>,
    pub remaining_time_ms: Option<i64>,
    pub binance_reference_price: Option<String>,
    pub binance_reference_at_ms: Option<i64>,
    pub polymarket_reference_price: Option<String>,
    pub polymarket_reference_at_ms: Option<i64>,
    pub binance_internal: Option<BinanceInternalView>,
    pub polymarket_internal: Option<PolymarketInternalView>,
}

#[derive(Clone, Debug)]
pub struct ScanPairResult {
    pub observation: ObservationView,
    pub direction_a_plan: Option<ShadowPlan>,
    pub direction_b_plan: Option<ShadowPlan>,
    pub polymarket_internal_plan: Option<ShadowPlan>,
}

/// The position of the first outcome of a name, up to case, from `start` on.
pub open spec fn outcome_from(outcomes: Seq<BinanceOutcome>, name: Seq<char>, start: int) -> Option<int>
    decreases outcomes.len() - start,
{
    if start < 0 || start >= outcomes.len() {
        None
    } else if same_ignoring_case(outcomes[start].name@, name) {
        Some(start)
    } else {
        outcome_from(outcomes, name, start + 1)
    }
}

/// The position of the first outcome of a name, up to case.
fn find_outcome(outcomes: &Vec<BinanceOutcome>, name: &str) -> (result: Option<usize>)
    ensures
        match result {
            Some(position) => position < outcomes@.len() && outcome_from(outcomes@, name@, 0)
                == Some(position as int),
            None => outcome_from(outcomes@, name@, 0) is None,
        },
{
    let mut i: usize = 0;
    while i < outcomes.len()
        invariant
            i <= outcomes@.len(),
            outcome_from(outcomes@, name@, 0) == outcome_from(outcomes@, name@, i as int),
        decreases outcomes@.len() - i,
    {
        if eq_ignore_ascii_case(outcomes[i].name.as_str(), name) {
            return Some(i);
        }
        i = i + 1;
    }
    None
}

/// Under what the books of a Binance market are asked for.
#[derive(Clone, Debug)]
pub struct BookTokens {
    pub vendor: String,
    pub market_id: i64,
    pub up_token: String,
    pub down_token: String,
}

/// The tokens of both outcomes of the first market of a topic.
pub open spec fn book_tokens_of(detail: BinanceMarketDetail) -> Result<
    (Seq<char>, Seq<char>),
    Seq<char>,
> {
    if detail.markets@.len() == 0 {
        Err("Binance outcome 市场缺失"@)
    } else {
        let outcomes = detail.markets@[0].outcomes@;
        match (outcome_from(outcomes, "up"@, 0), outcome_from(outcomes, "down"@, 0)) {
            (None, _) => Err("Binance Up Token 缺失"@),
            (_, None) => Err("Binance Down Token 缺失"@),
            (Some(up), Some(down)) => Ok((outcomes[up].token_id@, outcomes[down].token_id@)),
        }
    }
}

/// Under what the books of a pair's Binance market are asked for.
pub fn book_tokens(detail: &BinanceMarketDetail) -> (result: Result<BookTokens, String>)
    ensures
        match result {
            Ok(tokens) => {
                &&& book_tokens_of(*detail) == Ok::<(Seq<char>, Seq<char>), Seq<char>>(
                    (tokens.up_token@, tokens.down_token@),
                )
                &&& tokens.vendor@ == ascii_lower(detail.vendor@)
                &&& tokens.market_id == detail.markets@[0].market_id
            },
            Err(error) => book_tokens_of(*detail) == Err::<(Seq<char>, Seq<char>), Seq<char>>(
                error@,
            ),
        },
{
    if detail.markets.len() == 0 {
        return Err("Binance outcome 市场缺失".to_owned());
    }
    let market = &detail.markets[0];
    let up: usize = match find_outcome(&market.outcomes, "up") {
        Some(position) => position,
        None => return Err("Binance Up Token 缺失".to_owned()),
    };
    let down: usize = match find_outcome(&market.outcomes, "down") {
        Some(position) => position,
        None => return Err("Binance Down Token 缺失".to_owned()),
    };
    Ok(
        BookTokens {
            vendor: ascii_lowercase(detail.vendor.as_str()),
            market_id: market.market_id,
            up_token: market.outcomes[up].token_id.clone(),
            down_token: market.outcomes[down].token_id.clone(),
        },
    )
}

/// Under what the two books of a direction are asked for.
#[derive(Clone, Debug)]
pub struct DirectionTokens {
    pub vendor: String,
    pub market_id: i64,
    pub binance_token: String,
    pub polymarket_token: String,
}

/// The outcome that a direction buys on Binance.
pub open spec fn binance_side(direction: Seq<char>) -> Seq<char> {
    if direction == "A"@ {
        "up"@
    } else {
        "down"@
    }
}

/// The tokens of a direction: one outcome on Binance, the other on Polymarket.
pub open spec fn direction_tokens_of(pair: TrackedPair, direction: Seq<char>) -> Result<
    (Seq<char>, Seq<char>),
    Seq<char>,
> {
    if pair.binance.markets@.len() == 0 {
        Err("Binance outcome 市场缺失"@)
    } else {
        let outcomes = pair.binance.markets@[0].outcomes@;
        match outcome_from(outcomes, binance_side(direction), 0) {
            None => Err("Binance "@ + binance_side(direction) + " Token 缺失"@),
            Some(position) => Ok(
                (
                    outcomes[position].token_id@,
                    if direction == "A"@ {
                        pair.polymarket_down_token@
                    } else {
                        pair.polymarket_up_token@
                    },
                ),
            ),
        }
    }
}

/// Under what the two books of a direction are asked for.
pub fn direction_tokens(pair: &TrackedPair, direction: &str) -> (result: Result<
    DirectionTokens,
    String,
>)
    ensures
        match result {
            Ok(tokens) => {
                &&& direction_tokens_of(*pair, direction@) == Ok::<
                    (Seq<char>, Seq<char>),
                    Seq<char>,
                >((tokens.binance_token@, tokens.polymarket_token@))
                &&& tokens.vendor@ == ascii_lower(pair.binance.vendor@)
                &&& tokens.market_id == pair.binance.markets@[0].market_id
            },
            Err(error) => direction_tokens_of(*pair, direction@) == Err::<
                (Seq<char>, Seq<char>),
                Seq<char>,
            >(error@),
        },
{
    if pair.binance.markets.len() == 0 {
        return Err("Binance outcome 市场缺失".to_owned());
    }
    let market = &pair.binance.markets[0];
    let is_a = same(direction, "A");
    let side = if is_a {
        "up"
    } else {
        "down"
    };
    let position: usize = match find_outcome(&market.outcomes, side) {
        Some(position) => position,
        None => return Err("Binance ".to_owned().concat(side).concat(" Token 缺失")),
    };
    Ok(
        DirectionTokens {
            vendor: ascii_lowercase(pair.binance.vendor.as_str()),
            market_id: market.market_id,
            binance_token: market.outcomes[position].token_id.clone(),
            polymarket_token: if is_a {
                pair.polymarket_down_token.clone()
            } else {
                pair.polymarket_up_token.clone()
            },
        },
    )
}

/// The ladders of two books, or why they cannot be used.
pub type LevelsOutcome = Result<(Seq<LevelView>, Seq<LevelView>), Seq<char>>;

/// The books of a direction can be used: their times can be read, lie close together and are
/// recent, and both can be read.
pub open spec fn direction_outcome(
    first: BinanceOrderBook,
    second: PolymarketOrderBook,
    observed_at_ms: int,
) -> LevelsOutcome {
    match (
        skew_of(first.timestamp as int, second.timestamp@),
        age_of(observed_at_ms, first.timestamp as int, second.timestamp@),
    ) {
        (Some(skew), Some(age)) => if skew > PAPER_MAX_QUOTE_SKEW_MS {
            Err("双边盘口时间差 "@ + int_text(skew) + "ms 超过 1000ms"@)
        } else if age > PAPER_MAX_QUOTE_AGE_MS {
            Err("盘口年龄 "@ + int_text(age) + "ms 超过 5000ms"@)
        } else {
            match level_ladder(first.asks@) {
                Err(fault) => Err(fault.words()),
                Ok(first_ladder) => match second.ask_ladder() {
                    Err(fault) => Err(fault.words()),
                    Ok(second_ladder) => Ok((first_ladder, second_ladder)),
                },
            }
        },
        _ => Err("无法解析双边盘口时间戳"@),
    }
}

pub open spec fn levels_view(value: Result<(Vec<PriceLevel>, Vec<PriceLevel>), String>) -> LevelsOutcome {
    match value {
        Ok((first, second)) => Ok((ladder_view(first@), ladder_view(second@))),
        Err(error) => Err(error@),
    }
}

/// The asks of both books of a direction, or why they cannot be used.
pub fn direction_levels(
    first: &BinanceOrderBook,
    second: &PolymarketOrderBook,
    observed_at_ms: i64,
) -> (result: Result<(Vec<PriceLevel>, Vec<PriceLevel>), String>)
    ensures
        levels_view(result) == direction_outcome(*first, *second, observed_at_ms as int),
{
    let skew: i64 = match quote_skew_ms(first.timestamp, second.timestamp.as_str()) {
        Some(skew) => skew,
        None => return Err("无法解析双边盘口时间戳".to_owned()),
    };
    let age: i64 = match quote_age_ms(observed_at_ms, first.timestamp, second.timestamp.as_str()) {
        Some(age) => age,
        None => return Err("无法解析双边盘口年龄".to_owned()),
    };
    if skew > PAPER_MAX_QUOTE_SKEW_MS {
        return Err(
            "双边盘口时间差 ".to_owned().concat(integer_text(skew).as_str()).concat(
                "ms 超过 1000ms",
            ),
        );
    }
    if age > PAPER_MAX_QUOTE_AGE_MS {
        return Err(
            "盘口年龄 ".to_owned().concat(integer_text(age).as_str()).concat("ms 超过 5000ms"),
        );
    }
    let first_levels = match first.ask_levels() {
        Ok(levels) => levels,
        Err(error) => return Err(error.message()),
    };
    let second_levels = match second.ask_levels() {
        Ok(levels) => levels,
        Err(error) => return Err(error.message()),
    };
    Ok((price_levels(first_levels.as_slice()), price_levels(second_levels.as_slice())))
}

/// Both books of a Polymarket market can be used.
pub open spec fn polymarket_outcome(
    up: PolymarketOrderBook,
    down: PolymarketOrderBook,
    observed_at_ms: int,
) -> LevelsOutcome {
    match (parsed_integer(up.timestamp@), parsed_integer(down.timestamp@)) {
        (None, _) => Err("无法解析 Polymarket Up 盘口时间戳"@),
        (_, None) => Err("无法解析 Polymarket Down 盘口时间戳"@),
        (Some(up_ms), Some(down_ms)) => {
            let skew = capped_gap(up_ms, down_ms);
            let age = larger_of(
                capped_gap(observed_at_ms, up_ms),
                capped_gap(observed_at_ms, down_ms),
            );
            if skew > PAPER_MAX_QUOTE_SKEW_MS {
                Err("Polymarket 两盘口时间差 "@ + int_text(skew) + "ms 超过 1000ms"@)
            } else if age > PAPER_MAX_QUOTE_AGE_MS {
                Err("Polymarket 盘口年龄 "@ + int_text(age) + "ms 超过 5000ms"@)
            } else {
                match up.ask_ladder() {
                    Err(fault) => Err(fault.words()),
                    Ok(up_ladder) => match down.ask_ladder() {
                        Err(fault) => Err(fault.words()),
                        Ok(down_ladder) => Ok((up_ladder, down_ladder)),
                    },
                }
            }
        },
    }
}

/// The asks of both books of a Polymarket market, or why they cannot be used.
pub fn polymarket_internal_levels(
    up: &PolymarketOrderBook,
    down: &PolymarketOrderBook,
    observed_at_ms: i64,
) -> (result: Result<(Vec<PriceLevel>, Vec<PriceLevel>), String>)
    ensures
        levels_view(result) == polymarket_outcome(*up, *down, observed_at_ms as int),
{
    let up_timestamp: i64 = match parse_integer(up.timestamp.as_str()) {
        Some(timestamp) => timestamp,
        None => return Err("无法解析 Polymarket Up 盘口时间戳".to_owned()),
    };
    let down_timestamp: i64 = match parse_integer(down.timestamp.as_str()) {
        Some(timestamp) => timestamp,
        None => return Err("无法解析 Polymarket Down 盘口时间戳".to_owned()),
    };
    let skew: i64 = gap_capped(up_timestamp, down_timestamp);
    let age: i64 = age_capped(observed_at_ms, up_timestamp, down_timestamp);
    if skew > PAPER_MAX_QUOTE_SKEW_MS {
        return Err(
            "Polymarket 两盘口时间差 ".to_owned().concat(integer_text(skew).as_str()).concat(
                "ms 超过 1000ms",
            ),
        );
    }
    if age > PAPER_MAX_QUOTE_AGE_MS {
        return Err(
            "Polymarket 盘口年龄 ".to_owned().concat(integer_text(age).as_str()).concat(
                "ms 超过 5000ms",
            ),
        );
    }
    let up_levels = match up.ask_levels() {
        Ok(levels) => levels,
        Err(error) => return Err(error.message()),
    };
    let down_levels = match down.ask_levels() {
        Ok(levels) => levels,
        Err(error) => return Err(error.message()),
    };
    Ok((price_levels(up_levels.as_slice()), price_levels(down_levels.as_slice())))
}

/// Books that are used are never more than the allowed time apart, nor older than allowed.
pub proof fn used_books_are_fresh(
    first: BinanceOrderBook,
    second: PolymarketOrderBook,
    observed_at_ms: int,
)
    requires
        direction_outcome(first, second, observed_at_ms) is Ok,
    ensures
        parsed_integer(second.timestamp@) matches Some(second_ms) && {
            &&& capped_gap(first.timestamp as int, second_ms) <= PAPER_MAX_QUOTE_SKEW_MS
            &&& capped_gap(observed_at_ms, first.timestamp as int) <= PAPER_MAX_QUOTE_AGE_MS
            &&& capped_gap(observed_at_ms, second_ms) <= PAPER_MAX_QUOTE_AGE_MS
        },
{
}

/// The best price of a ladder in decimal notation.
pub open spec fn best_price(ladder: Seq<LevelView>) -> Option<Seq<char>> {
    if ladder.len() == 0 {
        None
    } else {
        Some(decimal_text(ladder[0].price))
    }
}

/// The price of a level in decimal notation.
pub fn price(level: Option<(Decimal, Decimal)>) -> (result: Option<String>)
    ensures
        text_of(result) == (match level {
            Some(pair) => Some(decimal_text(pair.0@)),
            None => None,
        }),
{
    match level {
        Some((price, _)) => Some(price.text()),
        None => None,
    }
}

fn best_price_text(levels: &Vec<(Decimal, Decimal)>) -> (result: Option<String>)
    ensures
        text_of(result) == best_price(ladder_of(levels@)),
{
    if levels.len() == 0 {
        price(None)
    } else {
        proof {
            assert(ladder_of(levels@)[0] == level_of(levels@[0]));
        }
        price(Some(levels[0]))
    }
}

/// The four ladders of a pair.
pub struct Ladders {
    pub binance_up: Seq<LevelView>,
    pub binance_down: Seq<LevelView>,
    pub polymarket_up: Seq<LevelView>,
    pub polymarket_down: Seq<LevelView>,
}

/// What the four books of a pair offer.
pub struct ScanFigures {
    pub ladders: Ladders,
    pub direction_a: Option<PurchaseFigures>,
    pub direction_b: Option<PurchaseFigures>,
    pub binance_internal: Option<PurchaseFigures>,
    pub polymarket_internal: Option<PurchaseFigures>,
}

/// The four ladders of a pair, or the first field that cannot be read.
pub open spec fn ladders_of(
    binance_up: BinanceOrderBook,
    binance_down: BinanceOrderBook,
    polymarket_up: PolymarketOrderBook,
    polymarket_down: PolymarketOrderBook,
) -> Result<Ladders, Seq<char>> {
    match level_ladder(binance_up.asks@) {
        Err(fault) => Err(fault.words()),
        Ok(a) => match level_ladder(binance_down.asks@) {
            Err(fault) => Err(fault.words()),
            Ok(b) => match polymarket_up.ask_ladder() {
                Err(fault) => Err(fault.words()),
                Ok(c) => match polymarket_down.ask_ladder() {
                    Err(fault) => Err(fault.words()),
                    Ok(d) => Ok(
                        Ladders {
                            binance_up: a,
                            binance_down: b,
                            polymarket_up: c,
                            polymarket_down: d,
                        },
                    ),
                },
            },
        },
    }
}

/// What the four ladders of a pair offer. The directions across the venues are looked at only
/// while the market runs and where the pair is worth observing; the pair on Polymarket only
/// where the times of its books can be read. `None` on overflow.
pub open spec fn offered(
    pair: TrackedPair,
    ladders: Ladders,
    polymarket_times_known: bool,
    observed_at_ms: int,
) -> Option<ScanFigures> {
    let remaining = saturated_difference(pair.view.end_ms as int, observed_at_ms);
    match quotient(whole(pair.binance.fee_rate_bps as int), whole(10_000)) {
        None => None,
        Some(rate) => {
            let binance_internal = internal(
                ladders.binance_up,
                ladders.binance_down,
                rate,
                remaining,
                true,
            );
            let polymarket_internal = if polymarket_times_known {
                internal(
                    ladders.polymarket_up,
                    ladders.polymarket_down,
                    pair.polymarket_fee_rate@,
                    remaining,
                    false,
                )
            } else {
                Some(None)
            };
            let compared = observed_at_ms < pair.view.end_ms && research_eligible(
                pair.view.classification@,
            );
            let direction_a = if compared {
                cross(
                    ladders.binance_up,
                    ladders.polymarket_down,
                    rate,
                    pair.polymarket_fee_rate@,
                    remaining,
                )
            } else {
                Some(None)
            };
            let direction_b = if compared {
                cross(
                    ladders.binance_down,
                    ladders.polymarket_up,
                    rate,
                    pair.polymarket_fee_rate@,
                    remaining,
                )
            } else {
                Some(None)
            };
            match (binance_internal, polymarket_internal, direction_a, direction_b) {
                (
                    Some(binance_internal),
                    Some(polymarket_internal),
                    Some(direction_a),
                    Some(direction_b),
                ) => Some(
                    ScanFigures {
                        ladders,
                        direction_a,
                        direction_b,
                        binance_internal,
                        polymarket_internal,
                    },
                ),
                _ => None,
            }
        },
    }
}

/// What the four books of a pair come to; the outer `None` is an overflow.
pub open spec fn scanned(
    pair: TrackedPair,
    binance_up: BinanceOrderBook,
    binance_down: BinanceOrderBook,
    polymarket_up: PolymarketOrderBook,
    polymarket_down: PolymarketOrderBook,
    observed_at_ms: int,
) -> Option<Result<ScanFigures, Seq<char>>> {
    match ladders_of(binance_up, binance_down, polymarket_up, polymarket_down) {
        Err(words) => Some(Err(words)),
        Ok(ladders) => match offered(
            pair,
            ladders,
            parsed_integer(polymarket_up.timestamp@) is Some && parsed_integer(
                polymarket_down.timestamp@,
            ) is Some,
            observed_at_ms,
        ) {
            None => None,
            Some(figures) => Some(Ok(figures)),
        },
    }
}

/// The columns of a direction show its figures, or nothing.
pub open spec fn shows_direction(
    cost: Option<String>,
    fees: Option<String>,
    net_edge: Option<String>,
    risk_buffers: Option<String>,
    size: Option<String>,
    plan: Option<ShadowPlan>,
    figures: Option<PurchaseFigures>,
) -> bool {
    match figures {
        Some(figures) => {
            &&& text_of(cost) == Some(decimal_text(figures.cost))
            &&& text_of(fees) == Some(decimal_text(figures.fees))
            &&& text_of(net_edge) == Some(decimal_text(figures.net_edge))
            &&& text_of(risk_buffers) == Some(decimal_text(figures.risk_buffers))
            &&& text_of(size) == Some(decimal_text(figures.size))
            &&& plan matches Some(plan) && plans(plan, figures)
        },
        None => cost is None && fees is None && net_edge is None && risk_buffers is None && size
            is None && plan is None,
    }
}

/// The view of a purchase on one venue shows its figures, or there is none.
pub open spec fn shows_same_market(
    view: Option<BinanceInternalView>,
    figures: Option<PurchaseFigures>,
    up: Seq<LevelView>,
    down: Seq<LevelView>,
    skew: int,
    age: int,
    remaining: i64,
    on_binance: bool,
) -> bool {
    match figures {
        Some(figures) => view matches Some(view) && {
            &&& shows_internal(
                view,
                figures,
                internal_rejections(
                    up,
                    down,
                    figures.net_edge,
                    view.quote_skew_ms,
                    view.quote_age_ms,
                    remaining,
                    on_binance,
                ),
            )
            &&& view.quote_skew_ms == skew
            &&& view.quote_age_ms == age
        },
        None => view is None,
    }
}

/// An observation shows what a scan found.
pub open spec fn shows_scan(
    scan: ScanPairResult,
    figures: ScanFigures,
    pair: TrackedPair,
    binance_up: BinanceOrderBook,
    binance_down: BinanceOrderBook,
    polymarket_up: PolymarketOrderBook,
    polymarket_down: PolymarketOrderBook,
    observed_at_ms: i64,
    scan_latency_ms: i64,
) -> bool {
    let seen = scan.observation;
    let remaining = saturated_difference(pair.view.end_ms as int, observed_at_ms as int);
    let up_ms = parsed_integer(polymarket_up.timestamp@);
    let down_ms = parsed_integer(polymarket_down.timestamp@);
    &&& seen.slug@ == pair.view.slug@
    &&& seen.observed_at_ms == observed_at_ms
    &&& text_of(seen.binance_up_ask) == best_price(figures.ladders.binance_up)
    &&& text_of(seen.binance_down_ask) == best_price(figures.ladders.binance_down)
    &&& text_of(seen.polymarket_up_ask) == best_price(figures.ladders.polymarket_up)
    &&& text_of(seen.polymarket_down_ask) == best_price(figures.ladders.polymarket_down)
    &&& shows_direction(
        seen.direction_a_cost,
        seen.direction_a_fees,
        seen.direction_a_net_edge,
        seen.direction_a_risk_buffers,
        seen.direction_a_size,
        scan.direction_a_plan,
        figures.direction_a,
    )
    &&& shows_direction(
        seen.direction_b_cost,
        seen.direction_b_fees,
        seen.direction_b_net_edge,
        seen.direction_b_risk_buffers,
        seen.direction_b_size,
        scan.direction_b_plan,
        figures.direction_b,
    )
    &&& seen.direction_a_rejections@.len() == 0
    &&& seen.direction_b_rejections@.len() == 0
    &&& seen.scan_latency_ms == Some(scan_latency_ms)
    &&& integer_of(seen.direction_a_quote_skew_ms) == skew_of(
        binance_up.timestamp as int,
        polymarket_down.timestamp@,
    )
    &&& integer_of(seen.direction_b_quote_skew_ms) == skew_of(
        binance_down.timestamp as int,
        polymarket_up.timestamp@,
    )
    &&& integer_of(seen.direction_a_quote_age_ms) == age_of(
        observed_at_ms as int,
        binance_up.timestamp as int,
        polymarket_down.timestamp@,
    )
    &&& integer_of(seen.direction_b_quote_age_ms) == age_of(
        observed_at_ms as int,
        binance_down.timestamp as int,
        polymarket_up.timestamp@,
    )
    &&& integer_of(seen.remaining_time_ms) == Some(remaining)
    &&& seen.binance_reference_price is None
    &&& seen.binance_reference_at_ms is None
    &&& seen.polymarket_reference_price is None
    &&& seen.polymarket_reference_at_ms is None
    &&& shows_same_market(
        seen.binance_internal,
        figures.binance_internal,
        figures.ladders.binance_up,
        figures.ladders.binance_down,
        capped_gap(binance_up.timestamp as int, binance_down.timestamp as int),
        larger_of(
            capped_gap(observed_at_ms as int, binance_up.timestamp as int),
            capped_gap(observed_at_ms as int, binance_down.timestamp as int),
        ),
        remaining as i64,
        true,
    )
    &&& shows_same_market(
        seen.polymarket_internal,
        figures.polymarket_internal,
        figures.ladders.polymarket_up,
        figures.ladders.polymarket_down,
        capped_gap(up_ms->0, down_ms->0),
        larger_of(
            capped_gap(observed_at_ms as int, up_ms->0),
            capped_gap(observed_at_ms as int, down_ms->0),
        ),
        remaining as i64,
        false,
    )
    &&& match figures.polymarket_internal {
        Some(purchase) => scan.polymarket_internal_plan matches Some(plan) && plans(plan, purchase),
        None => scan.polymarket_internal_plan is None,
    }
}

/// The columns of a direction.
struct DirectionColumns {
    cost: Option<String>,
    fees: Option<String>,
    net_edge: Option<String>,
    risk_buffers: Option<String>,
    size: Option<String>,
    plan: Option<ShadowPlan>,
}

fn direction_columns(
    calculation: Option<CrossCalculation>,
    Ghost(figures): Ghost<Option<PurchaseFigures>>,
) -> (result: DirectionColumns)
    requires
        match figures {
            Some(figures) => calculation matches Some(found) && crate::cross::shows_purchase(
                found,
                figures,
            ),
            None => calculation is None,
        },
    ensures
        shows_direction(
            result.cost,
            result.fees,
            result.net_edge,
            result.risk_buffers,
            result.size,
            result.plan,
            figures,
        ),
{
    match calculation {
        Some(found) => DirectionColumns {
            cost: Some(found.cost.text()),
            fees: Some(found.fees.text()),
            net_edge: Some(found.net_edge.text()),
            risk_buffers: Some(found.risk_buffers.text()),
            size: Some(found.size.text()),
            plan: Some(found.plan),
        },
        None => DirectionColumns {
            cost: None,
            fees: None,
            net_edge: None,
            risk_buffers: None,
            size: None,
            plan: None,
        },
    }
}

/// What the four books of a pair come to; the outer `None` is an overflow.
#[verifier::rlimit(40)]
pub fn scan_pair(
    pair: &TrackedPair,
    binance_up: &BinanceOrderBook,
    binance_down: &BinanceOrderBook,
    polymarket_up: &PolymarketOrderBook,
    polymarket_down: &PolymarketOrderBook,
    observed_at_ms: i64,
    scan_latency_ms: i64,
) -> (result: Option<Result<ScanPairResult, String>>)
    ensures
        match scanned(
            *pair,
            *binance_up,
            *binance_down,
            *polymarket_up,
            *polymarket_down,
            observed_at_ms as int,
        ) {
            None => result is None,
            Some(Err(words)) => result matches Some(Err(error)) && error@ == words,
            Some(Ok(figures)) => result matches Some(Ok(scan)) && shows_scan(
                scan,
                figures,
                *pair,
                *binance_up,
                *binance_down,
                *polymarket_up,
                *polymarket_down,
                observed_at_ms,
                scan_latency_ms,
            ),
        },
{
    let binance_up_levels = match binance_up.ask_levels() {
        Ok(levels) => levels,
        Err(error) => return Some(Err(error.message())),
    };
    let binance_down_levels = match binance_down.ask_levels() {
        Ok(levels) => levels,
        Err(error) => return Some(Err(error.message())),
    };
    let polymarket_up_levels = match polymarket_up.ask_levels() {
        Ok(levels) => levels,
        Err(error) => return Some(Err(error.message())),
    };
    let polymarket_down_levels = match polymarket_down.ask_levels() {
        Ok(levels) => levels,
        Err(error) => return Some(Err(error.message())),
    };
    let remaining: i64 = minus_saturating(pair.view.end_ms, observed_at_ms);
    let fee_rate = Decimal::from_i64(pair.binance.fee_rate_bps).checked_div(
        Decimal::from_i64(10_000),
    )?;
    let binance_internal = checked_calculate_binance_internal(
        binance_up_levels.as_slice(),
        binance_down_levels.as_slice(),
        fee_rate,
        remaining,
        gap_capped(binance_up.timestamp, binance_down.timestamp),
        age_capped(observed_at_ms, binance_up.timestamp, binance_down.timestamp),
    )?;
    let up_ms: Option<i64> = parse_integer(polymarket_up.timestamp.as_str());
    let down_ms: Option<i64> = parse_integer(polymarket_down.timestamp.as_str());
    let polymarket_calculation = match (up_ms, down_ms) {
        (Some(up), Some(down)) => checked_calculate_polymarket_internal(
            polymarket_up_levels.as_slice(),
            polymarket_down_levels.as_slice(),
            pair.polymarket_fee_rate,
            remaining,
            gap_capped(up, down),
            age_capped(observed_at_ms, up, down),
        )?,
        _ => None,
    };
    let (polymarket_internal, polymarket_internal_plan) = match polymarket_calculation {
        Some(calculation) => (Some(calculation.view), Some(calculation.plan)),
        None => (None, None),
    };
    let compared = observed_at_ms < pair.view.end_ms && is_research_eligible(
        pair.view.classification.as_str(),
    );
    let (calculation_a, calculation_b) = if compared {
        (
            checked_calculate_cross(
                binance_up_levels.as_slice(),
                polymarket_down_levels.as_slice(),
                fee_rate,
                pair.polymarket_fee_rate,
                remaining,
            )?,
            checked_calculate_cross(
                binance_down_levels.as_slice(),
                polymarket_up_levels.as_slice(),
                fee_rate,
                pair.polymarket_fee_rate,
                remaining,
            )?,
        )
    } else {
        (None, None)
    };
    let ghost figures = scanned(
        *pair,
        *binance_up,
        *binance_down,
        *polymarket_up,
        *polymarket_down,
        observed_at_ms as int,
    )->0->Ok_0;
    let ghost figures_a = figures.direction_a;
    let ghost figures_b = figures.direction_b;
    let a = direction_columns(calculation_a, Ghost(figures_a));
    let b = direction_columns(calculation_b, Ghost(figures_b));
    let observation = ObservationView {
        slug: pair.view.slug.clone(),
        observed_at_ms,
        binance_up_ask: best_price_text(&binance_up_levels),
        binance_down_ask: best_price_text(&binance_down_levels),
        polymarket_up_ask: best_price_text(&polymarket_up_levels),
        polymarket_down_ask: best_price_text(&polymarket_down_levels),
        direction_a_cost: a.cost,
        direction_a_fees: a.fees,
        direction_a_net_edge: a.net_edge,
        direction_a_risk_buffers: a.risk_buffers,
        direction_a_size: a.size,
        direction_b_cost: b.cost,
        direction_b_fees: b.fees,
        direction_b_net_edge: b.net_edge,
        direction_b_risk_buffers: b.risk_buffers,
        direction_b_size: b.size,
        direction_a_rejections: Vec::new(),
        direction_b_rejections: Vec::new(),
        scan_latency_ms: Some(scan_latency_ms),
        direction_a_quote_skew_ms: quote_skew_ms(
            binance_up.timestamp,
            polymarket_down.timestamp.as_str(),
        ),
        direction_b_quote_skew_ms: quote_skew_ms(
            binance_down.timestamp,
            polymarket_up.timestamp.as_str(),
        ),
        direction_a_quote_age_ms: quote_age_ms(
            observed_at_ms,
            binance_up.timestamp,
            polymarket_down.timestamp.as_str(),
        ),
        direction_b_quote_age_ms: quote_age_ms(
            observed_at_ms,
            binance_down.timestamp,
            polymarket_up.timestamp.as_str(),
        ),
        remaining_time_ms: Some(remaining),
        binance_reference_price: None,
        binance_reference_at_ms: None,
        polymarket_reference_price: None,
        polymarket_reference_at_ms: None,
        binance_internal,
        polymarket_internal,
    };
    Some(
        Ok(
            ScanPairResult {
                observation,
                direction_a_plan: a.plan,
                direction_b_plan: b.plan,
                polymarket_internal_plan,
            },
        ),
    )
}

} // verus!
