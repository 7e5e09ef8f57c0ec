//! The rules by which observations are traded or turned down, each with its own reason.
use vstd::prelude::*;

use crate::basis::basis_rejections;
use crate::cross::{internal_rejections, opens_tradable, ShadowPlan};
use crate::decimal::{
    decimal_text, parsed_decimal, positive_units, pow10, product_miss, whole, whole_units,
    DecimalView,
};
use crate::delivery::delivery_rejections;
use crate::figures::{close, fine, tradable_prices_lie_between};
use crate::ladder::LevelView;
use crate::pairs::{settlement_aligned, TrackedView};
use crate::paper::{
    confirmed, direction_decided, edge_notes, internal_followed_up, leg_tradable, rejection_reasons,
    sampled, seen_in, shows_opportunity, shows_trade, trade_of, ActiveSignal, DirectionActions,
    PaperState, PaperTradeView, TradeFigures,
};
use crate::quotes::number_of;
use crate::scan::ObservationView;
use crate::text::{lists_hold_together, note_if, note_is_held, text_of};

verus! {

/// The number of conditions among several that hold.
pub open spec fn held(condition: bool) -> int {
    if condition {
        1
    } else {
        0
    }
}

/// A price that can be read and lies from five to ninety-five hundredths.
pub open spec fn leg_is_tradable(price: Option<Seq<char>>) -> bool {
    number_of(price) matches Some(price) && 5 * whole(1).units() <= 100 * price.units() <= 95
        * whole(1).units()
}

/// A time that is known and lies at most ten seconds from the observation.
pub open spec fn within_ten_seconds(observed_at_ms: int, at_ms: Option<i64>) -> bool {
    at_ms matches Some(at) && observed_at_ms - at <= 10_000 && at - observed_at_ms <= 10_000
}

/// An edge that can be read and is at least two hundredths.
pub open spec fn edge_suffices(net_edge: Option<Seq<char>>) -> bool {
    number_of(net_edge) matches Some(edge) && 100 * edge.units() >= 2 * whole(1).units()
}

/// A size that can be read and is positive.
pub open spec fn size_suffices(size: Option<Seq<char>>) -> bool {
    number_of(size) matches Some(size) && size.units() > 0
}

/// A time that is known and at most `most`.
pub open spec fn at_most(time: Option<i64>, most: int) -> bool {
    time matches Some(time) && time <= most
}

/// A time that is known and at least `least`.
pub open spec fn at_least(time: Option<i64>, least: int) -> bool {
    time matches Some(time) && time >= least
}

proof fn lemma_two_hundredths(edge: DecimalView)
    ensures
        crate::paper::minimum_edge().le(edge) <==> 100 * edge.units() >= 2 * whole(1).units(),
{
    assert(pow10(26) == 100_000_000_000_000_000_000_000_000) by {
        reveal_with_fuel(pow10, 27);
    }
    whole_units(1);
}

proof fn lemma_leg(price: Option<Seq<char>>)
    ensures
        leg_tradable(price) <==> leg_is_tradable(price),
{
    if let Some(number) = number_of(price) {
        tradable_prices_lie_between(number);
    }
}

/// Direction A is traded exactly where the pair settles alike, its edge is at least two percent
/// and its size positive, its quotes are at most a second apart and five seconds old, a minute
/// is left, both reference prices are at most ten seconds old, and both legs, Up on Binance and
/// Down on Polymarket, are priced from 0.05 to 0.95. There is one reason against it for each of
/// these that fails.
pub proof fn direction_a_is_traded_by_the_rules(pair: TrackedView, observation: ObservationView)
    ensures
        ({
            let seen = observation;
            let reasons = rejection_reasons(pair, observation, "A"@);
            let references = within_ten_seconds(
                seen.observed_at_ms as int,
                seen.binance_reference_at_ms,
            ) && within_ten_seconds(seen.observed_at_ms as int, seen.polymarket_reference_at_ms);
            let legs = leg_is_tradable(text_of(seen.binance_up_ask)) && leg_is_tradable(
                text_of(seen.polymarket_down_ask),
            );
            reasons.len() == held(!settlement_aligned(pair)) + held(
                !edge_suffices(text_of(seen.direction_a_net_edge)),
            ) + held(!size_suffices(text_of(seen.direction_a_size))) + held(
                !at_most(seen.direction_a_quote_skew_ms, 1_000),
            ) + held(!at_most(seen.direction_a_quote_age_ms, 5_000)) + held(
                !at_least(seen.remaining_time_ms, 60_000),
            ) + held(!references) + held(!legs)
        }),
{
    lemma_reasons(pair, observation, "A"@);
}

/// Any other direction is traded by the same rules on the figures of direction B, whose legs are
/// Down on Binance and Up on Polymarket.
pub proof fn direction_b_is_traded_by_the_rules(
    pair: TrackedView,
    observation: ObservationView,
    direction: Seq<char>,
)
    requires
        direction != "A"@,
    ensures
        ({
            let seen = observation;
            let reasons = rejection_reasons(pair, observation, direction);
            let references = within_ten_seconds(
                seen.observed_at_ms as int,
                seen.binance_reference_at_ms,
            ) && within_ten_seconds(seen.observed_at_ms as int, seen.polymarket_reference_at_ms);
            let legs = leg_is_tradable(text_of(seen.binance_down_ask)) && leg_is_tradable(
                text_of(seen.polymarket_up_ask),
            );
            reasons.len() == held(!settlement_aligned(pair)) + held(
                !edge_suffices(text_of(seen.direction_b_net_edge)),
            ) + held(!size_suffices(text_of(seen.direction_b_size))) + held(
                !at_most(seen.direction_b_quote_skew_ms, 1_000),
            ) + held(!at_most(seen.direction_b_quote_age_ms, 5_000)) + held(
                !at_least(seen.remaining_time_ms, 60_000),
            ) + held(!references) + held(!legs)
        }),
{
    lemma_reasons(pair, observation, direction);
}

proof fn lemma_reasons(pair: TrackedView, observation: ObservationView, direction: Seq<char>)
    ensures
        ({
            let seen = seen_in(observation, direction);
            let references = within_ten_seconds(
                observation.observed_at_ms as int,
                observation.binance_reference_at_ms,
            ) && within_ten_seconds(
                observation.observed_at_ms as int,
                observation.polymarket_reference_at_ms,
            );
            let legs = leg_is_tradable(seen.first_leg) && leg_is_tradable(seen.second_leg);
            rejection_reasons(pair, observation, direction).len() == held(
                !settlement_aligned(pair),
            ) + held(!edge_suffices(seen.net_edge)) + held(!size_suffices(seen.size)) + held(
                !at_most(seen.quote_skew_ms, 1_000),
            ) + held(!at_most(seen.quote_age_ms, 5_000)) + held(
                !at_least(observation.remaining_time_ms, 60_000),
            ) + held(!references) + held(!legs)
        }),
{
    let seen = seen_in(observation, direction);
    if let Some(edge) = number_of(seen.net_edge) {
        lemma_two_hundredths(edge);
    }
    if let Some(size) = number_of(seen.size) {
        positive_units(size);
    }
    lemma_leg(seen.first_leg);
    lemma_leg(seen.second_leg);
}

/// A trade is for the size of its direction, and its totals are the figures of one share times
/// that size.
pub proof fn trades_are_their_shares_times_the_size(
    pair: TrackedView,
    observation: ObservationView,
    direction: Seq<char>,
    figures: TradeFigures,
    trade: PaperTradeView,
)
    requires
        trade_of(pair, observation, direction) == Some(Some(figures)),
        shows_trade(trade, figures, pair, observation, direction),
    ensures
        rejection_reasons(pair, observation, direction).len() == 0,
        trade.slug@ == pair.slug,
        trade.direction@ == direction,
        trade.detected_at_ms == observation.observed_at_ms,
        trade.status@ == "open"@,
        trade.actual_payout is None && trade.realized_profit is None && trade.settled_at_ms
            is None,
        ({
            let seen = observation;
            let is_a = direction == "A"@;
            let size = number_of(
                text_of(
                    if is_a {
                        seen.direction_a_size
                    } else {
                        seen.direction_b_size
                    },
                ),
            );
            let cost = number_of(
                text_of(
                    if is_a {
                        seen.direction_a_cost
                    } else {
                        seen.direction_b_cost
                    },
                ),
            );
            let fees = number_of(
                text_of(
                    if is_a {
                        seen.direction_a_fees
                    } else {
                        seen.direction_b_fees
                    },
                ),
            );
            let buffers = number_of(
                text_of(
                    if is_a {
                        seen.direction_a_risk_buffers
                    } else {
                        seen.direction_b_risk_buffers
                    },
                ),
            );
            let edge = number_of(
                text_of(
                    if is_a {
                        seen.direction_a_net_edge
                    } else {
                        seen.direction_b_net_edge
                    },
                ),
            );
            &&& size is Some && cost is Some && fees is Some && buffers is Some && edge is Some
            &&& trade.quantity@ == decimal_text(size->0)
            &&& trade.total_cost@ == decimal_text(figures.total_cost)
            &&& trade.total_fees@ == decimal_text(figures.total_fees)
            &&& trade.total_risk_buffers@ == decimal_text(figures.total_risk_buffers)
            &&& trade.expected_profit@ == decimal_text(figures.expected_profit)
            &&& is_share_times(figures.total_cost, cost->0, size->0)
            &&& is_share_times(figures.total_fees, fees->0, size->0)
            &&& is_share_times(figures.total_risk_buffers, buffers->0, size->0)
            &&& is_share_times(figures.expected_profit, edge->0, size->0)
        }),
{
}

/// A total is the figure of one share times a size, up to rounding.
pub open spec fn is_share_times(total: DecimalView, share: DecimalView, size: DecimalView) -> bool {
    close(fine(total), share.units() * size.units(), product_miss(share, size))
}

/// A signal goes on where the next sample comes within fifteen seconds: it keeps its beginning
/// and counts one sample more. Else it begins anew. It is confirmed by the second sample or a
/// later one, from five seconds after its beginning on.
pub proof fn signals_go_on_for_fifteen_seconds(before: Option<ActiveSignal>, observed_at_ms: i64)
    ensures
        ({
            let after = sampled(before, observed_at_ms);
            let goes_on = before matches Some(signal) && observed_at_ms - signal.last_seen_ms
                <= 15_000;
            &&& after.last_seen_ms == observed_at_ms
            &&& goes_on ==> after.since_ms == before->0.since_ms && (before->0.samples < u32::MAX
                ==> after.samples == before->0.samples + 1) && (before->0.samples == u32::MAX
                ==> after.samples == u32::MAX)
            &&& !goes_on ==> after.since_ms == observed_at_ms && after.samples == 1
            &&& confirmed(after) <==> after.samples > 1 && observed_at_ms - after.since_ms >= 5_000
        }),
{
}

/// Deciding about one direction touches the signal of that direction only. A trade is stored
/// exactly where its signal is confirmed and none was stored before, and orders are followed up
/// exactly where a signal on a one-hour market begins; without a trade neither happens, and the
/// signal ends.
pub proof fn decisions_follow_the_signal(
    before: PaperState,
    after: PaperState,
    actions: DirectionActions,
    pair: TrackedView,
    observation: ObservationView,
    direction: Seq<char>,
    plan: Option<ShadowPlan>,
    trade: Option<TradeFigures>,
    other: (Seq<char>, Seq<char>),
)
    requires
        direction_decided(before, after, actions, pair, observation, direction, plan, trade),
    ensures
        ({
            let key = (pair.slug, direction);
            &&& other != key ==> (before.signals@.contains_key(other)
                <==> after.signals@.contains_key(other))
            &&& other != key && before.signals@.contains_key(other) ==> after.signals@[other]
                == before.signals@[other]
            &&& after.signals@.contains_key(key) <==> trade is Some
            &&& after.executed@ == before.executed@
            &&& actions.store is Some <==> {
                &&& trade is Some
                &&& after.signals@[key].samples > 1
                &&& after.signals@[key].last_seen_ms - after.signals@[key].since_ms >= 5_000
                &&& !before.executed@.contains_key(key)
            }
            &&& actions.follow_up is Some <==> {
                &&& trade is Some
                &&& plan is Some
                &&& pair.duration == "1h"@
                &&& !before.signals@.contains_key(key)
            }
            &&& actions.follow_up is Some ==> actions.follow_up == plan
            &&& trade is Some ==> after.signals@[key].last_seen_ms == observation.observed_at_ms
        }),
{
}

/// An observation shows an opportunity exactly where its pair is about one event and one of the
/// directions has an edge above nothing.
pub proof fn opportunities_leave_an_edge(pair: TrackedView, observation: ObservationView)
    ensures
        shows_opportunity(pair, observation) <==> (pair.classification == "exact"@
            || pair.classification == "basis"@) && (size_suffices(
            text_of(observation.direction_a_net_edge),
        ) || size_suffices(text_of(observation.direction_b_net_edge))),
{
    if let Some(edge) = number_of(text_of(observation.direction_a_net_edge)) {
        positive_units(edge);
    }
    if let Some(edge) = number_of(text_of(observation.direction_b_net_edge)) {
        positive_units(edge);
    }
}

/// A purchase on Polymarket alone is followed up exactly where nothing speaks against it and its
/// edge is above nothing.
pub proof fn followed_up_purchases_leave_an_edge(observation: ObservationView)
    ensures
        internal_followed_up(observation.polymarket_internal) <==> {
            &&& observation.polymarket_internal is Some
            &&& observation.polymarket_internal->0.rejections@.len() == 0
            &&& parsed_decimal(observation.polymarket_internal->0.net_edge@) is Some
            &&& parsed_decimal(observation.polymarket_internal->0.net_edge@)->0.units() > 0
        },
{
    if let Some(view) = observation.polymarket_internal {
        if let Some(edge) = parsed_decimal(view.net_edge@) {
            positive_units(edge);
        }
    }
}

/// The first price of a ladder lies from five to ninety-five hundredths.
pub open spec fn opens_between(levels: Seq<LevelView>) -> bool {
    levels.len() > 0 && 5 * whole(1).units() <= 100 * levels[0].price.units() <= 95 * whole(
        1,
    ).units()
}

/// There is one reason against a purchase on one venue for each of these that fails: an edge
/// above nothing, quotes at most a second apart and five seconds old, a minute left, and both
/// ladders opening from 0.05 to 0.95.
pub proof fn venue_purchases_are_judged_by_the_rules(
    up: Seq<LevelView>,
    down: Seq<LevelView>,
    net_edge: DecimalView,
    quote_skew_ms: i64,
    quote_age_ms: i64,
    remaining_ms: i64,
    on_binance: bool,
)
    ensures
        internal_rejections(
            up,
            down,
            net_edge,
            quote_skew_ms,
            quote_age_ms,
            remaining_ms,
            on_binance,
        ).len() == held(net_edge.units() <= 0) + held(quote_skew_ms > 1_000) + held(
            quote_age_ms > 5_000,
        ) + held(remaining_ms < 60_000) + held(!opens_between(up) || !opens_between(down)),
{
    positive_units(net_edge);
    if up.len() > 0 {
        tradable_prices_lie_between(up[0].price);
    }
    if down.len() > 0 {
        tradable_prices_lie_between(down[0].price);
    }
}

/// There is one reason against a perpetual basis for each of these that fails: a funding rate
/// above nothing, a day's projection above nothing, answers at most a second apart, and a mark
/// price at most five seconds old.
pub proof fn perpetuals_are_judged_by_the_rules(
    funding_rate: DecimalView,
    projected_net_24h: DecimalView,
    response_skew_ms: i64,
    premium_age_ms: i64,
)
    ensures
        basis_rejections(funding_rate, projected_net_24h, response_skew_ms, premium_age_ms).len()
            == held(funding_rate.units() <= 0) + held(projected_net_24h.units() <= 0) + held(
            response_skew_ms > 1_000,
        ) + held(premium_age_ms > 5_000),
{
    positive_units(funding_rate);
    positive_units(projected_net_24h);
}

/// There is one reason against a delivery basis for each of these that fails: a basis above
/// nothing, a net profit above nothing, answers at most a second apart, and a mark price at
/// most five seconds old.
pub proof fn deliveries_are_judged_by_the_rules(
    basis: DecimalView,
    net_profit: DecimalView,
    response_skew_ms: i64,
    premium_age_ms: i64,
)
    ensures
        delivery_rejections(basis, net_profit, response_skew_ms, premium_age_ms).len() == held(
            basis.units() <= 0,
        ) + held(net_profit.units() <= 0) + held(response_skew_ms > 1_000) + held(
            premium_age_ms > 5_000,
        ),
{
    positive_units(basis);
    positive_units(net_profit);
}

/// Lists one after the other hold what one of them holds.
proof fn lemma_notes_of_five(
    a: Seq<Seq<char>>,
    b: Seq<Seq<char>>,
    c: Seq<Seq<char>>,
    d: Seq<Seq<char>>,
    e: Seq<Seq<char>>,
    text: Seq<char>,
)
    ensures
        (a + b + c + d + e).contains(text) <==> a.contains(text) || b.contains(text) || c.contains(
            text,
        ) || d.contains(text) || e.contains(text),
        (a + b + c + d).contains(text) <==> a.contains(text) || b.contains(text) || c.contains(
            text,
        ) || d.contains(text),
{
    lists_hold_together(a, b, text);
    lists_hold_together(a + b, c, text);
    lists_hold_together(a + b + c, d, text);
    lists_hold_together(a + b + c + d, e, text);
}

/// Each reason against a direction is given exactly where its own rule fails.
pub proof fn reasons_name_the_rule_that_fails(
    pair: TrackedView,
    observation: ObservationView,
    direction: Seq<char>,
    text: Seq<char>,
)
    ensures
        ({
            let seen = seen_in(observation, direction);
            let references = within_ten_seconds(
                observation.observed_at_ms as int,
                observation.binance_reference_at_ms,
            ) && within_ten_seconds(
                observation.observed_at_ms as int,
                observation.polymarket_reference_at_ms,
            );
            rejection_reasons(pair, observation, direction).contains(text) <==> {
                ||| text == "结算规则未对齐"@ && !settlement_aligned(pair)
                ||| text == "缺少可执行净空间"@ && number_of(seen.net_edge) is None
                ||| text == "净空间低于 2%"@ && number_of(seen.net_edge) is Some
                    && !edge_suffices(seen.net_edge)
                ||| text == "缺少双边可成交深度"@ && !size_suffices(seen.size)
                ||| text == "盘口时间差超过 1 秒"@ && !at_most(seen.quote_skew_ms, 1_000)
                ||| text == "盘口年龄超过 5 秒"@ && !at_most(seen.quote_age_ms, 5_000)
                ||| text == "距结算不足 60 秒"@ && !at_least(
                    observation.remaining_time_ms,
                    60_000,
                )
                ||| text == "参考价缺失或超过 10 秒"@ && !references
                ||| text == "单腿价格超出 0.05 至 0.95"@ && !(leg_is_tradable(seen.first_leg)
                    && leg_is_tradable(seen.second_leg))
            }
        }),
{
    let seen = seen_in(observation, direction);
    if let Some(edge) = number_of(seen.net_edge) {
        lemma_two_hundredths(edge);
        note_is_held(!edge_suffices(seen.net_edge), "净空间低于 2%"@, text);
    } else {
        note_is_held(true, "缺少可执行净空间"@, text);
    }
    if let Some(size) = number_of(seen.size) {
        positive_units(size);
    }
    lemma_leg(seen.first_leg);
    lemma_leg(seen.second_leg);
    let references = within_ten_seconds(
        observation.observed_at_ms as int,
        observation.binance_reference_at_ms,
    ) && within_ten_seconds(
        observation.observed_at_ms as int,
        observation.polymarket_reference_at_ms,
    );
    let legs = leg_is_tradable(seen.first_leg) && leg_is_tradable(seen.second_leg);
    let a = note_if(!settlement_aligned(pair), "结算规则未对齐"@);
    let b = edge_notes(seen.net_edge);
    let c = note_if(!size_suffices(seen.size), "缺少双边可成交深度"@);
    let d = note_if(!at_most(seen.quote_skew_ms, 1_000), "盘口时间差超过 1 秒"@);
    let e = note_if(!at_most(seen.quote_age_ms, 5_000), "盘口年龄超过 5 秒"@);
    let f = note_if(!at_least(observation.remaining_time_ms, 60_000), "距结算不足 60 秒"@);
    let g = note_if(!references, "参考价缺失或超过 10 秒"@);
    let h = note_if(!legs, "单腿价格超出 0.05 至 0.95"@);
    note_is_held(!settlement_aligned(pair), "结算规则未对齐"@, text);
    note_is_held(!size_suffices(seen.size), "缺少双边可成交深度"@, text);
    note_is_held(!at_most(seen.quote_skew_ms, 1_000), "盘口时间差超过 1 秒"@, text);
    note_is_held(!at_most(seen.quote_age_ms, 5_000), "盘口年龄超过 5 秒"@, text);
    note_is_held(
        !at_least(observation.remaining_time_ms, 60_000),
        "距结算不足 60 秒"@,
        text,
    );
    note_is_held(!references, "参考价缺失或超过 10 秒"@, text);
    note_is_held(!legs, "单腿价格超出 0.05 至 0.95"@, text);
    lemma_notes_of_five(a, b, c, d, e, text);
    lists_hold_together(a + b + c + d + e, f, text);
    lists_hold_together(a + b + c + d + e + f, g, text);
    lists_hold_together(a + b + c + d + e + f + g, h, text);
    assert(rejection_reasons(pair, observation, direction) == a + b + c + d + e + f + g + h);
}

/// Each reason against a purchase on one venue is given exactly where its own rule fails.
pub proof fn venue_reasons_name_the_rule_that_fails(
    up: Seq<LevelView>,
    down: Seq<LevelView>,
    net_edge: DecimalView,
    quote_skew_ms: i64,
    quote_age_ms: i64,
    remaining_ms: i64,
    on_binance: bool,
    text: Seq<char>,
)
    ensures
        internal_rejections(
            up,
            down,
            net_edge,
            quote_skew_ms,
            quote_age_ms,
            remaining_ms,
            on_binance,
        ).contains(text) <==> {
            ||| text == "扣费及缓冲后无正净空间"@ && net_edge.units() <= 0
            ||| text == "Binance 两盘口时间差超过 1 秒"@ && on_binance && quote_skew_ms > 1_000
            ||| text == "Polymarket 两盘口时间差超过 1 秒"@ && !on_binance && quote_skew_ms > 1_000
            ||| text == "Binance 盘口年龄超过 5 秒"@ && on_binance && quote_age_ms > 5_000
            ||| text == "Polymarket 盘口年龄超过 5 秒"@ && !on_binance && quote_age_ms > 5_000
            ||| text == "距结算不足 60 秒"@ && remaining_ms < 60_000
            ||| text == "单腿价格超出 0.05 至 0.95"@ && !(opens_between(up) && opens_between(down))
        },
{
    positive_units(net_edge);
    if up.len() > 0 {
        tradable_prices_lie_between(up[0].price);
    }
    if down.len() > 0 {
        tradable_prices_lie_between(down[0].price);
    }
    let apart = if on_binance {
        "Binance 两盘口时间差超过 1 秒"@
    } else {
        "Polymarket 两盘口时间差超过 1 秒"@
    };
    let aged = if on_binance {
        "Binance 盘口年龄超过 5 秒"@
    } else {
        "Polymarket 盘口年龄超过 5 秒"@
    };
    let closed = !opens_tradable(up) || !opens_tradable(down);
    note_is_held(!net_edge.is_positive(), "扣费及缓冲后无正净空间"@, text);
    note_is_held(quote_skew_ms > 1_000, apart, text);
    note_is_held(quote_age_ms > 5_000, aged, text);
    note_is_held(remaining_ms < 60_000, "距结算不足 60 秒"@, text);
    note_is_held(closed, "单腿价格超出 0.05 至 0.95"@, text);
    lemma_notes_of_five(
        note_if(!net_edge.is_positive(), "扣费及缓冲后无正净空间"@),
        note_if(quote_skew_ms > 1_000, apart),
        note_if(quote_age_ms > 5_000, aged),
        note_if(remaining_ms < 60_000, "距结算不足 60 秒"@),
        note_if(closed, "单腿价格超出 0.05 至 0.95"@),
        text,
    );
}

/// Each reason against a perpetual basis is given exactly where its own rule fails.
pub proof fn perpetual_reasons_name_the_rule_that_fails(
    funding_rate: DecimalView,
    projected_net_24h: DecimalView,
    response_skew_ms: i64,
    premium_age_ms: i64,
    text: Seq<char>,
)
    ensures
        basis_rejections(
            funding_rate,
            projected_net_24h,
            response_skew_ms,
            premium_age_ms,
        ).contains(text) <==> {
            ||| text == "当前资金费率不利于买现货、空永续"@ && funding_rate.units() <= 0
            ||| text == "按当前资金费率投影 24 小时仍无正净收益"@ && projected_net_24h.units() <= 0
            ||| text == "现货与永续接口响应完成时差超过 1 秒"@ && response_skew_ms > 1_000
            ||| text == "永续标记价或资金费率数据超过 5 秒"@ && premium_age_ms > 5_000
        },
{
    positive_units(funding_rate);
    positive_units(projected_net_24h);
    let (a, b) = (!funding_rate.is_positive(), !projected_net_24h.is_positive());
    let (c, d) = (response_skew_ms > 1_000, premium_age_ms > 5_000);
    note_is_held(a, "当前资金费率不利于买现货、空永续"@, text);
    note_is_held(b, "按当前资金费率投影 24 小时仍无正净收益"@, text);
    note_is_held(c, "现货与永续接口响应完成时差超过 1 秒"@, text);
    note_is_held(d, "永续标记价或资金费率数据超过 5 秒"@, text);
    lemma_notes_of_five(
        note_if(a, "当前资金费率不利于买现货、空永续"@),
        note_if(b, "按当前资金费率投影 24 小时仍无正净收益"@),
        note_if(c, "现货与永续接口响应完成时差超过 1 秒"@),
        note_if(d, "永续标记价或资金费率数据超过 5 秒"@),
        Seq::empty(),
        text,
    );
}

/// Each reason against a delivery basis is given exactly where its own rule fails.
pub proof fn delivery_reasons_name_the_rule_that_fails(
    basis: DecimalView,
    net_profit: DecimalView,
    response_skew_ms: i64,
    premium_age_ms: i64,
    text: Seq<char>,
)
    ensures
        delivery_rejections(basis, net_profit, response_skew_ms, premium_age_ms).contains(text)
            <==> {
            ||| text == "交割合约未高于现货买入成本"@ && basis.units() <= 0
            ||| text == "扣除费用、缓冲和资金占用后无正净利润"@ && net_profit.units() <= 0
            ||| text == "现货与交割合约接口响应完成时差超过 1 秒"@ && response_skew_ms > 1_000
            ||| text == "交割合约标记价数据超过 5 秒"@ && premium_age_ms > 5_000
        },
{
    positive_units(basis);
    positive_units(net_profit);
    let (a, b) = (!basis.is_positive(), !net_profit.is_positive());
    let (c, d) = (response_skew_ms > 1_000, premium_age_ms > 5_000);
    note_is_held(a, "交割合约未高于现货买入成本"@, text);
    note_is_held(b, "扣除费用、缓冲和资金占用后无正净利润"@, text);
    note_is_held(c, "现货与交割合约接口响应完成时差超过 1 秒"@, text);
    note_is_held(d, "交割合约标记价数据超过 5 秒"@, text);
    lemma_notes_of_five(
        note_if(a, "交割合约未高于现货买入成本"@),
        note_if(b, "扣除费用、缓冲和资金占用后无正净利润"@),
        note_if(c, "现货与交割合约接口响应完成时差超过 1 秒"@),
        note_if(d, "交割合约标记价数据超过 5 秒"@),
        Seq::empty(),
        text,
    );
}

} // verus!
