//! Simulated trades: which observations are traded, and when a signal counts as confirmed.
use vstd::prelude::*;

use crate::cross::{
    is_tradable_price, tradable_price, PolymarketInternalView, ShadowPlan, PAPER_MAX_QUOTE_AGE_MS,
    PAPER_MAX_QUOTE_SKEW_MS, PAPER_MIN_REMAINING_MS,
};
use crate::decimal::{decimal_text, parsed_decimal, product, Decimal, DecimalView};
use crate::pairs::{
    is_paper_settlement_aligned, is_research_eligible, research_eligible, settlement_aligned,
    TrackedPairView, TrackedView,
};
use crate::quotes::{number_of, read_number, ReferencePriceView};
use crate::scan::ObservationView;
use crate::table::{KeyView, PairTable};
use crate::text::{copy_option, no_notes, note_if, push_note, same, text_of, texts_of};

verus! {

pub const PAPER_MAX_REFERENCE_AGE_MS: i64 = 10_000;

pub const PAPER_CONFIRMATION_MS: i64 = 5_000;

pub const PAPER_MAX_SIGNAL_GAP_MS: i64 = 15_000;

/// The name of the model by which simulated trades are filled.
pub open spec fn fill_model() -> Seq<char> {
    "fok_depth_10_dynamic_fee_slip_20bps_fx_10bps_capital_10apr_5s_confirmed_aligned"@
}

/// A simulated trade, with every number in decimal notation.
#[derive(Clone, Debug)]
pub struct PaperTradeView {
    pub id: Option<i64>,
    pub slug: String,
    pub asset: String,
    pub duration: String,
    pub direction: String,
    pub classification: String,
    pub detected_at_ms: i64,
    pub quantity: String,
    pub total_cost: String,
    pub total_fees: String,
    pub total_risk_buffers: String,
    pub expected_profit: String,
    pub actual_payout: Option<String>,
    pub realized_profit: Option<String>,
    pub settled_at_ms: Option<i64>,
    pub status: String,
    pub fill_model: String,
}

/// What an observation says of one direction.
#[verifier::ext_equal]
pub struct DirectionSeen {
    pub cost: Option<Seq<char>>,
    pub fees: Option<Seq<char>>,
    pub net_edge: Option<Seq<char>>,
    pub risk_buffers: Option<Seq<char>>,
    pub size: Option<Seq<char>>,
    pub first_leg: Option<Seq<char>>,
    pub second_leg: Option<Seq<char>>,
    pub quote_skew_ms: Option<i64>,
    pub quote_age_ms: Option<i64>,
}

/// What an observation says of a direction: "A" buys up on Binance and down on Polymarket,
/// every other name the reverse.
pub open spec fn seen_in(observation: ObservationView, direction: Seq<char>) -> DirectionSeen {
    if direction == "A"@ {
        DirectionSeen {
            cost: text_of(observation.direction_a_cost),
            fees: text_of(observation.direction_a_fees),
            net_edge: text_of(observation.direction_a_net_edge),
            risk_buffers: text_of(observation.direction_a_risk_buffers),
            size: text_of(observation.direction_a_size),
            first_leg: text_of(observation.binance_up_ask),
            second_leg: text_of(observation.polymarket_down_ask),
            quote_skew_ms: observation.direction_a_quote_skew_ms,
            quote_age_ms: observation.direction_a_quote_age_ms,
        }
    } else {
        DirectionSeen {
            cost: text_of(observation.direction_b_cost),
            fees: text_of(observation.direction_b_fees),
            net_edge: text_of(observation.direction_b_net_edge),
            risk_buffers: text_of(observation.direction_b_risk_buffers),
            size: text_of(observation.direction_b_size),
            first_leg: text_of(observation.binance_down_ask),
            second_leg: text_of(observation.polymarket_up_ask),
            quote_skew_ms: observation.direction_b_quote_skew_ms,
            quote_age_ms: observation.direction_b_quote_age_ms,
        }
    }
}

/// The smallest net edge that is traded.
pub open spec fn minimum_edge() -> DecimalView {
    DecimalView { mantissa: 2, scale: 2 }
}

/// A time that lies at most the allowed age from the observation.
pub open spec fn reference_fresh(observed_at_ms: int, at_ms: Option<i64>) -> bool {
    at_ms matches Some(at) && -PAPER_MAX_REFERENCE_AGE_MS <= observed_at_ms - at
        <= PAPER_MAX_REFERENCE_AGE_MS
}

/// A leg whose price can be read and is tradable.
pub open spec fn leg_tradable(price: Option<Seq<char>>) -> bool {
    number_of(price) matches Some(price) && tradable_price(price)
}

/// The reason that the net edge gives against a trade.
pub open spec fn edge_notes(net_edge: Option<Seq<char>>) -> Seq<Seq<char>> {
    match number_of(net_edge) {
        Some(edge) => note_if(!minimum_edge().le(edge), "净空间低于 2%"@),
        None => seq!["缺少可执行净空间"@],
    }
}

/// The reasons against trading a direction of an observation.
pub open spec fn rejection_reasons(
    pair: TrackedView,
    observation: ObservationView,
    direction: Seq<char>,
) -> Seq<Seq<char>> {
    let seen = seen_in(observation, direction);
    note_if(!settlement_aligned(pair), "结算规则未对齐"@) + edge_notes(seen.net_edge) + note_if(
        !(number_of(seen.size) matches Some(size) && size.is_positive()),
        "缺少双边可成交深度"@,
    ) + note_if(
        !(seen.quote_skew_ms matches Some(skew) && skew <= PAPER_MAX_QUOTE_SKEW_MS),
        "盘口时间差超过 1 秒"@,
    ) + note_if(
        !(seen.quote_age_ms matches Some(age) && age <= PAPER_MAX_QUOTE_AGE_MS),
        "盘口年龄超过 5 秒"@,
    ) + note_if(
        !(observation.remaining_time_ms matches Some(left) && left >= PAPER_MIN_REMAINING_MS),
        "距结算不足 60 秒"@,
    ) + note_if(
        !(reference_fresh(observation.observed_at_ms as int, observation.binance_reference_at_ms)
            && reference_fresh(
            observation.observed_at_ms as int,
            observation.polymarket_reference_at_ms,
        )),
        "参考价缺失或超过 10 秒"@,
    ) + note_if(
        !leg_tradable(seen.first_leg) || !leg_tradable(seen.second_leg),
        "单腿价格超出 0.05 至 0.95"@,
    )
}

/// The decimal that an optional text stands for.
fn is_leg_tradable(price: &Option<String>) -> (result: bool)
    ensures
        result == leg_tradable(text_of(*price)),
{
    match read_number(price) {
        Some(price) => is_tradable_price(&price),
        None => false,
    }
}

fn is_reference_fresh(observed_at_ms: i64, at_ms: Option<i64>) -> (result: bool)
    ensures
        result == reference_fresh(observed_at_ms as int, at_ms),
{
    match at_ms {
        Some(at) => {
            let gap: i128 = observed_at_ms as i128 - at as i128;
            -(PAPER_MAX_REFERENCE_AGE_MS as i128) <= gap && gap
                <= PAPER_MAX_REFERENCE_AGE_MS as i128
        },
        None => false,
    }
}

/// The reasons against trading a direction of an observation; none where it can be traded.
pub fn paper_rejection_reasons(
    pair: &TrackedPairView,
    observation: &ObservationView,
    direction: &str,
) -> (result: Vec<String>)
    ensures
        texts_of(result@) == rejection_reasons(pair@, *observation, direction@),
{
    let mut reasons = no_notes();
    push_note(&mut reasons, !is_paper_settlement_aligned(pair), "结算规则未对齐");
    let is_a = same(direction, "A");
    let (net_edge, size, first_leg, second_leg) = if is_a {
        (
            &observation.direction_a_net_edge,
            &observation.direction_a_size,
            &observation.binance_up_ask,
            &observation.polymarket_down_ask,
        )
    } else {
        (
            &observation.direction_b_net_edge,
            &observation.direction_b_size,
            &observation.binance_down_ask,
            &observation.polymarket_up_ask,
        )
    };
    let quote_skew_ms: Option<i64> = if is_a {
        observation.direction_a_quote_skew_ms
    } else {
        observation.direction_b_quote_skew_ms
    };
    let quote_age_ms: Option<i64> = if is_a {
        observation.direction_a_quote_age_ms
    } else {
        observation.direction_b_quote_age_ms
    };
    match read_number(net_edge) {
        Some(edge) => push_note(
            &mut reasons,
            !Decimal::new(2, 2).at_most(&edge),
            "净空间低于 2%",
        ),
        None => push_note(&mut reasons, true, "缺少可执行净空间"),
    }
    let has_size = match read_number(size) {
        Some(size) => size.is_positive(),
        None => false,
    };
    push_note(&mut reasons, !has_size, "缺少双边可成交深度");
    let close = match quote_skew_ms {
        Some(skew) => skew <= PAPER_MAX_QUOTE_SKEW_MS,
        None => false,
    };
    push_note(&mut reasons, !close, "盘口时间差超过 1 秒");
    let recent = match quote_age_ms {
        Some(age) => age <= PAPER_MAX_QUOTE_AGE_MS,
        None => false,
    };
    push_note(&mut reasons, !recent, "盘口年龄超过 5 秒");
    let in_time = match observation.remaining_time_ms {
        Some(left) => left >= PAPER_MIN_REMAINING_MS,
        None => false,
    };
    push_note(&mut reasons, !in_time, "距结算不足 60 秒");
    let fresh = is_reference_fresh(observation.observed_at_ms, observation.binance_reference_at_ms)
        && is_reference_fresh(observation.observed_at_ms, observation.polymarket_reference_at_ms);
    push_note(&mut reasons, !fresh, "参考价缺失或超过 10 秒");
    push_note(
        &mut reasons,
        !is_leg_tradable(first_leg) || !is_leg_tradable(second_leg),
        "单腿价格超出 0.05 至 0.95",
    );
    proof {
        assert(texts_of(reasons@) =~= rejection_reasons(pair@, *observation, direction@));
    }
    reasons
}

/// A trade as numbers.
pub struct TradeFigures {
    pub quantity: DecimalView,
    pub total_cost: DecimalView,
    pub total_fees: DecimalView,
    pub total_risk_buffers: DecimalView,
    pub expected_profit: DecimalView,
}

/// The trade that an observation comes to in a direction. The outer `None` is an overflow; the
/// inner one says that there is a reason against it or that a number is missing.
pub open spec fn trade_of(
    pair: TrackedView,
    observation: ObservationView,
    direction: Seq<char>,
) -> Option<Option<TradeFigures>> {
    let seen = seen_in(observation, direction);
    if rejection_reasons(pair, observation, direction).len() > 0 {
        Some(None)
    } else {
        match (
            number_of(seen.cost),
            number_of(seen.fees),
            number_of(seen.net_edge),
            number_of(seen.size),
            number_of(seen.risk_buffers),
        ) {
            (Some(cost), Some(fees), Some(net_edge), Some(size), Some(risk_buffers)) => match (
                product(cost, size),
                product(fees, size),
                product(risk_buffers, size),
                product(net_edge, size),
            ) {
                (
                    Some(total_cost),
                    Some(total_fees),
                    Some(total_risk_buffers),
                    Some(expected_profit),
                ) => Some(
                    Some(
                        TradeFigures {
                            quantity: size,
                            total_cost,
                            total_fees,
                            total_risk_buffers,
                            expected_profit,
                        },
                    ),
                ),
                _ => None,
            },
            _ => Some(None),
        }
    }
}

/// An open trade of a pair shows its figures.
pub open spec fn shows_trade(
    trade: PaperTradeView,
    figures: TradeFigures,
    pair: TrackedView,
    observation: ObservationView,
    direction: Seq<char>,
) -> bool {
    &&& trade.id is None
    &&& trade.slug@ == pair.slug
    &&& trade.asset@ == pair.asset
    &&& trade.duration@ == pair.duration
    &&& trade.direction@ == direction
    &&& trade.classification@ == pair.classification
    &&& trade.detected_at_ms == observation.observed_at_ms
    &&& trade.quantity@ == decimal_text(figures.quantity)
    &&& trade.total_cost@ == decimal_text(figures.total_cost)
    &&& trade.total_fees@ == decimal_text(figures.total_fees)
    &&& trade.total_risk_buffers@ == decimal_text(figures.total_risk_buffers)
    &&& trade.expected_profit@ == decimal_text(figures.expected_profit)
    &&& trade.actual_payout is None
    &&& trade.realized_profit is None
    &&& trade.settled_at_ms is None
    &&& trade.status@ == "open"@
    &&& trade.fill_model@ == fill_model()
}

/// The trade that an observation comes to in a direction; the outer `None` is an overflow.
pub fn checked_paper_trade(
    pair: &TrackedPairView,
    observation: &ObservationView,
    direction: &str,
) -> (result: Option<Option<PaperTradeView>>)
    ensures
        match trade_of(pair@, *observation, direction@) {
            None => result is None,
            Some(None) => result matches Some(None),
            Some(Some(figures)) => result matches Some(Some(trade)) && shows_trade(
                trade,
                figures,
                pair@,
                *observation,
                direction@,
            ),
        },
{
    let reasons = paper_rejection_reasons(pair, observation, direction);
    proof {
        assert(texts_of(reasons@).len() == reasons@.len());
    }
    if reasons.len() > 0 {
        return Some(None);
    }
    let (cost, fees, net_edge, size, risk_buffers) = if same(direction, "A") {
        (
            &observation.direction_a_cost,
            &observation.direction_a_fees,
            &observation.direction_a_net_edge,
            &observation.direction_a_size,
            &observation.direction_a_risk_buffers,
        )
    } else {
        (
            &observation.direction_b_cost,
            &observation.direction_b_fees,
            &observation.direction_b_net_edge,
            &observation.direction_b_size,
            &observation.direction_b_risk_buffers,
        )
    };
    let (cost, fees, net_edge, size, risk_buffers) = match (
        read_number(cost),
        read_number(fees),
        read_number(net_edge),
        read_number(size),
        read_number(risk_buffers),
    ) {
        (Some(cost), Some(fees), Some(net_edge), Some(size), Some(risk_buffers)) => {
            (cost, fees, net_edge, size, risk_buffers)
        },
        _ => {
            return Some(None);
        },
    };
    let total_cost = cost.checked_mul(size)?;
    let total_fees = fees.checked_mul(size)?;
    let total_risk_buffers = risk_buffers.checked_mul(size)?;
    let expected_profit = net_edge.checked_mul(size)?;
    Some(
        Some(
            PaperTradeView {
                id: None,
                slug: pair.slug.clone(),
                asset: pair.asset.clone(),
                duration: pair.duration.clone(),
                direction: direction.to_owned(),
                classification: pair.classification.clone(),
                detected_at_ms: observation.observed_at_ms,
                quantity: size.text(),
                total_cost: total_cost.text(),
                total_fees: total_fees.text(),
                total_risk_buffers: total_risk_buffers.text(),
                expected_profit: expected_profit.text(),
                actual_payout: None,
                realized_profit: None,
                settled_at_ms: None,
                status: "open".to_owned(),
                fill_model:
                    "fok_depth_10_dynamic_fee_slip_20bps_fx_10bps_capital_10apr_5s_confirmed_aligned".to_owned(),
            },
        ),
    )
}

/// The trade that an observation comes to in a direction.
pub fn paper_trade(
    pair: &TrackedPairView,
    observation: &ObservationView,
    direction: &str,
) -> (result: Option<PaperTradeView>)
    requires
        trade_of(pair@, *observation, direction@) is Some,
    ensures
        match trade_of(pair@, *observation, direction@)->0 {
            None => result is None,
            Some(figures) => result matches Some(trade) && shows_trade(
                trade,
                figures,
                pair@,
                *observation,
                direction@,
            ),
        },
{
    checked_paper_trade(pair, observation, direction).unwrap()
}

/// A trade is made only on a pair that settles alike, at an edge of at least the minimum and a
/// positive size, from quotes that are recent and close together, in time before the
/// settlement, with fresh reference prices and tradable legs.
pub proof fn trades_meet_every_rule(
    pair: TrackedView,
    observation: ObservationView,
    direction: Seq<char>,
    figures: TradeFigures,
)
    requires
        trade_of(pair, observation, direction) == Some(Some(figures)),
    ensures
        ({
            let seen = seen_in(observation, direction);
            &&& settlement_aligned(pair)
            &&& number_of(seen.net_edge) matches Some(edge) && minimum_edge().le(edge)
            &&& figures.quantity.is_positive()
            &&& seen.quote_skew_ms matches Some(skew) && skew <= PAPER_MAX_QUOTE_SKEW_MS
            &&& seen.quote_age_ms matches Some(age) && age <= PAPER_MAX_QUOTE_AGE_MS
            &&& observation.remaining_time_ms matches Some(left) && left >= PAPER_MIN_REMAINING_MS
            &&& reference_fresh(
                observation.observed_at_ms as int,
                observation.binance_reference_at_ms,
            )
            &&& reference_fresh(
                observation.observed_at_ms as int,
                observation.polymarket_reference_at_ms,
            )
            &&& leg_tradable(seen.first_leg)
            &&& leg_tradable(seen.second_leg)
        }),
{
}

/// A signal: since when and how often it was seen.
#[derive(Clone, Copy, Debug, PartialEq, Eq, Structural)]
pub struct ActiveSignal {
    pub since_ms: i64,
    pub last_seen_ms: i64,
    pub samples: u32,
}

/// The signals that are being watched, by slug and direction.
pub type ActiveSignals = PairTable<ActiveSignal>;

/// A signal after one more sample. It starts anew where there was none or the last sample is
/// too long ago.
pub open spec fn sampled(before: Option<ActiveSignal>, observed_at_ms: i64) -> ActiveSignal {
    let continued = before matches Some(signal) && observed_at_ms - signal.last_seen_ms
        <= PAPER_MAX_SIGNAL_GAP_MS;
    ActiveSignal {
        since_ms: if continued {
            before->0.since_ms
        } else {
            observed_at_ms
        },
        last_seen_ms: observed_at_ms,
        samples: if continued {
            if before->0.samples == u32::MAX {
                u32::MAX
            } else {
                (before->0.samples + 1) as u32
            }
        } else {
            1
        },
    }
}

/// A signal is confirmed by two samples that lie far enough apart.
pub open spec fn confirmed(signal: ActiveSignal) -> bool {
    signal.samples >= 2 && signal.last_seen_ms - signal.since_ms >= PAPER_CONFIRMATION_MS
}

pub open spec fn signal_at(signals: Map<KeyView, ActiveSignal>, key: KeyView) -> Option<
    ActiveSignal,
> {
    if signals.contains_key(key) {
        Some(signals[key])
    } else {
        None
    }
}

/// Adds a sample to a signal, and says whether that confirms it.
pub fn record_qualifying_sample(
    active_signals: &mut ActiveSignals,
    key: (String, String),
    observed_at_ms: i64,
) -> (result: bool)
    ensures
        ({
            let at = (key.0@, key.1@);
            let after = sampled(signal_at(old(active_signals)@, at), observed_at_ms);
            &&& final(active_signals)@ == old(active_signals)@.insert(at, after)
            &&& result == confirmed(after)
        }),
{
    let before = active_signals.get(key.0.as_str(), key.1.as_str());
    let mut since_ms: i64 = observed_at_ms;
    let mut samples: u32 = 1;
    if let Some(signal) = before {
        if observed_at_ms as i128 - signal.last_seen_ms as i128 <= PAPER_MAX_SIGNAL_GAP_MS as i128 {
            since_ms = signal.since_ms;
            samples = signal.samples.saturating_add(1);
        }
    }
    let after = ActiveSignal { since_ms, last_seen_ms: observed_at_ms, samples };
    active_signals.insert(key.0.as_str(), key.1.as_str(), after);
    samples >= 2 && observed_at_ms as i128 - since_ms as i128 >= PAPER_CONFIRMATION_MS as i128
}

/// The first sample never confirms a signal, nor does one that comes after too long a gap.
pub proof fn fresh_signal_is_unconfirmed(before: Option<ActiveSignal>, observed_at_ms: i64)
    requires
        before is None || observed_at_ms - before->0.last_seen_ms > PAPER_MAX_SIGNAL_GAP_MS,
    ensures
        !confirmed(sampled(before, observed_at_ms)),
        sampled(before, observed_at_ms).since_ms == observed_at_ms,
{
}

/// A confirmed signal was seen at least twice, without a gap that is too long, over at least
/// the confirmation time.
pub proof fn confirmation_needs_time(before: Option<ActiveSignal>, observed_at_ms: i64)
    requires
        confirmed(sampled(before, observed_at_ms)),
    ensures
        before matches Some(signal) && {
            &&& signal.samples >= 1
            &&& observed_at_ms - signal.last_seen_ms <= PAPER_MAX_SIGNAL_GAP_MS
            &&& observed_at_ms - signal.since_ms >= PAPER_CONFIRMATION_MS
        },
{
}

/// Whether an optional text is a positive decimal.
pub open spec fn is_positive_text(value: Option<Seq<char>>) -> bool {
    number_of(value) matches Some(number) && number.is_positive()
}

/// Whether an optional text is a positive decimal.
pub fn positive(value: &Option<String>) -> (result: bool)
    ensures
        result == is_positive_text(text_of(*value)),
{
    match read_number(value) {
        Some(number) => number.is_positive(),
        None => false,
    }
}

/// Whether an observation shows an opportunity: the pair is worth observing and one of the
/// directions leaves something.
pub open spec fn shows_opportunity(pair: TrackedView, observation: ObservationView) -> bool {
    research_eligible(pair.classification) && (is_positive_text(
        text_of(observation.direction_a_net_edge),
    ) || is_positive_text(text_of(observation.direction_b_net_edge)))
}

/// Whether an observation shows an opportunity.
pub fn has_opportunity(pair: &TrackedPairView, observation: &ObservationView) -> (result: bool)
    ensures
        result == shows_opportunity(pair@, *observation),
{
    is_research_eligible(pair.classification.as_str()) && (positive(
        &observation.direction_a_net_edge,
    ) || positive(&observation.direction_b_net_edge))
}

/// Whether a purchase on Polymarket alone is worth following up.
pub open spec fn internal_followed_up(view: Option<PolymarketInternalView>) -> bool {
    view matches Some(view) && view.rejections@.len() == 0 && (parsed_decimal(
        view.net_edge@,
    ) matches Some(edge) && edge.is_positive())
}

/// Whether a purchase on Polymarket alone is worth following up: nothing speaks against it and
/// it leaves something.
pub fn internal_is_eligible(observation: &ObservationView) -> (result: bool)
    ensures
        result == internal_followed_up(observation.polymarket_internal),
{
    match &observation.polymarket_internal {
        Some(view) => view.rejections.len() == 0 && (match Decimal::parse(view.net_edge.as_str()) {
            Some(edge) => edge.is_positive(),
            None => false,
        }),
        None => false,
    }
}

/// An observation with the reference prices of its asset, where they are known, and with the
/// reasons against trading either direction.
pub open spec fn annotated(
    after: ObservationView,
    before: ObservationView,
    pair: TrackedView,
    reference: Option<ReferencePriceView>,
) -> bool {
    let binance_price = match reference {
        Some(known) => text_of(known.binance_spot_price),
        None => text_of(before.binance_reference_price),
    };
    let binance_at = match reference {
        Some(known) => known.binance_observed_at_ms,
        None => before.binance_reference_at_ms,
    };
    let polymarket_price = match reference {
        Some(known) => text_of(known.polymarket_twap_60s),
        None => text_of(before.polymarket_reference_price),
    };
    let polymarket_at = match reference {
        Some(known) => known.polymarket_observed_at_ms,
        None => before.polymarket_reference_at_ms,
    };
    &&& text_of(after.binance_reference_price) == binance_price
    &&& after.binance_reference_at_ms == binance_at
    &&& text_of(after.polymarket_reference_price) == polymarket_price
    &&& after.polymarket_reference_at_ms == polymarket_at
    &&& texts_of(after.direction_a_rejections@) == rejection_reasons(pair, after, "A"@)
    &&& texts_of(after.direction_b_rejections@) == rejection_reasons(pair, after, "B"@)
    &&& seen_in(after, "A"@) == seen_in(before, "A"@)
    &&& seen_in(after, "B"@) == seen_in(before, "B"@)
    &&& after.slug == before.slug
    &&& after.observed_at_ms == before.observed_at_ms
    &&& after.scan_latency_ms == before.scan_latency_ms
    &&& after.remaining_time_ms == before.remaining_time_ms
    &&& after.binance_internal == before.binance_internal
    &&& after.polymarket_internal == before.polymarket_internal
}

/// Adds the reference prices of the asset, where they are known, and the reasons against
/// trading either direction.
pub fn annotate_observation(
    observation: &mut ObservationView,
    pair: &TrackedPairView,
    reference: &Option<ReferencePriceView>,
)
    ensures
        annotated(*final(observation), *old(observation), pair@, *reference),
{
    if let Some(known) = reference {
        observation.binance_reference_price = copy_option(&known.binance_spot_price);
        observation.binance_reference_at_ms = known.binance_observed_at_ms;
        observation.polymarket_reference_price = copy_option(&known.polymarket_twap_60s);
        observation.polymarket_reference_at_ms = known.polymarket_observed_at_ms;
    }
    let reasons_a = paper_rejection_reasons(pair, observation, "A");
    let reasons_b = paper_rejection_reasons(pair, observation, "B");
    observation.direction_a_rejections = reasons_a;
    observation.direction_b_rejections = reasons_b;
    proof {
        let after = *observation;
        assert(rejection_reasons(pair@, after, "A"@) == texts_of(reasons_a@));
        assert(rejection_reasons(pair@, after, "B"@) == texts_of(reasons_b@));
    }
}

/// What is remembered between the scans of a run.
#[derive(Debug)]
pub struct PaperState {
    pub signals: ActiveSignals,
    pub executed: PairTable<bool>,
}

impl PaperState {
    pub fn new() -> (result: PaperState)
        ensures
            result.signals@ == Map::<KeyView, ActiveSignal>::empty(),
            result.executed@ == Map::<KeyView, bool>::empty(),
    {
        PaperState { signals: PairTable::new(), executed: PairTable::new() }
    }

    /// Notes that the trade on a key was stored, so that it is not made again.
    pub fn mark_executed(&mut self, slug: &str, direction: &str)
        ensures
            final(self).executed@ == old(self).executed@.insert((slug@, direction@), true),
            final(self).signals@ == old(self).signals@,
    {
        self.executed.insert(slug, direction, true);
    }
}

/// What is to be done about one direction of an observation.
#[derive(Debug)]
pub struct DirectionActions {
    /// The trade to store.
    pub store: Option<PaperTradeView>,
    /// The orders to follow up.
    pub follow_up: Option<ShadowPlan>,
}

/// What is done about one direction of an observation. A trade keeps its signal alive: when
/// the signal is new, the orders of a one-hour market are followed up; once it is confirmed,
/// the trade is stored, unless one was stored before. Without a trade the signal ends.
pub open spec fn direction_decided(
    before: PaperState,
    after: PaperState,
    actions: DirectionActions,
    pair: TrackedView,
    observation: ObservationView,
    direction: Seq<char>,
    plan: Option<ShadowPlan>,
    trade: Option<TradeFigures>,
) -> bool {
    let key = (pair.slug, direction);
    &&& after.executed@ == before.executed@
    &&& match trade {
        None => {
            &&& after.signals@ == before.signals@.remove(key)
            &&& actions.store is None
            &&& actions.follow_up is None
        },
        Some(figures) => {
            let signal = sampled(signal_at(before.signals@, key), observation.observed_at_ms);
            &&& after.signals@ == before.signals@.insert(key, signal)
            &&& actions.follow_up == (if !before.signals@.contains_key(key) && pair.duration
                == "1h"@ {
                plan
            } else {
                None
            })
            &&& match actions.store {
                Some(stored) => confirmed(signal) && !before.executed@.contains_key(key)
                    && shows_trade(stored, figures, pair, observation, direction),
                None => !confirmed(signal) || before.executed@.contains_key(key),
            }
        },
    }
}

/// Whether a trade is what the figures of an observation come to.
pub open spec fn trade_shown(
    trade: Option<PaperTradeView>,
    figures: Option<TradeFigures>,
    pair: TrackedView,
    observation: ObservationView,
    direction: Seq<char>,
) -> bool {
    match figures {
        None => trade is None,
        Some(figures) => trade matches Some(trade) && shows_trade(
            trade,
            figures,
            pair,
            observation,
            direction,
        ),
    }
}

/// Decides about one direction of an observation, given the trade that it comes to.
pub fn decide_trade(
    state: &mut PaperState,
    pair: &TrackedPairView,
    observation: &ObservationView,
    direction: &str,
    plan: Option<ShadowPlan>,
    trade: Option<PaperTradeView>,
) -> (result: DirectionActions)
    ensures
        forall|figures: Option<TradeFigures>|
            #[trigger] trade_shown(trade, figures, pair@, *observation, direction@)
                ==> direction_decided(
                *old(state),
                *final(state),
                result,
                pair@,
                *observation,
                direction@,
                plan,
                figures,
            ),
{
    let slug = pair.slug.as_str();
    match trade {
        None => {
            state.signals.remove(slug, direction);
            DirectionActions { store: None, follow_up: None }
        },
        Some(trade) => {
            let was_active = state.signals.get(slug, direction).is_some();
            let was_executed = state.executed.get(slug, direction).is_some();
            let is_confirmed = record_qualifying_sample(
                &mut state.signals,
                (pair.slug.clone(), direction.to_owned()),
                observation.observed_at_ms,
            );
            let follow_up = if !was_active && same(pair.duration.as_str(), "1h") {
                plan
            } else {
                None
            };
            let store = if is_confirmed && !was_executed {
                Some(trade)
            } else {
                None
            };
            DirectionActions { store, follow_up }
        },
    }
}

/// A trade that was stored is never stored again, however the signal goes on.
pub proof fn trades_are_stored_once(
    before: PaperState,
    after: PaperState,
    actions: DirectionActions,
    pair: TrackedView,
    observation: ObservationView,
    direction: Seq<char>,
    plan: Option<ShadowPlan>,
    trade: Option<TradeFigures>,
)
    requires
        direction_decided(
            before,
            after,
            actions,
            pair,
            observation,
            direction,
            plan,
            trade,
        ),
        before.executed@.contains_key((pair.slug, direction)),
    ensures
        actions.store is None,
        after.executed@.contains_key((pair.slug, direction)),
{
}

/// Annotating an observation takes the prices and times of each venue from the reference of the
/// same venue, where there is one; it leaves every figure as it was and lists the reasons against
/// each direction that then hold.
pub proof fn annotations_keep_the_figures(
    after: ObservationView,
    before: ObservationView,
    pair: TrackedView,
    reference: Option<ReferencePriceView>,
)
    requires
        annotated(after, before, pair, reference),
    ensures
        reference matches Some(known) ==> {
            &&& text_of(after.binance_reference_price) == text_of(known.binance_spot_price)
            &&& after.binance_reference_at_ms == known.binance_observed_at_ms
            &&& text_of(after.polymarket_reference_price) == text_of(known.polymarket_twap_60s)
            &&& after.polymarket_reference_at_ms == known.polymarket_observed_at_ms
        },
        reference is None ==> {
            &&& text_of(after.binance_reference_price) == text_of(before.binance_reference_price)
            &&& after.binance_reference_at_ms == before.binance_reference_at_ms
            &&& text_of(after.polymarket_reference_price) == text_of(
                before.polymarket_reference_price,
            )
            &&& after.polymarket_reference_at_ms == before.polymarket_reference_at_ms
        },
        text_of(after.direction_a_net_edge) == text_of(before.direction_a_net_edge),
        text_of(after.direction_b_net_edge) == text_of(before.direction_b_net_edge),
        text_of(after.direction_a_cost) == text_of(before.direction_a_cost),
        text_of(after.direction_b_cost) == text_of(before.direction_b_cost),
        text_of(after.direction_a_size) == text_of(before.direction_a_size),
        text_of(after.direction_b_size) == text_of(before.direction_b_size),
        text_of(after.binance_up_ask) == text_of(before.binance_up_ask),
        text_of(after.binance_down_ask) == text_of(before.binance_down_ask),
        text_of(after.polymarket_up_ask) == text_of(before.polymarket_up_ask),
        text_of(after.polymarket_down_ask) == text_of(before.polymarket_down_ask),
        after.remaining_time_ms == before.remaining_time_ms,
        after.observed_at_ms == before.observed_at_ms,
        texts_of(after.direction_a_rejections@) == rejection_reasons(pair, after, "A"@),
        texts_of(after.direction_b_rejections@) == rejection_reasons(pair, after, "B"@),
{
    reveal_strlit("A");
    reveal_strlit("B");
    assert("A"@[0] != "B"@[0]);
    let (x, y) = (seen_in(after, "A"@), seen_in(before, "A"@));
    assert(x.net_edge == y.net_edge && x.cost == y.cost && x.size == y.size);
    assert(x.first_leg == y.first_leg && x.second_leg == y.second_leg);
    let (z, w) = (seen_in(after, "B"@), seen_in(before, "B"@));
    assert(z.net_edge == w.net_edge && z.cost == w.cost && z.size == w.size);
    assert(z.first_leg == w.first_leg && z.second_leg == w.second_leg);
}

} // verus!
