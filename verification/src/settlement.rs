//! How markets were settled on both venues, and what simulated trades paid.
use vstd::prelude::*;

use crate::binance::BinanceMarketDetail;
use crate::decimal::{
    decimal_text, difference, difference_miss, minus, parsed_decimal, product, product_miss,
    view_of, whole, whole_units, zero, Decimal, DecimalView,
};
use crate::figures::{close, fine};
use crate::pairs::{find_market, market_from};
use crate::polymarket::PolymarketEvent;
use crate::quotes::number_of;
use crate::text::{copy_option, eq_ignore_ascii_case, same, same_ignoring_case, text_of};

verus! {

/// A market whose settlement is still to be looked up.
#[derive(Clone, Debug)]
pub struct PendingSettlement {
    pub slug: String,
    pub binance_topic_id: i64,
}

/// What both venues say about the settlement of a market.
#[derive(Clone, Debug)]
pub struct SettlementUpdate {
    pub slug: String,
    pub binance_status: String,
    pub binance_start_price: Option<String>,
    pub binance_end_price: Option<String>,
    pub binance_outcome: Option<String>,
    pub polymarket_status: String,
    pub polymarket_price_to_beat: Option<String>,
    pub polymarket_final_price: Option<String>,
    pub polymarket_outcome: Option<String>,
    pub relationship: String,
    pub checked_at_ms: i64,
}

/// A settlement as it is shown.
#[derive(Clone, Debug)]
pub struct SettlementView {
    pub slug: String,
    pub asset: String,
    pub duration: String,
    pub classification: String,
    pub end_ms: i64,
    pub binance_status: String,
    pub binance_start_price: Option<String>,
    pub binance_end_price: Option<String>,
    pub binance_outcome: Option<String>,
    pub polymarket_status: String,
    pub polymarket_price_to_beat: Option<String>,
    pub polymarket_final_price: Option<String>,
    pub polymarket_outcome: Option<String>,
    pub relationship: String,
    pub checked_at_ms: i64,
}

/// The outcome that the prices at the start and at the end of a market stand for, where both
/// are known.
pub open spec fn price_outcome(start: Option<Seq<char>>, end: Option<Seq<char>>) -> Option<
    Seq<char>,
> {
    match (number_of(start), number_of(end)) {
        (Some(start), Some(end)) => Some(
            if start.lt(end) {
                "Up"@
            } else if end.lt(start) {
                "Down"@
            } else {
                "Split"@
            },
        ),
        _ => None,
    }
}

pub open spec fn chars_of(text: Option<&str>) -> Option<Seq<char>> {
    match text {
        Some(text) => Some(text@),
        None => None,
    }
}

/// The outcome of a market by its prices.
pub fn binance_outcome(start_price: Option<&str>, end_price: Option<&str>) -> (result: Option<
    String,
>)
    ensures
        text_of(result) == price_outcome(chars_of(start_price), chars_of(end_price)),
{
    let start = Decimal::parse(start_price?)?;
    let end = Decimal::parse(end_price?)?;
    if start.less(&end) {
        Some("Up".to_owned())
    } else if end.less(&start) {
        Some("Down".to_owned())
    } else {
        Some("Split".to_owned())
    }
}

/// How the outcomes of both venues relate.
pub open spec fn relationship_of(binance: Option<Seq<char>>, polymarket: Option<Seq<char>>) -> Seq<
    char,
> {
    match (binance, polymarket) {
        (Some(left), Some(right)) => if same_ignoring_case(left, right) {
            "matching"@
        } else {
            "divergent"@
        },
        _ => "pending"@,
    }
}

/// The market of an event that a settlement is about: the one under the slug, else the first.
pub open spec fn settled_market(event: PolymarketEvent, slug: Seq<char>) -> Option<int> {
    match market_from(event.markets@, slug, 0) {
        Some(position) => Some(position),
        None => if event.markets@.len() > 0 {
            Some(0)
        } else {
            None
        },
    }
}

/// The settlement that both venues report, or why it cannot be told.
pub open spec fn settlement_outcome(event: Option<PolymarketEvent>, slug: Seq<char>) -> Result<
    (PolymarketEvent, int, Option<Seq<char>>),
    Seq<char>,
> {
    match event {
        None => Err("Polymarket 缺少事件："@ + slug),
        Some(event) => match settled_market(event, slug) {
            None => Err("Polymarket 事件缺少市场："@ + slug),
            Some(position) => match event.markets@[position].resolution() {
                Err(fault) => Err(fault.words()),
                Ok(outcome) => Ok((event, position, outcome)),
            },
        },
    }
}

pub open spec fn optional_price(price: Option<Decimal>) -> Option<Seq<char>> {
    match view_of(price) {
        Some(number) => Some(decimal_text(number)),
        None => None,
    }
}

/// An update shows the settlement of a market on both venues.
pub open spec fn shows_settlement(
    update: SettlementUpdate,
    slug: Seq<char>,
    detail: BinanceMarketDetail,
    event: PolymarketEvent,
    position: int,
    outcome: Option<Seq<char>>,
    checked_at_ms: i64,
) -> bool {
    let market = event.markets@[position];
    let by_price = price_outcome(
        text_of(detail.variant_data.start_price),
        text_of(detail.variant_data.end_price),
    );
    &&& update.slug@ == slug
    &&& update.binance_status@ == detail.status@
    &&& text_of(update.binance_start_price) == text_of(detail.variant_data.start_price)
    &&& text_of(update.binance_end_price) == text_of(detail.variant_data.end_price)
    &&& text_of(update.binance_outcome) == by_price
    &&& update.polymarket_status@ == (match text_of(market.uma_resolution_status) {
        Some(status) => status,
        None => if event.closed {
            "closed"@
        } else {
            "open"@
        },
    })
    &&& text_of(update.polymarket_price_to_beat) == (match event.event_metadata {
        Some(metadata) => optional_price(metadata.price_to_beat),
        None => None,
    })
    &&& text_of(update.polymarket_final_price) == (match event.event_metadata {
        Some(metadata) => optional_price(metadata.final_price),
        None => None,
    })
    &&& text_of(update.polymarket_outcome) == outcome
    &&& update.relationship@ == relationship_of(by_price, outcome)
    &&& update.checked_at_ms == checked_at_ms
}

fn price_text(price: Option<Decimal>) -> (result: Option<String>)
    ensures
        text_of(result) == optional_price(price),
{
    match price {
        Some(number) => Some(number.text()),
        None => None,
    }
}

fn option_str(text: &Option<String>) -> (result: Option<&str>)
    ensures
        chars_of(result) == text_of(*text),
{
    match text {
        Some(text) => Some(text.as_str()),
        None => None,
    }
}

/// The settlement of a market as both venues report it.
pub fn settlement_update(
    slug: &str,
    detail: &BinanceMarketDetail,
    event: &Option<PolymarketEvent>,
    checked_at_ms: i64,
) -> (result: Result<SettlementUpdate, String>)
    ensures
        match settlement_outcome(*event, slug@) {
            Err(words) => result matches Err(error) && error@ == words,
            Ok((event, position, outcome)) => result matches Ok(update) && shows_settlement(
                update,
                slug@,
                *detail,
                event,
                position,
                outcome,
                checked_at_ms,
            ),
        },
{
    let event = match event {
        Some(event) => event,
        None => return Err("Polymarket 缺少事件：".to_owned().concat(slug)),
    };
    let position: usize = match find_market(&event.markets, slug) {
        Some(position) => position,
        None => {
            if event.markets.len() == 0 {
                return Err("Polymarket 事件缺少市场：".to_owned().concat(slug));
            }
            0
        },
    };
    let market = &event.markets[position];
    let by_price = binance_outcome(
        option_str(&detail.variant_data.start_price),
        option_str(&detail.variant_data.end_price),
    );
    let polymarket_outcome = match market.resolved_outcome() {
        Ok(outcome) => outcome,
        Err(error) => return Err(error.message()),
    };
    let relationship = match (&by_price, &polymarket_outcome) {
        (Some(left), Some(right)) => {
            if eq_ignore_ascii_case(left.as_str(), right.as_str()) {
                "matching".to_owned()
            } else {
                "divergent".to_owned()
            }
        },
        _ => "pending".to_owned(),
    };
    let polymarket_status = match &market.uma_resolution_status {
        Some(status) => status.clone(),
        None => {
            if event.closed {
                "closed".to_owned()
            } else {
                "open".to_owned()
            }
        },
    };
    let (price_to_beat, final_price) = match &event.event_metadata {
        Some(metadata) => (metadata.price_to_beat, metadata.final_price),
        None => (None, None),
    };
    Ok(
        SettlementUpdate {
            slug: slug.to_owned(),
            binance_status: detail.status.clone(),
            binance_start_price: copy_option(&detail.variant_data.start_price),
            binance_end_price: copy_option(&detail.variant_data.end_price),
            binance_outcome: by_price,
            polymarket_status,
            polymarket_price_to_beat: price_text(price_to_beat),
            polymarket_final_price: price_text(final_price),
            polymarket_outcome,
            relationship,
            checked_at_ms,
        },
    )
}

/// The relation of two outcomes does not depend on the venue that is named first.
pub proof fn relationship_is_symmetric(left: Option<Seq<char>>, right: Option<Seq<char>>)
    ensures
        relationship_of(left, right) == relationship_of(right, left),
{
    if left is Some && right is Some {
        let a = left->0;
        let b = right->0;
        if same_ignoring_case(a, b) {
            assert forall|i: int| 0 <= i < b.len() implies crate::text::lower_char(
                #[trigger] b[i],
            ) == crate::text::lower_char(a[i]) by {
                assert(crate::text::lower_char(a[i]) == crate::text::lower_char(b[i]));
            }
        }
        if same_ignoring_case(b, a) {
            assert forall|i: int| 0 <= i < a.len() implies crate::text::lower_char(
                #[trigger] a[i],
            ) == crate::text::lower_char(b[i]) by {
                assert(crate::text::lower_char(b[i]) == crate::text::lower_char(a[i]));
            }
        }
    }
}

/// The outcomes that a trade bought: on Binance, then on Polymarket.
pub open spec fn bought_outcomes(direction: Seq<char>) -> (Seq<char>, Seq<char>) {
    if direction == "A"@ {
        ("Up"@, "Down"@)
    } else {
        ("Down"@, "Up"@)
    }
}

/// How many legs of a trade won.
pub open spec fn winning_legs(
    direction: Seq<char>,
    binance_outcome: Seq<char>,
    polymarket_outcome: Seq<char>,
) -> int {
    let (binance_leg, polymarket_leg) = bought_outcomes(direction);
    let first: int = if same_ignoring_case(binance_outcome, binance_leg) {
        1
    } else {
        0
    };
    let second: int = if same_ignoring_case(polymarket_outcome, polymarket_leg) {
        1
    } else {
        0
    };
    first + second
}

/// What a trade pays: one per share of every leg that won. `None` on overflow.
pub open spec fn payout_of(
    direction: Seq<char>,
    quantity: DecimalView,
    binance_outcome: Seq<char>,
    polymarket_outcome: Seq<char>,
) -> Option<DecimalView> {
    product(quantity, whole(winning_legs(direction, binance_outcome, polymarket_outcome)))
}

/// What a trade pays; `None` on overflow.
pub fn checked_paper_trade_payout(
    direction: &str,
    quantity: Decimal,
    binance_outcome: &str,
    polymarket_outcome: &str,
) -> (result: Option<Decimal>)
    ensures
        view_of(result) == payout_of(
            direction@,
            quantity@,
            binance_outcome@,
            polymarket_outcome@,
        ),
{
    let (binance_leg, polymarket_leg) = if same(direction, "A") {
        ("Up", "Down")
    } else {
        ("Down", "Up")
    };
    let first: i64 = if eq_ignore_ascii_case(binance_outcome, binance_leg) {
        1
    } else {
        0
    };
    let second: i64 = if eq_ignore_ascii_case(polymarket_outcome, polymarket_leg) {
        1
    } else {
        0
    };
    quantity.checked_mul(Decimal::from_i64(first + second))
}

/// What a trade pays.
pub fn paper_trade_payout(
    direction: &str,
    quantity: Decimal,
    binance_outcome: &str,
    polymarket_outcome: &str,
) -> (result: Decimal)
    requires
        payout_of(direction@, quantity@, binance_outcome@, polymarket_outcome@) is Some,
    ensures
        Some(result@) == payout_of(
            direction@,
            quantity@,
            binance_outcome@,
            polymarket_outcome@,
        ),
{
    checked_paper_trade_payout(direction, quantity, binance_outcome, polymarket_outcome).unwrap()
}

/// An open trade as it is stored.
#[derive(Clone, Debug)]
pub struct OpenTrade {
    pub id: i64,
    pub direction: String,
    pub quantity: String,
    pub total_cost: String,
    pub total_fees: String,
    pub total_risk_buffers: String,
}

/// What a settled trade came to, in decimal notation.
#[derive(Clone, Debug)]
pub struct TradeSettlement {
    pub id: i64,
    pub actual_payout: String,
    pub realized_profit: String,
}

/// What a stored trade comes to: the payout, and what is left of it after cost, fees and
/// buffers. The outer `None` is an overflow, the inner one a trade whose numbers cannot be
/// read.
pub open spec fn settled_trade(
    trade: OpenTrade,
    binance_outcome: Seq<char>,
    polymarket_outcome: Seq<char>,
) -> Option<Option<(DecimalView, DecimalView)>> {
    match (
        parsed_decimal(trade.quantity@),
        parsed_decimal(trade.total_cost@),
        parsed_decimal(trade.total_fees@),
        parsed_decimal(trade.total_risk_buffers@),
    ) {
        (Some(quantity), Some(cost), Some(fees), Some(buffers)) => {
            let payout = payout_of(
                trade.direction@,
                quantity,
                binance_outcome,
                polymarket_outcome,
            );
            match (payout, minus(minus(minus(payout, Some(cost)), Some(fees)), Some(buffers))) {
                (Some(payout), Some(profit)) => Some(Some((payout, profit))),
                _ => None,
            }
        },
        _ => Some(None),
    }
}

/// Settles a stored trade; the outer `None` is an overflow.
pub fn settle_trade(trade: &OpenTrade, binance_outcome: &str, polymarket_outcome: &str) -> (result:
    Option<Option<TradeSettlement>>)
    ensures
        match settled_trade(*trade, binance_outcome@, polymarket_outcome@) {
            None => result is None,
            Some(None) => result matches Some(None),
            Some(Some((payout, profit))) => result matches Some(Some(settlement)) && {
                &&& settlement.id == trade.id
                &&& settlement.actual_payout@ == decimal_text(payout)
                &&& settlement.realized_profit@ == decimal_text(profit)
            },
        },
{
    let (quantity, cost, fees, buffers) = match (
        Decimal::parse(trade.quantity.as_str()),
        Decimal::parse(trade.total_cost.as_str()),
        Decimal::parse(trade.total_fees.as_str()),
        Decimal::parse(trade.total_risk_buffers.as_str()),
    ) {
        (Some(quantity), Some(cost), Some(fees), Some(buffers)) => (quantity, cost, fees, buffers),
        _ => {
            return Some(None);
        },
    };
    let payout = checked_paper_trade_payout(
        trade.direction.as_str(),
        quantity,
        binance_outcome,
        polymarket_outcome,
    )?;
    let profit = payout.checked_sub(cost)?.checked_sub(fees)?.checked_sub(buffers)?;
    Some(
        Some(
            TradeSettlement {
                id: trade.id,
                actual_payout: payout.text(),
                realized_profit: profit.text(),
            },
        ),
    )
}

/// What settling the trades from `start` on comes to: a line for every trade whose numbers can
/// be read, in their order. `None` on overflow.
pub open spec fn settled_from(
    trades: Seq<OpenTrade>,
    start: int,
    binance_outcome: Seq<char>,
    polymarket_outcome: Seq<char>,
) -> Option<Seq<(i64, DecimalView, DecimalView)>>
    decreases trades.len() - start,
{
    if start < 0 || start >= trades.len() {
        Some(Seq::empty())
    } else {
        match (
            settled_trade(trades[start], binance_outcome, polymarket_outcome),
            settled_from(trades, start + 1, binance_outcome, polymarket_outcome),
        ) {
            (Some(None), Some(rest)) => Some(rest),
            (Some(Some((payout, profit))), Some(rest)) => Some(
                seq![(trades[start].id, payout, profit)] + rest,
            ),
            _ => None,
        }
    }
}

/// What settling the open trades of a market comes to: nothing before both outcomes are known.
/// `None` on overflow.
pub open spec fn settlements_of(update: SettlementUpdate, trades: Seq<OpenTrade>) -> Option<
    Seq<(i64, DecimalView, DecimalView)>,
> {
    match (text_of(update.binance_outcome), text_of(update.polymarket_outcome)) {
        (Some(binance), Some(polymarket)) => settled_from(trades, 0, binance, polymarket),
        _ => Some(Seq::empty()),
    }
}

pub open spec fn shows_settled(
    settlements: Seq<TradeSettlement>,
    lines: Seq<(i64, DecimalView, DecimalView)>,
) -> bool {
    &&& settlements.len() == lines.len()
    &&& forall|k: int|
        0 <= k < lines.len() ==> {
            &&& (#[trigger] settlements[k]).id == lines[k].0
            &&& settlements[k].actual_payout@ == decimal_text(lines[k].1)
            &&& settlements[k].realized_profit@ == decimal_text(lines[k].2)
        }
}

proof fn lemma_settling_fails(
    trades: Seq<OpenTrade>,
    start: int,
    place: int,
    binance_outcome: Seq<char>,
    polymarket_outcome: Seq<char>,
)
    requires
        0 <= start <= place < trades.len(),
        settled_trade(trades[place], binance_outcome, polymarket_outcome) is None,
    ensures
        settled_from(trades, start, binance_outcome, polymarket_outcome) is None,
    decreases place - start,
{
    if start < place {
        lemma_settling_fails(trades, start + 1, place, binance_outcome, polymarket_outcome);
    }
}

/// Settles the open trades of a market by what both venues report; `None` on overflow.
pub fn settle_paper_trades(update: &SettlementUpdate, trades: &Vec<OpenTrade>) -> (result: Option<
    Vec<TradeSettlement>,
>)
    ensures
        match settlements_of(*update, trades@) {
            None => result is None,
            Some(lines) => result matches Some(settlements) && shows_settled(
                settlements@,
                lines,
            ),
        },
{
    let mut settlements: Vec<TradeSettlement> = Vec::new();
    let (binance, polymarket) = match (&update.binance_outcome, &update.polymarket_outcome) {
        (Some(binance), Some(polymarket)) => (binance.as_str(), polymarket.as_str()),
        _ => {
            return Some(settlements);
        },
    };
    let ghost mut lines: Seq<(i64, DecimalView, DecimalView)> = Seq::empty();
    let mut i: usize = 0;
    proof {
        let all = settled_from(trades@, 0, binance@, polymarket@);
        assert(all is Some ==> all->0 =~= lines + all->0);
    }
    while i < trades.len()
        invariant
            i <= trades@.len(),
            shows_settled(settlements@, lines),
            settlements_of(*update, trades@) == settled_from(trades@, 0, binance@, polymarket@),
            ({
                let all = settled_from(trades@, 0, binance@, polymarket@);
                let rest = settled_from(trades@, i as int, binance@, polymarket@);
                &&& all is None <==> rest is None
                &&& all is Some ==> all->0 == lines + rest->0
            }),
        decreases trades@.len() - i,
    {
        let settled = match settle_trade(&trades[i], binance, polymarket) {
            Some(settled) => settled,
            None => {
                proof {
                    lemma_settling_fails(trades@, 0, i as int, binance@, polymarket@);
                }
                return None;
            },
        };
        let ghost rest = settled_from(trades@, i + 1, binance@, polymarket@);
        match settled {
            Some(settlement) => {
                proof {
                    let figures = settled_trade(trades@[i as int], binance@, polymarket@)->0->0;
                    let line = (trades@[i as int].id, figures.0, figures.1);
                    if rest is Some {
                        assert(lines + (seq![line] + rest->0) =~= lines.push(line) + rest->0);
                    }
                    lines = lines.push(line);
                }
                settlements.push(settlement);
            },
            None => {},
        }
        i = i + 1;
    }
    proof {
        assert(lines + Seq::<(i64, DecimalView, DecimalView)>::empty() =~= lines);
    }
    Some(settlements)
}

proof fn lemma_outcomes_differ(outcome: Seq<char>)
    ensures
        !(same_ignoring_case(outcome, "Up"@) && same_ignoring_case(outcome, "Down"@)),
{
    reveal_strlit("Up");
    reveal_strlit("Down");
}

proof fn lemma_share_pays_itself(quantity: DecimalView)
    requires
        quantity.valid(),
    ensures
        product(quantity, whole(1)) matches Some(pay) && pay.same(quantity),
{
    assert(quantity.mantissa * 1 == quantity.mantissa) by (nonlinear_arith);
    crate::decimal::zero_units();
    crate::decimal::positive_units(quantity);
}

/// Where both venues settle an event alike, exactly one leg of a trade wins, in either
/// direction, and the trade pays its quantity: one per pair of shares.
pub proof fn matching_settlement_pays_quantity(
    direction: Seq<char>,
    quantity: DecimalView,
    outcome: Seq<char>,
)
    requires
        quantity.valid(),
        same_ignoring_case(outcome, "Up"@) || same_ignoring_case(outcome, "Down"@),
    ensures
        winning_legs(direction, outcome, outcome) == 1,
        payout_of(direction, quantity, outcome, outcome) matches Some(pay) && pay.same(quantity),
{
    lemma_outcomes_differ(outcome);
    lemma_share_pays_itself(quantity);
}

/// Where the venues settle an event differently, both legs win or neither does, and which it is
/// depends on the direction.
pub proof fn divergent_settlement_pays_all_or_nothing(
    direction: Seq<char>,
    quantity: DecimalView,
    binance_outcome: Seq<char>,
    polymarket_outcome: Seq<char>,
)
    requires
        same_ignoring_case(binance_outcome, "Up"@) && same_ignoring_case(
            polymarket_outcome,
            "Down"@,
        ) || same_ignoring_case(binance_outcome, "Down"@) && same_ignoring_case(
            polymarket_outcome,
            "Up"@,
        ),
    ensures
        winning_legs(direction, binance_outcome, polymarket_outcome) == 2 <==> (direction == "A"@
            <==> same_ignoring_case(binance_outcome, "Up"@)),
        winning_legs(direction, binance_outcome, polymarket_outcome) == 0 || winning_legs(
            direction,
            binance_outcome,
            polymarket_outcome,
        ) == 2,
        winning_legs(direction, binance_outcome, polymarket_outcome) == 0 ==> payout_of(
            direction,
            quantity,
            binance_outcome,
            polymarket_outcome,
        ) == Some(zero()),
{
    lemma_outcomes_differ(binance_outcome);
    lemma_outcomes_differ(polymarket_outcome);
}

/// A leg wins at most once: a trade pays for no more than its two legs.
pub proof fn at_most_two_legs_win(
    direction: Seq<char>,
    binance_outcome: Seq<char>,
    polymarket_outcome: Seq<char>,
)
    ensures
        0 <= winning_legs(direction, binance_outcome, polymarket_outcome) <= 2,
{
}

/// A market goes Up exactly where it ends above its start, Down where it ends below, and is split
/// where it ends as it began; without both prices nothing is known of it.
pub proof fn prices_decide_the_outcome(start: Option<Seq<char>>, end: Option<Seq<char>>)
    ensures
        match (number_of(start), number_of(end)) {
            (Some(first), Some(last)) => {
                &&& last.units() > first.units() ==> price_outcome(start, end) == Some("Up"@)
                &&& last.units() < first.units() ==> price_outcome(start, end) == Some("Down"@)
                &&& last.units() == first.units() ==> price_outcome(start, end) == Some("Split"@)
            },
            _ => price_outcome(start, end) is None,
        },
{
}

/// Two outcomes match exactly where both are known and the same up to case, diverge where both
/// are known and differ, and are pending otherwise.
pub proof fn outcomes_relate_once_both_are_known(
    binance: Option<Seq<char>>,
    polymarket: Option<Seq<char>>,
)
    ensures
        ({
            let known = binance is Some && polymarket is Some;
            let alike = known && same_ignoring_case(binance->0, polymarket->0);
            &&& alike ==> relationship_of(binance, polymarket) == "matching"@
            &&& known && !alike ==> relationship_of(binance, polymarket) == "divergent"@
            &&& !known ==> relationship_of(binance, polymarket) == "pending"@
        }),
{
}

/// A leg that was bought on an outcome wins.
pub open spec fn wins(outcome: Seq<char>, bought: Seq<char>) -> int {
    if same_ignoring_case(outcome, bought) {
        1
    } else {
        0
    }
}

/// A trade pays its quantity for each leg that wins: in direction A for Up on Binance and for
/// Down on Polymarket, in every other direction for Down on Binance and for Up on Polymarket.
pub proof fn each_winning_leg_pays_the_quantity(
    direction: Seq<char>,
    quantity: DecimalView,
    binance_outcome: Seq<char>,
    polymarket_outcome: Seq<char>,
    payout: DecimalView,
)
    requires
        payout_of(direction, quantity, binance_outcome, polymarket_outcome) == Some(payout),
    ensures
        ({
            let legs = if direction == "A"@ {
                wins(binance_outcome, "Up"@) + wins(polymarket_outcome, "Down"@)
            } else {
                wins(binance_outcome, "Down"@) + wins(polymarket_outcome, "Up"@)
            };
            close(fine(payout), legs * fine(quantity), product_miss(quantity, whole(legs)))
        }),
{
    let legs = winning_legs(direction, binance_outcome, polymarket_outcome);
    whole_units(legs);
    let (q, k) = (quantity.units(), whole(1).units());
    assert(q * (legs * k) == legs * (q * k)) by (nonlinear_arith);
}

/// What settling a trade leaves is its payout less its cost, its fees and its buffers, up to the
/// rounding of each difference; a trade of which a number cannot be read is left alone.
pub proof fn settled_trades_add_up(
    trade: OpenTrade,
    binance_outcome: Seq<char>,
    polymarket_outcome: Seq<char>,
)
    ensures
        match (
            parsed_decimal(trade.quantity@),
            parsed_decimal(trade.total_cost@),
            parsed_decimal(trade.total_fees@),
            parsed_decimal(trade.total_risk_buffers@),
        ) {
            (Some(quantity), Some(cost), Some(fees), Some(buffers)) => match settled_trade(
                trade,
                binance_outcome,
                polymarket_outcome,
            ) {
                Some(Some((payout, profit))) => {
                    let first = difference(payout, cost)->0;
                    let second = difference(first, fees)->0;
                    &&& payout_of(
                        trade.direction@,
                        quantity,
                        binance_outcome,
                        polymarket_outcome,
                    ) == Some(payout)
                    &&& close(
                        profit.units(),
                        payout.units() - cost.units() - fees.units() - buffers.units(),
                        difference_miss(payout, cost) + difference_miss(first, fees)
                            + difference_miss(second, buffers),
                    )
                },
                Some(None) => false,
                None => true,
            },
            _ => settled_trade(trade, binance_outcome, polymarket_outcome) == Some(
                None::<(DecimalView, DecimalView)>,
            ),
        },
{
}

/// Each open trade is settled for itself: settling the trades from one on is settling that one
/// and then the others, and none is settled before both outcomes are known.
pub proof fn trades_are_settled_one_by_one(
    update: SettlementUpdate,
    trades: Seq<OpenTrade>,
    place: int,
    lines: Seq<(i64, DecimalView, DecimalView)>,
)
    requires
        settlements_of(update, trades) == Some(lines),
        0 <= place < trades.len(),
    ensures
        update.binance_outcome is None || update.polymarket_outcome is None ==> lines.len() == 0,
        update.binance_outcome is Some && update.polymarket_outcome is Some ==> (
        match settled_trade(
            trades[place],
            update.binance_outcome->0@,
            update.polymarket_outcome->0@,
        ) {
            Some(Some((payout, profit))) => lines.contains((trades[place].id, payout, profit)),
            Some(None) => true,
            None => false,
        }),
        lines.len() <= trades.len(),
{
    if update.binance_outcome is Some && update.polymarket_outcome is Some {
        lemma_settled_one_by_one(
            trades,
            0,
            place,
            update.binance_outcome->0@,
            update.polymarket_outcome->0@,
        );
    }
}

proof fn lemma_settled_one_by_one(
    trades: Seq<OpenTrade>,
    start: int,
    place: int,
    binance: Seq<char>,
    polymarket: Seq<char>,
)
    requires
        0 <= start <= place < trades.len(),
        settled_from(trades, start, binance, polymarket) is Some,
    ensures
        match settled_trade(trades[place], binance, polymarket) {
            Some(Some((payout, profit))) => settled_from(
                trades,
                start,
                binance,
                polymarket,
            )->0.contains((trades[place].id, payout, profit)),
            Some(None) => true,
            None => false,
        },
        settled_from(trades, start, binance, polymarket)->0.len() <= trades.len() - start,
    decreases trades.len() - start,
{
    let all = settled_from(trades, start, binance, polymarket)->0;
    let rest = settled_from(trades, start + 1, binance, polymarket)->0;
    if start + 1 < trades.len() {
        let next = if place > start {
            place
        } else {
            start + 1
        };
        lemma_settled_one_by_one(trades, start + 1, next, binance, polymarket);
    }
    if let Some(Some((payout, profit))) = settled_trade(trades[start], binance, polymarket) {
        assert(all[0] == (trades[start].id, payout, profit));
    }
    if place > start {
        if let Some(Some((payout, profit))) = settled_trade(trades[place], binance, polymarket) {
            let line = (trades[place].id, payout, profit);
            let at = rest.index_of(line);
            if all.len() == rest.len() + 1 {
                assert(all[at + 1] == line);
            } else {
                assert(all[at] == line);
            }
        }
    }
}

/// A settlement is about the first market of the event under the slug, else about its first
/// market, and there is none only of an event without markets.
pub proof fn settlements_are_about_the_slug(event: PolymarketEvent, slug: Seq<char>)
    ensures
        match settled_market(event, slug) {
            Some(place) => {
                &&& 0 <= place < event.markets@.len()
                &&& event.markets@[place].slug@ == slug || place == 0
                &&& event.markets@[place].slug@ != slug ==> forall|i: int|
                    0 <= i < event.markets@.len() ==> #[trigger] event.markets@[i].slug@ != slug
            },
            None => event.markets@.len() == 0,
        },
{
    lemma_market_found(event.markets@, slug, 0);
}

proof fn lemma_market_found(
    markets: Seq<crate::polymarket::PolymarketMarket>,
    slug: Seq<char>,
    start: int,
)
    requires
        0 <= start <= markets.len(),
    ensures
        match market_from(markets, slug, start) {
            Some(place) => start <= place < markets.len() && markets[place].slug@ == slug,
            None => forall|i: int|
                start <= i < markets.len() ==> #[trigger] markets[i].slug@ != slug,
        },
    decreases markets.len() - start,
{
    if start < markets.len() {
        lemma_market_found(markets, slug, start + 1);
    }
}

/// An update is consistent in itself: its Binance outcome is that of the prices it shows, and the
/// relation that of the two outcomes it shows.
pub proof fn updates_are_consistent(
    update: SettlementUpdate,
    slug: Seq<char>,
    detail: BinanceMarketDetail,
    event: PolymarketEvent,
    position: int,
    outcome: Option<Seq<char>>,
    checked_at_ms: i64,
)
    requires
        shows_settlement(update, slug, detail, event, position, outcome, checked_at_ms),
    ensures
        ({
            let start = number_of(text_of(update.binance_start_price));
            let end = number_of(text_of(update.binance_end_price));
            &&& update.binance_outcome is Some <==> start is Some && end is Some
            &&& start is Some && end is Some ==> {
                &&& end->0.units() > start->0.units() ==> update.binance_outcome->0@ == "Up"@
                &&& end->0.units() < start->0.units() ==> update.binance_outcome->0@ == "Down"@
                &&& end->0.units() == start->0.units() ==> update.binance_outcome->0@ == "Split"@
            }
        }),
        text_of(update.binance_start_price) == text_of(detail.variant_data.start_price),
        text_of(update.binance_end_price) == text_of(detail.variant_data.end_price),
        text_of(update.polymarket_outcome) == outcome,
        update.slug@ == slug,
        update.binance_status@ == detail.status@,
        update.checked_at_ms == checked_at_ms,
        event.markets@[position].uma_resolution_status matches Some(status)
            ==> update.polymarket_status@ == status@,
        event.markets@[position].uma_resolution_status is None && event.closed
            ==> update.polymarket_status@ == "closed"@,
        event.markets@[position].uma_resolution_status is None && !event.closed
            ==> update.polymarket_status@ == "open"@,
        event.event_metadata matches Some(metadata) ==> {
            &&& metadata.price_to_beat matches Some(price) ==> text_of(
                update.polymarket_price_to_beat,
            ) == Some(decimal_text(price@))
            &&& metadata.final_price matches Some(price) ==> text_of(update.polymarket_final_price)
                == Some(decimal_text(price@))
        },
        ({
            let known = update.binance_outcome is Some && update.polymarket_outcome is Some;
            let alike = known && same_ignoring_case(
                update.binance_outcome->0@,
                update.polymarket_outcome->0@,
            );
            &&& alike ==> update.relationship@ == "matching"@
            &&& known && !alike ==> update.relationship@ == "divergent"@
            &&& !known ==> update.relationship@ == "pending"@
        }),
{
}

/// Each open trade that can be settled is settled under its own id, with what its legs paid and
/// what that leaves of it.
pub proof fn settlements_show_payout_and_profit(
    update: SettlementUpdate,
    trades: Seq<OpenTrade>,
    place: int,
    lines: Seq<(i64, DecimalView, DecimalView)>,
    settlements: Seq<TradeSettlement>,
)
    requires
        settlements_of(update, trades) == Some(lines),
        shows_settled(settlements, lines),
        0 <= place < trades.len(),
        update.binance_outcome is Some,
        update.polymarket_outcome is Some,
        settled_trade(
            trades[place],
            update.binance_outcome->0@,
            update.polymarket_outcome->0@,
        ) matches Some(Some(_)),
    ensures
        ({
            let (payout, profit) = settled_trade(
                trades[place],
                update.binance_outcome->0@,
                update.polymarket_outcome->0@,
            )->0->0;
            exists|k: int|
                0 <= k < settlements.len() && {
                    &&& (#[trigger] settlements[k]).id == trades[place].id
                    &&& settlements[k].actual_payout@ == decimal_text(payout)
                    &&& settlements[k].realized_profit@ == decimal_text(profit)
                }
        }),
{
    trades_are_settled_one_by_one(update, trades, place, lines);
    let (payout, profit) = settled_trade(
        trades[place],
        update.binance_outcome->0@,
        update.polymarket_outcome->0@,
    )->0->0;
    let k = choose|k: int| 0 <= k < lines.len() && lines[k] == (trades[place].id, payout, profit);
    assert(settlements[k].id == lines[k].0);
}

} // verus!
