//! Which books a scan uses for what: each direction buys complementary outcomes on different
//! venues.
use vstd::prelude::*;

use crate::binance::{level_ladder, BinanceFault, BinanceMarketDetail, BinanceOrderBook, BinanceOutcome};
use crate::cross::{
    cross, cross_purchase_is_that_of_its_orders, internal, internal_rejections,
    BinanceInternalView, PurchaseFigures, ShadowPlan,
};
use crate::decimal::{
    decimal_text, has_quotient, is_quotient, pow10, quotient, quotients_are_close, whole, whole_units,
    DecimalView,
};
use crate::domain::OrderStatus;
use crate::execution::{fok, RequestView};
use crate::figures::internal_purchase_is_that_of_its_orders;
use crate::ladder::LevelView;
use crate::pairs::TrackedPair;
use crate::polymarket::{PolymarketFault, PolymarketOrderBook};
use crate::scan::{
    book_tokens_of, direction_outcome, direction_tokens_of, outcome_from, polymarket_outcome,
    scanned, shows_scan, ScanPairResult,
};
use crate::text::{parsed_integer, same_ignoring_case, text_of, texts_of};
use crate::time::saturated_difference;

verus! {

/// The four books of a pair at one moment.
pub struct Books {
    pub binance_up: BinanceOrderBook,
    pub binance_down: BinanceOrderBook,
    pub polymarket_up: PolymarketOrderBook,
    pub polymarket_down: PolymarketOrderBook,
}

impl Books {
    /// The books with Up and Down exchanged on both venues.
    pub open spec fn exchanged(self) -> Books {
        Books {
            binance_up: self.binance_down,
            binance_down: self.binance_up,
            polymarket_up: self.polymarket_down,
            polymarket_down: self.polymarket_up,
        }
    }
}

/// A scan of the books of a pair gives this result.
pub open spec fn gives(
    pair: TrackedPair,
    books: Books,
    observed_at_ms: i64,
    scan_latency_ms: i64,
    scan: ScanPairResult,
) -> bool {
    scanned(
        pair,
        books.binance_up,
        books.binance_down,
        books.polymarket_up,
        books.polymarket_down,
        observed_at_ms as int,
    ) matches Some(Ok(figures)) && shows_scan(
        scan,
        figures,
        pair,
        books.binance_up,
        books.binance_down,
        books.polymarket_up,
        books.polymarket_down,
        observed_at_ms,
        scan_latency_ms,
    )
}

/// What a scan says of one direction.
pub struct Said {
    pub cost: Option<Seq<char>>,
    pub fees: Option<Seq<char>>,
    pub net_edge: Option<Seq<char>>,
    pub risk_buffers: Option<Seq<char>>,
    pub size: Option<Seq<char>>,
    pub orders: Option<(RequestView, RequestView)>,
    pub quote_skew_ms: Option<i64>,
    pub quote_age_ms: Option<i64>,
}

pub open spec fn orders_of(plan: Option<ShadowPlan>) -> Option<(RequestView, RequestView)> {
    match plan {
        Some(plan) => Some((plan.first_request@, plan.second_request@)),
        None => None,
    }
}

/// What a scan says of direction A.
pub open spec fn said_of_a(scan: ScanPairResult) -> Said {
    let seen = scan.observation;
    Said {
        cost: text_of(seen.direction_a_cost),
        fees: text_of(seen.direction_a_fees),
        net_edge: text_of(seen.direction_a_net_edge),
        risk_buffers: text_of(seen.direction_a_risk_buffers),
        size: text_of(seen.direction_a_size),
        orders: orders_of(scan.direction_a_plan),
        quote_skew_ms: seen.direction_a_quote_skew_ms,
        quote_age_ms: seen.direction_a_quote_age_ms,
    }
}

/// What a scan says of direction B.
pub open spec fn said_of_b(scan: ScanPairResult) -> Said {
    let seen = scan.observation;
    Said {
        cost: text_of(seen.direction_b_cost),
        fees: text_of(seen.direction_b_fees),
        net_edge: text_of(seen.direction_b_net_edge),
        risk_buffers: text_of(seen.direction_b_risk_buffers),
        size: text_of(seen.direction_b_size),
        orders: orders_of(scan.direction_b_plan),
        quote_skew_ms: seen.direction_b_quote_skew_ms,
        quote_age_ms: seen.direction_b_quote_age_ms,
    }
}

/// What a scan says of direction A rests on the Binance Up book and the Polymarket Down book
/// only: whatever the other two books hold, it says the same.
pub proof fn direction_a_rests_on_its_own_books(
    pair: TrackedPair,
    books: Books,
    others: Books,
    observed_at_ms: i64,
    scan_latency_ms: i64,
    scan: ScanPairResult,
    other_scan: ScanPairResult,
)
    requires
        gives(pair, books, observed_at_ms, scan_latency_ms, scan),
        gives(pair, others, observed_at_ms, scan_latency_ms, other_scan),
        books.binance_up == others.binance_up,
        books.polymarket_down == others.polymarket_down,
    ensures
        said_of_a(scan) == said_of_a(other_scan),
        text_of(scan.observation.binance_up_ask) == text_of(other_scan.observation.binance_up_ask),
        text_of(scan.observation.polymarket_down_ask) == text_of(
            other_scan.observation.polymarket_down_ask,
        ),
{
}

/// What a scan says of direction B rests on the Binance Down book and the Polymarket Up book
/// only: whatever the other two books hold, it says the same.
pub proof fn direction_b_rests_on_its_own_books(
    pair: TrackedPair,
    books: Books,
    others: Books,
    observed_at_ms: i64,
    scan_latency_ms: i64,
    scan: ScanPairResult,
    other_scan: ScanPairResult,
)
    requires
        gives(pair, books, observed_at_ms, scan_latency_ms, scan),
        gives(pair, others, observed_at_ms, scan_latency_ms, other_scan),
        books.binance_down == others.binance_down,
        books.polymarket_up == others.polymarket_up,
    ensures
        said_of_b(scan) == said_of_b(other_scan),
        text_of(scan.observation.binance_down_ask) == text_of(
            other_scan.observation.binance_down_ask,
        ),
        text_of(scan.observation.polymarket_up_ask) == text_of(
            other_scan.observation.polymarket_up_ask,
        ),
{
}

/// Exchanging Up and Down on both venues exchanges the directions and the asks of the outcomes.
pub proof fn exchanging_outcomes_exchanges_directions(
    pair: TrackedPair,
    books: Books,
    observed_at_ms: i64,
    scan_latency_ms: i64,
    scan: ScanPairResult,
    exchanged: ScanPairResult,
)
    requires
        gives(pair, books, observed_at_ms, scan_latency_ms, scan),
        gives(pair, books.exchanged(), observed_at_ms, scan_latency_ms, exchanged),
    ensures
        said_of_a(scan) == said_of_b(exchanged),
        said_of_b(scan) == said_of_a(exchanged),
        text_of(scan.observation.binance_up_ask) == text_of(
            exchanged.observation.binance_down_ask,
        ),
        text_of(scan.observation.binance_down_ask) == text_of(
            exchanged.observation.binance_up_ask,
        ),
        text_of(scan.observation.polymarket_up_ask) == text_of(
            exchanged.observation.polymarket_down_ask,
        ),
        text_of(scan.observation.polymarket_down_ask) == text_of(
            exchanged.observation.polymarket_up_ask,
        ),
{
}

/// What a scan says of a purchase on one venue.
pub struct SaidOfVenue {
    pub cost: Seq<char>,
    pub fees: Seq<char>,
    pub risk_buffers: Seq<char>,
    pub net_edge: Seq<char>,
    pub size: Seq<char>,
    pub quote_skew_ms: i64,
    pub quote_age_ms: i64,
    pub rejections: Seq<Seq<char>>,
}

pub open spec fn said_of_venue(view: Option<BinanceInternalView>) -> Option<SaidOfVenue> {
    match view {
        Some(view) => Some(
            SaidOfVenue {
                cost: view.cost@,
                fees: view.fees@,
                risk_buffers: view.risk_buffers@,
                net_edge: view.net_edge@,
                size: view.size@,
                quote_skew_ms: view.quote_skew_ms,
                quote_age_ms: view.quote_age_ms,
                rejections: texts_of(view.rejections@),
            },
        ),
        None => None,
    }
}

/// What a scan says of buying both outcomes on one venue rests on the two books of that venue
/// only.
pub proof fn venues_rest_on_their_own_books(
    pair: TrackedPair,
    books: Books,
    others: Books,
    observed_at_ms: i64,
    scan_latency_ms: i64,
    scan: ScanPairResult,
    other_scan: ScanPairResult,
)
    requires
        gives(pair, books, observed_at_ms, scan_latency_ms, scan),
        gives(pair, others, observed_at_ms, scan_latency_ms, other_scan),
    ensures
        books.binance_up == others.binance_up && books.binance_down == others.binance_down
            ==> said_of_venue(scan.observation.binance_internal) == said_of_venue(
            other_scan.observation.binance_internal,
        ),
        books.polymarket_up == others.polymarket_up && books.polymarket_down
            == others.polymarket_down ==> said_of_venue(scan.observation.polymarket_internal)
            == said_of_venue(other_scan.observation.polymarket_internal) && orders_of(
            scan.polymarket_internal_plan,
        ) == orders_of(other_scan.polymarket_internal_plan),
{
}

/// Both orders of a plan are filled as a whole by the asks that they are meant for, for the same
/// positive quantity.
pub open spec fn fills_on(
    orders: (RequestView, RequestView),
    first: Seq<LevelView>,
    second: Seq<LevelView>,
) -> bool {
    &&& orders.0.quantity == orders.1.quantity
    &&& orders.0.quantity.is_positive()
    &&& fok(orders.0, first) matches Some(fill) && fill.status == OrderStatus::FullyFilled
    &&& fok(orders.1, second) matches Some(fill) && fill.status == OrderStatus::FullyFilled
}

/// The plan of direction A fills on the asks of Binance Up and of Polymarket Down, that of
/// direction B on those of Binance Down and of Polymarket Up, and that of Polymarket alone on
/// both of its own.
pub proof fn plans_fill_on_their_own_books(
    pair: TrackedPair,
    books: Books,
    observed_at_ms: i64,
    scan_latency_ms: i64,
    scan: ScanPairResult,
    binance_up: Seq<LevelView>,
    binance_down: Seq<LevelView>,
    polymarket_up: Seq<LevelView>,
    polymarket_down: Seq<LevelView>,
)
    requires
        gives(pair, books, observed_at_ms, scan_latency_ms, scan),
        level_ladder(books.binance_up.asks@) == Ok::<Seq<LevelView>, BinanceFault>(binance_up),
        level_ladder(books.binance_down.asks@) == Ok::<Seq<LevelView>, BinanceFault>(binance_down),
        books.polymarket_up.ask_ladder() == Ok::<Seq<LevelView>, PolymarketFault>(polymarket_up),
        books.polymarket_down.ask_ladder() == Ok::<Seq<LevelView>, PolymarketFault>(
            polymarket_down,
        ),
    ensures
        orders_of(scan.direction_a_plan) matches Some(orders) ==> fills_on(
            orders,
            binance_up,
            polymarket_down,
        ),
        orders_of(scan.direction_b_plan) matches Some(orders) ==> fills_on(
            orders,
            binance_down,
            polymarket_up,
        ),
        orders_of(scan.polymarket_internal_plan) matches Some(orders) ==> fills_on(
            orders,
            polymarket_up,
            polymarket_down,
        ),
{
    let figures = scanned(
        pair,
        books.binance_up,
        books.binance_down,
        books.polymarket_up,
        books.polymarket_down,
        observed_at_ms as int,
    )->0->Ok_0;
    let rate = quotient(whole(pair.binance.fee_rate_bps as int), whole(10_000))->0;
    let remaining = saturated_difference(
        pair.view.end_ms as int,
        observed_at_ms as int,
    );
    if let Some(purchase) = figures.direction_a {
        cross_purchase_is_that_of_its_orders(
            binance_up,
            polymarket_down,
            rate,
            pair.polymarket_fee_rate@,
            remaining,
            purchase,
        );
    }
    if let Some(purchase) = figures.direction_b {
        cross_purchase_is_that_of_its_orders(
            binance_down,
            polymarket_up,
            rate,
            pair.polymarket_fee_rate@,
            remaining,
            purchase,
        );
    }
    if let Some(purchase) = figures.polymarket_internal {
        internal_purchase_is_that_of_its_orders(
            polymarket_up,
            polymarket_down,
            pair.polymarket_fee_rate@,
            remaining,
            false,
            purchase,
        );
    }
}

/// Directions are looked at only before the end of the market and only for pairs that are about
/// the same event: else there is neither a figure nor a plan of one.
pub proof fn directions_need_a_running_event(
    pair: TrackedPair,
    books: Books,
    observed_at_ms: i64,
    scan_latency_ms: i64,
    scan: ScanPairResult,
)
    requires
        gives(pair, books, observed_at_ms, scan_latency_ms, scan),
        observed_at_ms >= pair.view.end_ms || (pair.view.classification@ != "exact"@
            && pair.view.classification@ != "basis"@),
    ensures
        said_of_a(scan).cost is None,
        said_of_a(scan).fees is None,
        said_of_a(scan).net_edge is None,
        said_of_a(scan).risk_buffers is None,
        said_of_a(scan).size is None,
        said_of_a(scan).orders is None,
        said_of_b(scan).cost is None,
        said_of_b(scan).fees is None,
        said_of_b(scan).net_edge is None,
        said_of_b(scan).risk_buffers is None,
        said_of_b(scan).size is None,
        said_of_b(scan).orders is None,
{
}

/// A number of basis points over ten thousand, which a decimal always holds exactly.
proof fn lemma_fee_rate(points: int, rate: DecimalView)
    requires
        i64::MIN <= points <= i64::MAX,
        quotient(whole(points), whole(10_000)) == Some(rate),
    ensures
        10_000 * rate.units() == points * whole(1).units(),
{
    whole_units(points);
    whole_units(10_000);
    quotients_are_close(whole(points), whole(10_000), rate);
    let exact = DecimalView { mantissa: points, scale: 4 };
    let k = whole(1).units();
    assert(pow10(24) == 1_000_000_000_000_000_000_000_000) by {
        reveal_with_fuel(pow10, 25);
    }
    assert(exact.units() == points * 1_000_000_000_000_000_000_000_000);
    assert(is_quotient(whole(points), whole(10_000), exact)) by {
        let e = exact.units();
        assert(e * (10_000 * k) == (points * k) * k) by (nonlinear_arith)
            requires
                e == points * 1_000_000_000_000_000_000_000_000,
                k == 10_000_000_000_000_000_000_000_000_000,
        ;
    }
    assert(has_quotient(whole(points), whole(10_000)));
    let r = rate.units();
    assert(10_000 * r == points * k) by (nonlinear_arith)
        requires
            r * (10_000 * k) == (points * k) * k,
            k > 0,
    ;
}

/// While an event runs, each direction is the purchase of its two ladders at the fee rates of
/// the pair, the Binance one in ten-thousandths, until the end of the market.
pub proof fn directions_are_purchases_of_their_books(
    pair: TrackedPair,
    books: Books,
    observed_at_ms: i64,
    scan_latency_ms: i64,
    scan: ScanPairResult,
    binance_up: Seq<LevelView>,
    binance_down: Seq<LevelView>,
    polymarket_up: Seq<LevelView>,
    polymarket_down: Seq<LevelView>,
    remaining_ms: int,
)
    requires
        gives(pair, books, observed_at_ms, scan_latency_ms, scan),
        level_ladder(books.binance_up.asks@) == Ok::<Seq<LevelView>, BinanceFault>(binance_up),
        level_ladder(books.binance_down.asks@) == Ok::<Seq<LevelView>, BinanceFault>(binance_down),
        books.polymarket_up.ask_ladder() == Ok::<Seq<LevelView>, PolymarketFault>(polymarket_up),
        books.polymarket_down.ask_ladder() == Ok::<Seq<LevelView>, PolymarketFault>(
            polymarket_down,
        ),
        pair.view.classification@ == "exact"@ || pair.view.classification@ == "basis"@,
        0 < remaining_ms <= i64::MAX,
        remaining_ms == pair.view.end_ms - observed_at_ms,
    ensures
        scan.observation.remaining_time_ms == Some(remaining_ms as i64),
        exists|rate: DecimalView|
            10_000 * #[trigger] rate.units() == pair.binance.fee_rate_bps * whole(1).units() && {
                let a = cross(
                    binance_up,
                    polymarket_down,
                    rate,
                    pair.polymarket_fee_rate@,
                    remaining_ms,
                );
                let b = cross(
                    binance_down,
                    polymarket_up,
                    rate,
                    pair.polymarket_fee_rate@,
                    remaining_ms,
                );
                &&& a matches Some(found) && match found {
                    Some(purchase) => {
                        &&& said_of_a(scan).cost == Some(decimal_text(purchase.cost))
                        &&& said_of_a(scan).fees == Some(decimal_text(purchase.fees))
                        &&& said_of_a(scan).net_edge == Some(decimal_text(purchase.net_edge))
                        &&& said_of_a(scan).risk_buffers == Some(
                            decimal_text(purchase.risk_buffers),
                        )
                        &&& said_of_a(scan).size == Some(decimal_text(purchase.size))
                    },
                    None => said_of_a(scan).orders is None,
                }
                &&& b matches Some(found) && match found {
                    Some(purchase) => {
                        &&& said_of_b(scan).cost == Some(decimal_text(purchase.cost))
                        &&& said_of_b(scan).fees == Some(decimal_text(purchase.fees))
                        &&& said_of_b(scan).net_edge == Some(decimal_text(purchase.net_edge))
                        &&& said_of_b(scan).risk_buffers == Some(
                            decimal_text(purchase.risk_buffers),
                        )
                        &&& said_of_b(scan).size == Some(decimal_text(purchase.size))
                    },
                    None => said_of_b(scan).orders is None,
                }
            },
{
    let rate = quotient(whole(pair.binance.fee_rate_bps as int), whole(10_000))->0;
    lemma_fee_rate(pair.binance.fee_rate_bps as int, rate);
}

/// The distance of two times.
pub open spec fn apart(a: int, b: int) -> int {
    if a >= b {
        a - b
    } else {
        b - a
    }
}

/// A time difference is shown, as far as 64 bits hold it.
pub open spec fn shows_time(shown: Option<i64>, time: int) -> bool {
    shown matches Some(shown) && if time <= i64::MAX {
        shown == time
    } else {
        shown == i64::MAX
    }
}

/// The skew of a direction is the distance of the times of its two books, its age the larger
/// distance of one of them to the observation; neither is known where the Polymarket time
/// cannot be read.
pub proof fn skew_and_age_are_those_of_the_direction(
    pair: TrackedPair,
    books: Books,
    observed_at_ms: i64,
    scan_latency_ms: i64,
    scan: ScanPairResult,
)
    requires
        gives(pair, books, observed_at_ms, scan_latency_ms, scan),
    ensures
        match parsed_integer(books.polymarket_down.timestamp@) {
            Some(down_ms) => {
                let up = books.binance_up.timestamp as int;
                let (a, b) = (apart(observed_at_ms as int, up), apart(observed_at_ms as int, down_ms));
                &&& shows_time(said_of_a(scan).quote_skew_ms, apart(up, down_ms))
                &&& shows_time(
                    said_of_a(scan).quote_age_ms,
                    if a >= b {
                        a
                    } else {
                        b
                    },
                )
            },
            None => said_of_a(scan).quote_skew_ms is None && said_of_a(scan).quote_age_ms is None,
        },
        match parsed_integer(books.polymarket_up.timestamp@) {
            Some(up_ms) => {
                let down = books.binance_down.timestamp as int;
                let (a, b) = (apart(observed_at_ms as int, down), apart(observed_at_ms as int, up_ms));
                &&& shows_time(said_of_b(scan).quote_skew_ms, apart(down, up_ms))
                &&& shows_time(
                    said_of_b(scan).quote_age_ms,
                    if a >= b {
                        a
                    } else {
                        b
                    },
                )
            },
            None => said_of_b(scan).quote_skew_ms is None && said_of_b(scan).quote_age_ms is None,
        },
{
}

/// The two books of a direction are used exactly where their times are known, at most a second
/// apart and at most five seconds old, and both can be read; the asks are then those of the
/// books, in their order.
pub proof fn direction_books_are_used_while_fresh(
    first: BinanceOrderBook,
    second: PolymarketOrderBook,
    observed_at_ms: int,
)
    ensures
        direction_outcome(first, second, observed_at_ms) is Ok <==> {
            &&& parsed_integer(second.timestamp@) is Some
            &&& apart(first.timestamp as int, parsed_integer(second.timestamp@)->0) <= 1_000
            &&& apart(observed_at_ms, first.timestamp as int) <= 5_000
            &&& apart(observed_at_ms, parsed_integer(second.timestamp@)->0) <= 5_000
            &&& level_ladder(first.asks@) is Ok
            &&& second.ask_ladder() is Ok
        },
        direction_outcome(first, second, observed_at_ms) is Ok ==> direction_outcome(
            first,
            second,
            observed_at_ms,
        )->Ok_0 == (level_ladder(first.asks@)->Ok_0, second.ask_ladder()->Ok_0),
{
}

/// Both books of a Polymarket market are used exactly where their times are known, at most a
/// second apart and at most five seconds old, and both can be read; the asks are then those of
/// the books, in their order.
pub proof fn polymarket_books_are_used_while_fresh(
    up: PolymarketOrderBook,
    down: PolymarketOrderBook,
    observed_at_ms: int,
)
    ensures
        polymarket_outcome(up, down, observed_at_ms) is Ok <==> {
            &&& parsed_integer(up.timestamp@) is Some
            &&& parsed_integer(down.timestamp@) is Some
            &&& apart(parsed_integer(up.timestamp@)->0, parsed_integer(down.timestamp@)->0)
                <= 1_000
            &&& apart(observed_at_ms, parsed_integer(up.timestamp@)->0) <= 5_000
            &&& apart(observed_at_ms, parsed_integer(down.timestamp@)->0) <= 5_000
            &&& up.ask_ladder() is Ok
            &&& down.ask_ladder() is Ok
        },
        polymarket_outcome(up, down, observed_at_ms) is Ok ==> polymarket_outcome(
            up,
            down,
            observed_at_ms,
        )->Ok_0 == (up.ask_ladder()->Ok_0, down.ask_ladder()->Ok_0),
{
}

proof fn lemma_outcome_is_first(
    outcomes: Seq<BinanceOutcome>,
    name: Seq<char>,
    start: int,
)
    requires
        0 <= start <= outcomes.len(),
    ensures
        match outcome_from(outcomes, name, start) {
            Some(place) => {
                &&& start <= place < outcomes.len()
                &&& same_ignoring_case(outcomes[place].name@, name)
                &&& forall|i: int|
                    start <= i < place ==> !same_ignoring_case(#[trigger] outcomes[i].name@, name)
            },
            None => forall|i: int|
                start <= i < outcomes.len() ==> !same_ignoring_case(
                    #[trigger] outcomes[i].name@,
                    name,
                ),
        },
    decreases outcomes.len() - start,
{
    if start < outcomes.len() {
        lemma_outcome_is_first(outcomes, name, start + 1);
    }
}

/// A token is that of the first outcome of a name.
pub open spec fn is_first_token(
    outcomes: Seq<BinanceOutcome>,
    name: Seq<char>,
    token: Seq<char>,
) -> bool {
    exists|place: int|
        0 <= place < outcomes.len() && #[trigger] outcomes[place].token_id@ == token
            && same_ignoring_case(outcomes[place].name@, name) && forall|i: int|
            0 <= i < place ==> !same_ignoring_case(#[trigger] outcomes[i].name@, name)
}

/// A token is that of the first outcome of a name in the first market of a topic.
pub open spec fn is_token_of(detail: BinanceMarketDetail, name: Seq<char>, token: Seq<char>) -> bool {
    detail.markets@.len() > 0 && is_first_token(detail.markets@[0].outcomes@, name, token)
}

/// A direction asks for one outcome on Binance and for the other one on Polymarket: direction A
/// for Up and Down, every other one for Down and Up.
pub proof fn directions_name_complementary_tokens(
    pair: TrackedPair,
    direction: Seq<char>,
    binance_token: Seq<char>,
    polymarket_token: Seq<char>,
)
    requires
        direction_tokens_of(pair, direction) == Ok::<(Seq<char>, Seq<char>), Seq<char>>(
            (binance_token, polymarket_token),
        ),
    ensures
        direction == "A"@ ==> is_token_of(pair.binance, "up"@, binance_token) && polymarket_token
            == pair.polymarket_down_token@,
        direction != "A"@ ==> is_token_of(pair.binance, "down"@, binance_token)
            && polymarket_token == pair.polymarket_up_token@,
{
    let outcomes = pair.binance.markets@[0].outcomes@;
    lemma_outcome_is_first(outcomes, "up"@, 0);
    lemma_outcome_is_first(outcomes, "down"@, 0);
    if direction == "A"@ {
        let place = outcome_from(outcomes, "up"@, 0)->0;
        assert(outcomes[place].token_id@ == binance_token);
    } else {
        let place = outcome_from(outcomes, "down"@, 0)->0;
        assert(outcomes[place].token_id@ == binance_token);
    }
}

/// The books of a Binance market are asked for by the tokens of its Up and Down outcomes.
pub proof fn book_tokens_are_those_of_the_outcomes(
    detail: BinanceMarketDetail,
    up_token: Seq<char>,
    down_token: Seq<char>,
)
    requires
        book_tokens_of(detail) == Ok::<(Seq<char>, Seq<char>), Seq<char>>((up_token, down_token)),
    ensures
        is_token_of(detail, "up"@, up_token),
        is_token_of(detail, "down"@, down_token),
{
    let outcomes = detail.markets@[0].outcomes@;
    lemma_outcome_is_first(outcomes, "up"@, 0);
    lemma_outcome_is_first(outcomes, "down"@, 0);
    let up = outcome_from(outcomes, "up"@, 0)->0;
    let down = outcome_from(outcomes, "down"@, 0)->0;
    assert(outcomes[up].token_id@ == up_token);
    assert(outcomes[down].token_id@ == down_token);
}

/// What a scan says of buying both outcomes on one venue is the purchase of the two ladders of
/// that venue, at its fee rate and until the end of the market, judged by its own rules; on
/// Polymarket only where the times of both books can be read.
pub proof fn venue_figures_are_purchases_of_their_books(
    pair: TrackedPair,
    books: Books,
    observed_at_ms: i64,
    scan_latency_ms: i64,
    scan: ScanPairResult,
    binance_up: Seq<LevelView>,
    binance_down: Seq<LevelView>,
    polymarket_up: Seq<LevelView>,
    polymarket_down: Seq<LevelView>,
    remaining_ms: int,
)
    requires
        gives(pair, books, observed_at_ms, scan_latency_ms, scan),
        level_ladder(books.binance_up.asks@) == Ok::<Seq<LevelView>, BinanceFault>(binance_up),
        level_ladder(books.binance_down.asks@) == Ok::<Seq<LevelView>, BinanceFault>(binance_down),
        books.polymarket_up.ask_ladder() == Ok::<Seq<LevelView>, PolymarketFault>(polymarket_up),
        books.polymarket_down.ask_ladder() == Ok::<Seq<LevelView>, PolymarketFault>(
            polymarket_down,
        ),
        i64::MIN <= remaining_ms <= i64::MAX,
        remaining_ms == pair.view.end_ms - observed_at_ms,
    ensures
        exists|rate: DecimalView|
            10_000 * #[trigger] rate.units() == pair.binance.fee_rate_bps * whole(1).units()
                && shows_venue(
                scan.observation.binance_internal,
                internal(binance_up, binance_down, rate, remaining_ms, true),
                binance_up,
                binance_down,
                remaining_ms as i64,
                true,
            ),
        parsed_integer(books.polymarket_up.timestamp@) is Some && parsed_integer(
            books.polymarket_down.timestamp@,
        ) is Some ==> shows_venue(
            scan.observation.polymarket_internal,
            internal(
                polymarket_up,
                polymarket_down,
                pair.polymarket_fee_rate@,
                remaining_ms,
                false,
            ),
            polymarket_up,
            polymarket_down,
            remaining_ms as i64,
            false,
        ),
        parsed_integer(books.polymarket_up.timestamp@) is None || parsed_integer(
            books.polymarket_down.timestamp@,
        ) is None ==> scan.observation.polymarket_internal is None
            && scan.polymarket_internal_plan is None,
        scan.observation.binance_internal matches Some(view) ==> {
            let (a, b) = (
                apart(observed_at_ms as int, books.binance_up.timestamp as int),
                apart(observed_at_ms as int, books.binance_down.timestamp as int),
            );
            &&& shows_time(
                Some(view.quote_skew_ms),
                apart(books.binance_up.timestamp as int, books.binance_down.timestamp as int),
            )
            &&& shows_time(
                Some(view.quote_age_ms),
                if a >= b {
                    a
                } else {
                    b
                },
            )
        },
        scan.observation.polymarket_internal matches Some(view) ==> {
            let (up_ms, down_ms) = (
                parsed_integer(books.polymarket_up.timestamp@)->0,
                parsed_integer(books.polymarket_down.timestamp@)->0,
            );
            let (a, b) = (
                apart(observed_at_ms as int, up_ms),
                apart(observed_at_ms as int, down_ms),
            );
            &&& shows_time(Some(view.quote_skew_ms), apart(up_ms, down_ms))
            &&& shows_time(
                Some(view.quote_age_ms),
                if a >= b {
                    a
                } else {
                    b
                },
            )
        },
{
    let rate = quotient(whole(pair.binance.fee_rate_bps as int), whole(10_000))->0;
    lemma_fee_rate(pair.binance.fee_rate_bps as int, rate);
}

/// A view of a purchase on one venue shows it under its own names, or there is neither.
pub open spec fn shows_venue(
    view: Option<BinanceInternalView>,
    purchase: Option<Option<PurchaseFigures>>,
    up: Seq<LevelView>,
    down: Seq<LevelView>,
    remaining_ms: i64,
    on_binance: bool,
) -> bool {
    match purchase {
        None => false,
        Some(None) => view is None,
        Some(Some(purchase)) => view matches Some(view) && {
            &&& view.cost@ == decimal_text(purchase.cost)
            &&& view.fees@ == decimal_text(purchase.fees)
            &&& view.risk_buffers@ == decimal_text(purchase.risk_buffers)
            &&& view.net_edge@ == decimal_text(purchase.net_edge)
            &&& view.size@ == decimal_text(purchase.size)
            &&& texts_of(view.rejections@) == internal_rejections(
                up,
                down,
                purchase.net_edge,
                view.quote_skew_ms,
                view.quote_age_ms,
                remaining_ms,
                on_binance,
            )
        },
    }
}

/// The ask that is shown for a ladder is the price of its first level.
pub open spec fn shows_first_price(ask: Option<String>, ladder: Seq<LevelView>) -> bool {
    match ask {
        Some(text) => ladder.len() > 0 && text@ == decimal_text(ladder[0].price),
        None => ladder.len() == 0,
    }
}

/// An observation shows the moment, the slug and the latency it was made with, and for each
/// outcome on each venue the first price of the book of that outcome on that venue.
pub proof fn observations_show_the_first_price_of_each_book(
    pair: TrackedPair,
    books: Books,
    observed_at_ms: i64,
    scan_latency_ms: i64,
    scan: ScanPairResult,
    binance_up: Seq<LevelView>,
    binance_down: Seq<LevelView>,
    polymarket_up: Seq<LevelView>,
    polymarket_down: Seq<LevelView>,
)
    requires
        gives(pair, books, observed_at_ms, scan_latency_ms, scan),
        level_ladder(books.binance_up.asks@) == Ok::<Seq<LevelView>, BinanceFault>(binance_up),
        level_ladder(books.binance_down.asks@) == Ok::<Seq<LevelView>, BinanceFault>(binance_down),
        books.polymarket_up.ask_ladder() == Ok::<Seq<LevelView>, PolymarketFault>(polymarket_up),
        books.polymarket_down.ask_ladder() == Ok::<Seq<LevelView>, PolymarketFault>(
            polymarket_down,
        ),
    ensures
        shows_first_price(scan.observation.binance_up_ask, binance_up),
        shows_first_price(scan.observation.binance_down_ask, binance_down),
        shows_first_price(scan.observation.polymarket_up_ask, polymarket_up),
        shows_first_price(scan.observation.polymarket_down_ask, polymarket_down),
        scan.observation.slug@ == pair.view.slug@,
        scan.observation.observed_at_ms == observed_at_ms,
        scan.observation.scan_latency_ms == Some(scan_latency_ms),
        scan.observation.direction_a_rejections@.len() == 0,
        scan.observation.direction_b_rejections@.len() == 0,
{
}

} // verus!
