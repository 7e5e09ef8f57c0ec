//! The commands of the program: their arguments, the mock scan and the offline simulator.
use vstd::prelude::*;

use crate::arbitrage::{
    book_usable, buy_arbitrage, buy_arbitrage_at, check_risk, opportunity_view, OpportunityView,
    RiskLimits, RiskRejection, Terms,
};
use crate::decimal::{
    decimal_text, parsed_decimal, pow10, view_of, whole, whole_units, Decimal, DecimalView,
};
use crate::domain::{
    ladder_view, ArbitrageOpportunity, Market, MarketStatus, OrderBook, OrderStatus, Outcome,
    PriceLevel, Venue,
};
use crate::execution::{
    budget_quantity_at_step, checked_preflight_pair_fok, checked_quantity_for_budget_at_step,
    pair_reasons, pair_recorded, pair_report, FillView, FokFill, FokOrderRequest, PairFokReport,
    RequestView, SimulatedExecutor,
};
use crate::ladder::LevelView;
use crate::matcher::validate_settlement_compatibility;
use crate::text::{
    ascii_upper, ascii_uppercase, join, joined, parse_unsigned, parsed_unsigned, same, text_of,
};
use crate::time::{TimeSpan, Timestamp};

verus! {

/// Whether the program may start in an execution mode: never in the one that trades for real.
/// Without a mode it simulates.
pub fn may_start(execution_mode: Option<&str>) -> (result: bool)
    ensures
        result == !(execution_mode matches Some(mode) && mode@ == "live"@),
{
    match execution_mode {
        Some(mode) => !same(mode, "live"),
        None => true,
    }
}

/// The first place of a name among the arguments from `start` on.
pub open spec fn argument_from(arguments: Seq<String>, name: Seq<char>, start: int) -> Option<int>
    decreases arguments.len() - start,
{
    if start < 0 || start >= arguments.len() {
        None
    } else if arguments[start]@ == name {
        Some(start)
    } else {
        argument_from(arguments, name, start + 1)
    }
}

/// What stands behind the first occurrence of a name: nothing where the name is missing, an
/// error with the given complaint where nothing follows it.
pub open spec fn argument_of(arguments: Seq<String>, name: Seq<char>, complaint: Seq<char>) -> Result<
    Option<Seq<char>>,
    Seq<char>,
> {
    match argument_from(arguments, name, 0) {
        None => Ok(None),
        Some(place) => if place + 1 < arguments.len() {
            Ok(Some(arguments[place + 1]@))
        } else {
            Err(name + complaint)
        },
    }
}

fn argument_place(arguments: &[String], name: &str) -> (result: Option<usize>)
    ensures
        match result {
            Some(place) => argument_from(arguments@, name@, 0) == Some(place as int) && place
                < arguments@.len(),
            None => argument_from(arguments@, name@, 0) is None,
        },
{
    let mut i: usize = 0;
    while i < arguments.len()
        invariant
            i <= arguments@.len(),
            argument_from(arguments@, name@, 0) == argument_from(arguments@, name@, i as int),
        decreases arguments@.len() - i,
    {
        if same(arguments[i].as_str(), name) {
            return Some(i);
        }
        i = i + 1;
    }
    None
}

/// The text given for a name among the arguments.
pub fn argument_string(arguments: &[String], name: &str) -> (result: Result<Option<String>, String>)
    ensures
        match argument_of(arguments@, name@, " 缺少值"@) {
            Ok(value) => result matches Ok(given) && text_of(given) == value,
            Err(words) => result matches Err(error) && error@ == words,
        },
{
    let place: usize = match argument_place(arguments, name) {
        Some(place) => place,
        None => return Ok(None),
    };
    if arguments.len() - place > 1 {
        Ok(Some(arguments[place + 1].clone()))
    } else {
        Err(name.to_owned().concat(" 缺少值"))
    }
}

/// The number given for a name among the arguments, or what is wrong with it.
pub open spec fn number_argument(arguments: Seq<String>, name: Seq<char>) -> Result<
    Option<DecimalView>,
    Seq<char>,
> {
    match argument_of(arguments, name, " 缺少数值"@) {
        Err(words) => Err(words),
        Ok(None) => Ok(None),
        Ok(Some(value)) => match parsed_decimal(value) {
            Some(number) => Ok(Some(number)),
            None => Err(name + " 不是有效十进制定点数："@ + value),
        },
    }
}

/// The number given for a name among the arguments.
pub fn argument_decimal(arguments: &[String], name: &str) -> (result: Result<
    Option<Decimal>,
    String,
>)
    ensures
        match number_argument(arguments@, name@) {
            Ok(value) => result matches Ok(given) && view_of(given) == value,
            Err(words) => result matches Err(error) && error@ == words,
        },
{
    let place: usize = match argument_place(arguments, name) {
        Some(place) => place,
        None => return Ok(None),
    };
    if arguments.len() - place <= 1 {
        return Err(name.to_owned().concat(" 缺少数值"));
    }
    let value = arguments[place + 1].as_str();
    match Decimal::parse(value) {
        Some(number) => Ok(Some(number)),
        None => Err(name.to_owned().concat(" 不是有效十进制定点数：").concat(value)),
    }
}

/// The number given for a name, or the one that stands in for it.
pub open spec fn number_or(arguments: Seq<String>, name: Seq<char>, otherwise: DecimalView) -> Result<
    DecimalView,
    Seq<char>,
> {
    match number_argument(arguments, name) {
        Err(words) => Err(words),
        Ok(None) => Ok(otherwise),
        Ok(Some(number)) => Ok(number),
    }
}

fn argument_decimal_or(arguments: &[String], name: &str, otherwise: Decimal) -> (result: Result<
    Decimal,
    String,
>)
    ensures
        match number_or(arguments@, name@, otherwise@) {
            Ok(value) => result matches Ok(given) && given@ == value,
            Err(words) => result matches Err(error) && error@ == words,
        },
{
    match argument_decimal(arguments, name)? {
        Some(number) => Ok(number),
        None => Ok(otherwise),
    }
}

pub open spec fn venue_name(venue: Venue) -> Seq<char> {
    match venue {
        Venue::Binance => "Binance"@,
        Venue::Polymarket => "Polymarket"@,
    }
}

pub open spec fn outcome_name(outcome: Outcome) -> Seq<char> {
    match outcome {
        Outcome::Up => "Up"@,
        Outcome::Down => "Down"@,
    }
}

/// The id of a mock market.
pub open spec fn mock_id(venue: Venue, outcome: Outcome) -> Seq<char> {
    "mock-"@ + venue_name(venue) + "-"@ + outcome_name(outcome)
}

fn mock_id_text(venue: Venue, outcome: Outcome) -> (result: String)
    ensures
        result@ == mock_id(venue, outcome),
{
    let venue = match venue {
        Venue::Binance => "Binance",
        Venue::Polymarket => "Polymarket",
    };
    let outcome = match outcome {
        Outcome::Up => "Up",
        Outcome::Down => "Down",
    };
    "mock-".to_owned().concat(venue).concat("-").concat(outcome)
}

/// An open bitcoin market of five minutes with a made-up settlement source.
pub open spec fn is_mock_market(
    market: Market,
    venue: Venue,
    outcome: Outcome,
    start: Timestamp,
) -> bool {
    &&& market.venue == venue
    &&& market.market_id@ == mock_id(venue, outcome)
    &&& market.symbol@ == "BTC"@
    &&& market.outcome == outcome
    &&& market.start_time == start
    &&& market.end_time.seconds == start.seconds + 300
    &&& market.end_time.nanos == start.nanos
    &&& text_of(market.settlement_source) == Some("MOCK_BTC_INDEX"@)
    &&& text_of(market.settlement_rule) == Some(
        "Mock: close above opening price is Up; equal is void"@,
    )
    &&& market.status == MarketStatus::Open
}

/// A mock market; `None` where its end cannot be represented.
pub fn mock_market(venue: Venue, outcome: Outcome, start: Timestamp) -> (result: Option<Market>)
    ensures
        result is Some <==> start.seconds + 300 <= i64::MAX,
        result matches Some(market) ==> is_mock_market(market, venue, outcome, start),
{
    Some(
        Market {
            venue,
            market_id: mock_id_text(venue, outcome),
            symbol: "BTC".to_owned(),
            outcome,
            start_time: start,
            end_time: start.plus_seconds(300)?,
            settlement_source: Some("MOCK_BTC_INDEX".to_owned()),
            settlement_rule: Some(
                "Mock: close above opening price is Up; equal is void".to_owned(),
            ),
            status: MarketStatus::Open,
        },
    )
}

/// The level at a price in hundredths.
pub open spec fn mock_level(level: (i64, i64)) -> LevelView {
    LevelView {
        price: DecimalView { mantissa: level.0 as int, scale: 2 },
        quantity: whole(level.1 as int),
    }
}

/// A book with the given asks and no bids.
pub open spec fn is_mock_book(
    book: OrderBook,
    venue: Venue,
    outcome: Outcome,
    levels: Seq<(i64, i64)>,
    now: Timestamp,
) -> bool {
    &&& book.venue == venue
    &&& book.market_id@ == mock_id(venue, outcome)
    &&& book.outcome == outcome
    &&& book.bids@.len() == 0
    &&& ladder_view(book.asks@) == levels.map_values(|level: (i64, i64)| mock_level(level))
    &&& book.timestamp == now
}

/// A mock book. Its levels are prices in hundredths and whole quantities.
pub fn mock_book(venue: Venue, outcome: Outcome, levels: &[(i64, i64)], now: Timestamp) -> (result:
    OrderBook)
    ensures
        is_mock_book(result, venue, outcome, levels@, now),
{
    let mut asks: Vec<PriceLevel> = Vec::new();
    let mut i: usize = 0;
    while i < levels.len()
        invariant
            i <= levels@.len(),
            asks@.len() == i,
            forall|k: int|
                0 <= k < i ==> (LevelView {
                    price: (#[trigger] asks@[k]).price@,
                    quantity: asks@[k].quantity@,
                }) == mock_level(levels@[k]),
        decreases levels@.len() - i,
    {
        asks.push(
            PriceLevel {
                price: Decimal::new(levels[i].0, 2),
                quantity: Decimal::new(levels[i].1, 0),
            },
        );
        i = i + 1;
    }
    proof {
        assert(ladder_view(asks@) =~= levels@.map_values(
            |level: (i64, i64)| mock_level(level),
        ));
    }
    OrderBook {
        venue,
        market_id: mock_id_text(venue, outcome),
        outcome,
        bids: Vec::new(),
        asks,
        timestamp: now,
    }
}

pub open spec fn mock_up_levels() -> Seq<(i64, i64)> {
    seq![(40, 100), (41, 500)]
}

pub open spec fn mock_down_levels() -> Seq<(i64, i64)> {
    seq![(50, 200), (51, 500)]
}

/// What the mock scan asks of an opportunity.
pub open spec fn mock_terms() -> Terms {
    Terms {
        minimum_profit: whole(0),
        fee_rate: DecimalView { mantissa: 1, scale: 3 },
        slippage_buffer: DecimalView { mantissa: 2, scale: 3 },
    }
}

/// What the mock scan reports of what it found: an opportunity within the largest amount.
pub open spec fn mock_outcome(found: Option<OpportunityView>) -> Result<
    OpportunityView,
    Seq<char>,
> {
    match found {
        None => Err("无可执行机会"@),
        Some(opportunity) => if whole(1000).lt(opportunity.cost) {
            Err("风控拒绝：交易金额超限"@)
        } else {
            Ok(opportunity)
        },
    }
}

/// The name of a reason to turn a pair of markets down.
pub fn rejection_name(rejection: RiskRejection) -> (result: String)
    ensures
        result@ == (match rejection {
            RiskRejection::MarketNotOpen => "MarketNotOpen"@,
            RiskRejection::MarketEndingSoon => "MarketEndingSoon"@,
            RiskRejection::StaleOrderBook => "StaleOrderBook"@,
            RiskRejection::InvalidBook => "InvalidBook"@,
        }),
{
    match rejection {
        RiskRejection::MarketNotOpen => "MarketNotOpen".to_owned(),
        RiskRejection::MarketEndingSoon => "MarketEndingSoon".to_owned(),
        RiskRejection::StaleOrderBook => "StaleOrderBook".to_owned(),
        RiskRejection::InvalidBook => "InvalidBook".to_owned(),
    }
}

proof fn lemma_mock_book_usable(book: OrderBook, levels: Seq<(i64, i64)>)
    requires
        ladder_view(book.asks@) == levels.map_values(|level: (i64, i64)| mock_level(level)),
        levels.len() > 0,
        forall|k: int| 0 <= k < levels.len() ==> (#[trigger] levels[k]).0 > 0 && levels[k].1 > 0,
    ensures
        book_usable(book.asks@),
{
    let ladder = ladder_view(book.asks@);
    assert(ladder.len() == levels.len());
    assert forall|k: int| 0 <= k < ladder.len() implies crate::domain::is_usable(
        #[trigger] ladder[k],
    ) by {
        assert(ladder[k] == mock_level(levels[k]));
        assert(levels[k].0 > 0 && levels[k].1 > 0);
    }
}

/// Only what mock books hold decides what is found in them.
proof fn lemma_mock_books_alike(
    up: OrderBook,
    down: OrderBook,
    other_up: OrderBook,
    other_down: OrderBook,
    now: Timestamp,
)
    requires
        is_mock_book(up, Venue::Binance, Outcome::Up, mock_up_levels(), now),
        is_mock_book(down, Venue::Polymarket, Outcome::Down, mock_down_levels(), now),
        is_mock_book(other_up, Venue::Binance, Outcome::Up, mock_up_levels(), now),
        is_mock_book(other_down, Venue::Polymarket, Outcome::Down, mock_down_levels(), now),
    ensures
        buy_arbitrage(up, down, mock_terms(), now) == buy_arbitrage(
            other_up,
            other_down,
            mock_terms(),
            now,
        ),
{
}

/// Whether a scan reports what was found.
pub open spec fn scan_reports(
    result: Option<Result<ArbitrageOpportunity, String>>,
    found: Option<Option<OpportunityView>>,
) -> bool {
    match found {
        None => result is None,
        Some(found) => match mock_outcome(found) {
            Ok(opportunity) => result matches Some(Ok(reported)) && reported@ == opportunity,
            Err(words) => result matches Some(Err(error)) && error@ == words,
        },
    }
}

fn scan_books(up: &OrderBook, down: &OrderBook, now: Timestamp) -> (result: Option<
    Result<ArbitrageOpportunity, String>,
>)
    ensures
        scan_reports(result, buy_arbitrage(*up, *down, mock_terms(), now)),
{
    let found = buy_arbitrage_at(
        up,
        down,
        Decimal::zero(),
        Decimal::new(1, 3),
        Decimal::new(2, 3),
        now,
    );
    assert(opportunity_view(found) == buy_arbitrage(*up, *down, mock_terms(), now));
    let opportunity = match found? {
        Some(opportunity) => opportunity,
        None => return Some(Err("无可执行机会".to_owned())),
    };
    if Decimal::new(1000, 0).less(&opportunity.cost) {
        return Some(Err("风控拒绝：交易金额超限".to_owned()));
    }
    Some(Ok(opportunity))
}

/// Checks a pair of markets and their books as the scan does.
fn check_scan(a: &Market, b: &Market, up: &OrderBook, down: &OrderBook, now: Timestamp) -> (result:
    Result<(), String>)
    requires
        i64::MIN + 60 <= now.seconds <= i64::MAX - 240,
        exists|start: Timestamp|
            start.seconds == now.seconds - 60 && start.nanos == now.nanos && #[trigger] is_mock_market(
                *a,
                Venue::Binance,
                Outcome::Up,
                start,
            ) && is_mock_market(*b, Venue::Polymarket, Outcome::Down, start),
        is_mock_book(*up, Venue::Binance, Outcome::Up, mock_up_levels(), now),
        is_mock_book(*down, Venue::Polymarket, Outcome::Down, mock_down_levels(), now),
    ensures
        result is Ok,
{
    proof {
        reveal_strlit("BTC");
        assert(ascii_upper("BTC"@) =~= "BTC"@);
        lemma_mock_book_usable(*up, mock_up_levels());
        lemma_mock_book_usable(*down, mock_down_levels());
    }
    match validate_settlement_compatibility(a, b) {
        Ok(_) => {},
        Err(mismatch) => return Err(mismatch.message()),
    }
    let limits = RiskLimits {
        max_trade_amount: Decimal::new(1000, 0),
        minimum_remaining_time: TimeSpan::seconds(30),
        maximum_book_age: TimeSpan::seconds(5),
    };
    match check_risk(a, b, up, down, now, &limits) {
        Ok(_) => Ok(()),
        Err(rejection) => {
            let name = rejection_name(rejection);
            Err("风控拒绝：".to_owned().concat(name.as_str()))
        },
    }
}

/// Scans the mock books as of `now`. `None` where a time or a number cannot be represented.
///
/// The markets settle alike and pass the risk rules at any time, so that the outcome is decided
/// by what the books hold.
pub fn scan(now: Timestamp) -> (result: Option<Result<ArbitrageOpportunity, String>>)
    ensures
        now.seconds < i64::MIN + 60 || now.seconds > i64::MAX - 240 ==> result is None,
        i64::MIN + 60 <= now.seconds <= i64::MAX - 240 ==> forall|up: OrderBook, down: OrderBook|
            is_mock_book(up, Venue::Binance, Outcome::Up, mock_up_levels(), now) && is_mock_book(
                down,
                Venue::Polymarket,
                Outcome::Down,
                mock_down_levels(),
                now,
            ) ==> scan_reports(result, #[trigger] buy_arbitrage(up, down, mock_terms(), now)),
{
    let start = now.plus_seconds(-60)?;
    let binance_up = mock_market(Venue::Binance, Outcome::Up, start)?;
    let polymarket_down = mock_market(Venue::Polymarket, Outcome::Down, start)?;
    let up = mock_book(Venue::Binance, Outcome::Up, &[(40, 100), (41, 500)], now);
    let down = mock_book(Venue::Polymarket, Outcome::Down, &[(50, 200), (51, 500)], now);
    proof {
        assert(is_mock_book(up, Venue::Binance, Outcome::Up, mock_up_levels(), now));
        assert(is_mock_book(down, Venue::Polymarket, Outcome::Down, mock_down_levels(), now));
    }
    match check_scan(&binance_up, &polymarket_down, &up, &down, now) {
        Ok(_) => {},
        Err(error) => return Some(Err(error)),
    }
    let result = scan_books(&up, &down, now);
    proof {
        assert forall|other_up: OrderBook, other_down: OrderBook|
            is_mock_book(other_up, Venue::Binance, Outcome::Up, mock_up_levels(), now)
                && is_mock_book(
                other_down,
                Venue::Polymarket,
                Outcome::Down,
                mock_down_levels(),
                now,
            ) implies scan_reports(
            result,
            #[trigger] buy_arbitrage(other_up, other_down, mock_terms(), now),
        ) by {
            lemma_mock_books_alike(up, down, other_up, other_down, now);
        }
    }
    result
}

/// Orders for both legs with the asks that they meet.
#[derive(Clone, Debug)]
pub struct SimulatorRun {
    pub first_request: FokOrderRequest,
    pub second_request: FokOrderRequest,
    pub first_asks: Vec<PriceLevel>,
    pub second_asks: Vec<PriceLevel>,
}

/// The orders and asks of a simulation.
pub struct RunView {
    pub first_request: RequestView,
    pub second_request: RequestView,
    pub first_asks: Seq<LevelView>,
    pub second_asks: Seq<LevelView>,
}

impl View for SimulatorRun {
    type V = RunView;

    open spec fn view(&self) -> RunView {
        RunView {
            first_request: self.first_request@,
            second_request: self.second_request@,
            first_asks: ladder_view(self.first_asks@),
            second_asks: ladder_view(self.second_asks@),
        }
    }
}

/// What a simulation is asked for.
pub struct SimulatorOptions {
    pub first_limit: DecimalView,
    pub second_limit: DecimalView,
    pub quantity: Option<DecimalView>,
    pub budget: Option<DecimalView>,
    pub quantity_step: DecimalView,
}

/// The options among the arguments; the first that is wrong decides.
pub open spec fn simulator_options(arguments: Seq<String>) -> Result<SimulatorOptions, Seq<char>> {
    match number_or(
        arguments,
        "--binance-limit"@,
        DecimalView { mantissa: 41, scale: 2 },
    ) {
        Err(words) => Err(words),
        Ok(first_limit) => match number_or(
            arguments,
            "--polymarket-limit"@,
            DecimalView { mantissa: 51, scale: 2 },
        ) {
            Err(words) => Err(words),
            Ok(second_limit) => match number_argument(arguments, "--quantity"@) {
                Err(words) => Err(words),
                Ok(quantity) => match number_argument(arguments, "--budget"@) {
                    Err(words) => Err(words),
                    Ok(budget) => match number_or(
                        arguments,
                        "--quantity-step"@,
                        DecimalView { mantissa: 1, scale: 2 },
                    ) {
                        Err(words) => Err(words),
                        Ok(quantity_step) => Ok(
                            SimulatorOptions {
                                first_limit,
                                second_limit,
                                quantity,
                                budget,
                                quantity_step,
                            },
                        ),
                    },
                },
            },
        },
    }
}

/// The quantity of both legs: as it is given, else what the budget buys, else ten. The outer
/// `None` is an overflow.
pub open spec fn simulated_quantity(options: SimulatorOptions) -> Option<
    Result<DecimalView, Seq<char>>,
> {
    match (options.quantity, options.budget) {
        (Some(_), Some(_)) => Some(Err("--quantity 与 --budget 只能指定一个"@)),
        (Some(quantity), None) => Some(Ok(quantity)),
        (None, Some(budget)) => match budget_quantity_at_step(
            budget,
            options.first_limit,
            options.second_limit,
            options.quantity_step,
        ) {
            None => None,
            Some(None) => Some(Err("预算、限价或数量步长无效"@)),
            Some(Some(quantity)) => Some(Ok(quantity)),
        },
        (None, None) => Some(Ok(whole(10))),
    }
}

pub open spec fn offered(price: DecimalView, quantity: int) -> LevelView {
    LevelView { price, quantity: whole(quantity) }
}

/// The asks of the first leg.
pub open spec fn simulator_asks() -> Seq<LevelView> {
    seq![
        offered(DecimalView { mantissa: 40, scale: 2 }, 100),
        offered(DecimalView { mantissa: 41, scale: 2 }, 500),
    ]
}

/// The asks of the second leg at a price.
pub open spec fn second_leg_asks(price: DecimalView) -> Seq<LevelView> {
    seq![offered(price, 500)]
}

/// The simulation that the arguments ask for, once it passes the preflight on the quoted asks.
/// The outer `None` is an overflow.
pub open spec fn simulator_run(arguments: Seq<String>) -> Option<Result<RunView, Seq<char>>> {
    match simulator_options(arguments) {
        Err(words) => Some(Err(words)),
        Ok(options) => match simulated_quantity(options) {
            None => None,
            Some(Err(words)) => Some(Err(words)),
            Some(Ok(quantity)) => match number_or(
                arguments,
                "--second-leg-price"@,
                DecimalView { mantissa: 50, scale: 2 },
            ) {
                Err(words) => Some(Err(words)),
                Ok(price) => {
                    let first = RequestView { quantity, limit_price: options.first_limit };
                    let second = RequestView { quantity, limit_price: options.second_limit };
                    let quoted = second_leg_asks(DecimalView { mantissa: 50, scale: 2 });
                    match pair_reasons(first, simulator_asks(), second, quoted) {
                        None => None,
                        Some(reasons) => if reasons.len() > 0 {
                            Some(Err("双腿提交前预检拒绝："@ + joined(reasons, "；"@)))
                        } else {
                            Some(
                                Ok(
                                    RunView {
                                        first_request: first,
                                        second_request: second,
                                        first_asks: simulator_asks(),
                                        second_asks: second_leg_asks(price),
                                    },
                                ),
                            )
                        },
                    }
                },
            },
        },
    }
}

fn level(price: Decimal, quantity: i64) -> (result: PriceLevel)
    ensures
        result.price@ == price@,
        result.quantity@ == whole(quantity as int),
{
    PriceLevel { price, quantity: Decimal::from_i64(quantity) }
}

fn choose_quantity(
    quantity: Option<Decimal>,
    budget: Option<Decimal>,
    first_limit: Decimal,
    second_limit: Decimal,
    quantity_step: Decimal,
) -> (result: Option<Result<Decimal, String>>)
    ensures
        match simulated_quantity(
            (SimulatorOptions {
                first_limit: first_limit@,
                second_limit: second_limit@,
                quantity: view_of(quantity),
                budget: view_of(budget),
                quantity_step: quantity_step@,
            }),
        ) {
            None => result is None,
            Some(Err(words)) => result matches Some(Err(error)) && error@ == words,
            Some(Ok(number)) => result matches Some(Ok(chosen)) && chosen@ == number,
        },
{
    match (quantity, budget) {
        (Some(_), Some(_)) => Some(Err("--quantity 与 --budget 只能指定一个".to_owned())),
        (Some(quantity), None) => Some(Ok(quantity)),
        (None, Some(budget)) => {
            match checked_quantity_for_budget_at_step(
                budget,
                first_limit,
                second_limit,
                quantity_step,
            )? {
                Some(quantity) => Some(Ok(quantity)),
                None => Some(Err("预算、限价或数量步长无效".to_owned())),
            }
        },
        (None, None) => Some(Ok(Decimal::from_i64(10))),
    }
}

/// The simulation that the arguments ask for; the outer `None` is an overflow.
pub fn plan_fok_simulator(arguments: &[String]) -> (result: Option<Result<SimulatorRun, String>>)
    ensures
        match simulator_run(arguments@) {
            None => result is None,
            Some(Err(words)) => result matches Some(Err(error)) && error@ == words,
            Some(Ok(run)) => result matches Some(Ok(planned)) && planned@ == run,
        },
{
    let first_limit = match argument_decimal_or(arguments, "--binance-limit", Decimal::new(41, 2)) {
        Ok(limit) => limit,
        Err(error) => return Some(Err(error)),
    };
    let second_limit = match argument_decimal_or(
        arguments,
        "--polymarket-limit",
        Decimal::new(51, 2),
    ) {
        Ok(limit) => limit,
        Err(error) => return Some(Err(error)),
    };
    let quantity = match argument_decimal(arguments, "--quantity") {
        Ok(quantity) => quantity,
        Err(error) => return Some(Err(error)),
    };
    let budget = match argument_decimal(arguments, "--budget") {
        Ok(budget) => budget,
        Err(error) => return Some(Err(error)),
    };
    let quantity_step = match argument_decimal_or(
        arguments,
        "--quantity-step",
        Decimal::new(1, 2),
    ) {
        Ok(step) => step,
        Err(error) => return Some(Err(error)),
    };
    let quantity = match choose_quantity(
        quantity,
        budget,
        first_limit,
        second_limit,
        quantity_step,
    )? {
        Ok(quantity) => quantity,
        Err(error) => return Some(Err(error)),
    };
    let second_price = match argument_decimal_or(
        arguments,
        "--second-leg-price",
        Decimal::new(50, 2),
    ) {
        Ok(price) => price,
        Err(error) => return Some(Err(error)),
    };
    let mut first_asks: Vec<PriceLevel> = Vec::new();
    first_asks.push(level(Decimal::new(40, 2), 100));
    first_asks.push(level(Decimal::new(41, 2), 500));
    let mut second_asks: Vec<PriceLevel> = Vec::new();
    second_asks.push(level(second_price, 500));
    let mut quoted: Vec<PriceLevel> = Vec::new();
    quoted.push(level(Decimal::new(50, 2), 500));
    proof {
        assert(ladder_view(first_asks@) =~= simulator_asks());
        assert(ladder_view(second_asks@) =~= second_leg_asks(second_price@));
        assert(ladder_view(quoted@) =~= second_leg_asks(DecimalView { mantissa: 50, scale: 2 }));
    }
    let first_request = FokOrderRequest { quantity, limit_price: first_limit };
    let second_request = FokOrderRequest { quantity, limit_price: second_limit };
    match checked_preflight_pair_fok(
        first_request,
        first_asks.as_slice(),
        second_request,
        quoted.as_slice(),
    )? {
        Ok(_) => Some(Ok(SimulatorRun { first_request, second_request, first_asks, second_asks })),
        Err(reasons) => {
            let listed = join(&reasons, "；");
            Some(Err("双腿提交前预检拒绝：".to_owned().concat(listed.as_str())))
        },
    }
}

/// Runs the offline simulator: plans it by the arguments, then executes both legs on the asks
/// that they meet. The outer `None` is an overflow. Where nothing is executed, the executor
/// stays as it was.
pub fn run_fok_simulator(arguments: &[String], executor: &mut SimulatedExecutor) -> (result: Option<
    Result<(SimulatorRun, PairFokReport), String>,
>)
    ensures
        match simulator_run(arguments@) {
            None => result is None && *final(executor) == *old(executor),
            Some(Err(words)) => *final(executor) == *old(executor) && (result matches Some(
                Err(error),
            ) && error@ == words),
            Some(Ok(run)) => match pair_report(
                run.first_request,
                run.first_asks,
                run.second_request,
                run.second_asks,
            ) {
                None => result is None && *final(executor) == *old(executor),
                Some(report) => result matches Some(Ok((planned, reported))) && planned@ == run
                    && reported@ == report && pair_recorded(
                    *old(executor),
                    *final(executor),
                    reported,
                ),
            },
        },
{
    let run = match plan_fok_simulator(arguments)? {
        Ok(run) => run,
        Err(error) => return Some(Err(error)),
    };
    let report = executor.checked_execute_pair_fok(
        run.first_request,
        run.first_asks.as_slice(),
        run.second_request,
        run.second_asks.as_slice(),
    )?;
    Some(Ok((run, report)))
}

/// What the simulation on live books is asked for.
#[derive(Clone, Debug)]
pub struct LiveOptions {
    pub asset: String,
    pub direction: String,
    pub quantity: Option<Decimal>,
    pub budget: Option<Decimal>,
    pub first_limit: Option<Decimal>,
    pub second_limit: Option<Decimal>,
    pub quantity_step: Decimal,
    pub delay_ms: u64,
}

pub open spec fn text_argument(arguments: Seq<String>, name: Seq<char>) -> Result<
    Option<Seq<char>>,
    Seq<char>,
> {
    argument_of(arguments, name, " 缺少值"@)
}

/// The delay among the arguments.
pub open spec fn delay_argument(arguments: Seq<String>) -> Result<int, Seq<char>> {
    match text_argument(arguments, "--delay-ms"@) {
        Err(words) => Err(words),
        Ok(None) => Ok(250),
        Ok(Some(value)) => match parsed_unsigned(value) {
            Some(delay) => Ok(delay),
            None => Err("--delay-ms 不是有效非负整数："@ + value),
        },
    }
}

pub open spec fn or_default(value: Option<Seq<char>>, otherwise: Seq<char>) -> Seq<char> {
    match value {
        Some(value) => value,
        None => otherwise,
    }
}

/// Whether options are those among the arguments.
pub open spec fn are_live_options(options: LiveOptions, arguments: Seq<String>) -> bool {
    &&& text_argument(arguments, "--asset"@) matches Ok(asset) && options.asset@ == or_default(
        asset,
        "BTC"@,
    )
    &&& text_argument(arguments, "--direction"@) matches Ok(direction) && options.direction@
        == ascii_upper(or_default(direction, "A"@))
    &&& number_argument(arguments, "--quantity"@) == Ok::<Option<DecimalView>, Seq<char>>(
        view_of(options.quantity),
    )
    &&& number_argument(arguments, "--budget"@) == Ok::<Option<DecimalView>, Seq<char>>(
        view_of(options.budget),
    )
    &&& number_argument(arguments, "--binance-limit"@) == Ok::<Option<DecimalView>, Seq<char>>(
        view_of(options.first_limit),
    )
    &&& number_argument(arguments, "--polymarket-limit"@) == Ok::<Option<DecimalView>, Seq<char>>(
        view_of(options.second_limit),
    )
    &&& number_or(arguments, "--quantity-step"@, DecimalView { mantissa: 1, scale: 2 }) == Ok::<
        DecimalView,
        Seq<char>,
    >(options.quantity_step@)
    &&& delay_argument(arguments) == Ok::<int, Seq<char>>(options.delay_ms as int)
}

pub open spec fn complaint_of<T>(outcome: Result<T, Seq<char>>) -> Option<Seq<char>> {
    match outcome {
        Ok(_) => None,
        Err(words) => Some(words),
    }
}

/// The first thing that is wrong with the options among the arguments.
pub open spec fn live_complaint(arguments: Seq<String>) -> Option<Seq<char>> {
    let asset = complaint_of(text_argument(arguments, "--asset"@));
    let direction = complaint_of(text_argument(arguments, "--direction"@));
    let quantity = complaint_of(number_argument(arguments, "--quantity"@));
    let budget = complaint_of(number_argument(arguments, "--budget"@));
    let first_limit = complaint_of(number_argument(arguments, "--binance-limit"@));
    let second_limit = complaint_of(number_argument(arguments, "--polymarket-limit"@));
    let step = complaint_of(number_argument(arguments, "--quantity-step"@));
    let delay = complaint_of(delay_argument(arguments));
    if asset is Some {
        asset
    } else if direction is Some {
        direction
    } else if quantity is Some {
        quantity
    } else if budget is Some {
        budget
    } else if first_limit is Some {
        first_limit
    } else if second_limit is Some {
        second_limit
    } else if step is Some {
        step
    } else {
        delay
    }
}

fn read_delay(arguments: &[String]) -> (result: Result<u64, String>)
    ensures
        match delay_argument(arguments@) {
            Ok(delay) => result matches Ok(read) && read == delay,
            Err(words) => result matches Err(error) && error@ == words,
        },
{
    match argument_string(arguments, "--delay-ms")? {
        None => Ok(250),
        Some(value) => match parse_unsigned(value.as_str()) {
            Some(delay) => Ok(delay),
            None => Err("--delay-ms 不是有效非负整数：".to_owned().concat(value.as_str())),
        },
    }
}

/// The options of the simulation on live books, or the first thing that is wrong with them.
pub fn live_options(arguments: &[String]) -> (result: Result<LiveOptions, String>)
    ensures
        match result {
            Ok(options) => live_complaint(arguments@) is None && are_live_options(
                options,
                arguments@,
            ),
            Err(error) => live_complaint(arguments@) == Some(error@),
        },
{
    let asset = match argument_string(arguments, "--asset")? {
        Some(asset) => asset,
        None => "BTC".to_owned(),
    };
    let direction = match argument_string(arguments, "--direction")? {
        Some(direction) => ascii_uppercase(direction.as_str()),
        None => ascii_uppercase("A"),
    };
    let quantity = argument_decimal(arguments, "--quantity")?;
    let budget = argument_decimal(arguments, "--budget")?;
    let first_limit = argument_decimal(arguments, "--binance-limit")?;
    let second_limit = argument_decimal(arguments, "--polymarket-limit")?;
    let quantity_step = argument_decimal_or(arguments, "--quantity-step", Decimal::new(1, 2))?;
    let delay_ms: u64 = read_delay(arguments)?;
    Ok(
        LiveOptions {
            asset,
            direction,
            quantity,
            budget,
            first_limit,
            second_limit,
            quantity_step,
            delay_ms,
        },
    )
}

/// The name of an order status as it is printed.
pub open spec fn status_label(status: OrderStatus) -> Seq<char> {
    match status {
        OrderStatus::Detected => "Detected"@,
        OrderStatus::Preparing => "Preparing"@,
        OrderStatus::Submitting => "Submitting"@,
        OrderStatus::PartiallyFilled => "PartiallyFilled"@,
        OrderStatus::FullyFilled => "FullyFilled"@,
        OrderStatus::Hedged => "Hedged"@,
        OrderStatus::Cancelled => "Cancelled"@,
        OrderStatus::Rejected => "Rejected"@,
        OrderStatus::Failed => "Failed"@,
        OrderStatus::Unhedged => "Unhedged"@,
        OrderStatus::Settled => "Settled"@,
        OrderStatus::Redeemed => "Redeemed"@,
    }
}

/// The name of an order status as it is printed.
pub fn order_status_label(status: OrderStatus) -> (result: String)
    ensures
        result@ == status_label(status),
{
    match status {
        OrderStatus::Detected => "Detected".to_owned(),
        OrderStatus::Preparing => "Preparing".to_owned(),
        OrderStatus::Submitting => "Submitting".to_owned(),
        OrderStatus::PartiallyFilled => "PartiallyFilled".to_owned(),
        OrderStatus::FullyFilled => "FullyFilled".to_owned(),
        OrderStatus::Hedged => "Hedged".to_owned(),
        OrderStatus::Cancelled => "Cancelled".to_owned(),
        OrderStatus::Rejected => "Rejected".to_owned(),
        OrderStatus::Failed => "Failed".to_owned(),
        OrderStatus::Unhedged => "Unhedged".to_owned(),
        OrderStatus::Settled => "Settled".to_owned(),
        OrderStatus::Redeemed => "Redeemed".to_owned(),
    }
}

/// A fill in words.
pub open spec fn fill_words(fill: FillView) -> Seq<char> {
    "状态="@ + status_label(fill.status) + "，成交="@ + decimal_text(fill.filled_quantity)
        + "，均价="@ + (match fill.average_price {
        Some(price) => decimal_text(price),
        None => "-"@,
    }) + "，成本="@ + decimal_text(fill.total_cost) + (match fill.reason {
        Some(reason) => "，原因="@ + reason,
        None => ""@,
    })
}

/// A fill in words.
pub fn describe_fill(fill: &FokFill) -> (result: String)
    ensures
        result@ == fill_words(fill@),
{
    let average = match fill.average_price {
        Some(price) => price.text(),
        None => "-".to_owned(),
    };
    let reason = match &fill.reason {
        Some(reason) => "，原因=".to_owned().concat(reason.as_str()),
        None => "".to_owned(),
    };
    "状态=".to_owned().concat(order_status_label(fill.status).as_str()).concat("，成交=").concat(
        fill.filled_quantity.text().as_str(),
    ).concat("，均价=").concat(average.as_str()).concat("，成本=").concat(
        fill.total_cost.text().as_str(),
    ).concat(reason.as_str())
}

/// A name stands at a place among the arguments and at none before it.
pub open spec fn stands_first_at(arguments: Seq<String>, name: Seq<char>, place: int) -> bool {
    &&& 0 <= place < arguments.len()
    &&& arguments[place]@ == name
    &&& forall|i: int| 0 <= i < place ==> (#[trigger] arguments[i])@ != name
}

proof fn lemma_argument_is_first(arguments: Seq<String>, name: Seq<char>, start: int)
    requires
        0 <= start <= arguments.len(),
    ensures
        match argument_from(arguments, name, start) {
            Some(place) => {
                &&& start <= place < arguments.len()
                &&& arguments[place]@ == name
                &&& forall|i: int| start <= i < place ==> (#[trigger] arguments[i])@ != name
            },
            None => forall|i: int|
                start <= i < arguments.len() ==> (#[trigger] arguments[i])@ != name,
        },
    decreases arguments.len() - start,
{
    if start < arguments.len() {
        lemma_argument_is_first(arguments, name, start + 1);
    }
}

/// What is given for a name is the argument right behind its first occurrence; it is missing only
/// where nothing follows, and nothing is given exactly where the name does not occur.
pub proof fn values_follow_their_name(
    arguments: Seq<String>,
    name: Seq<char>,
    complaint: Seq<char>,
)
    ensures
        match argument_of(arguments, name, complaint) {
            Ok(None) => forall|i: int|
                0 <= i < arguments.len() ==> (#[trigger] arguments[i])@ != name,
            Ok(Some(value)) => exists|place: int| #[trigger]
                stands_first_at(arguments, name, place) && place + 1 < arguments.len()
                    && arguments[place + 1]@ == value,
            Err(words) => words == name + complaint && stands_first_at(
                arguments,
                name,
                arguments.len() - 1,
            ),
        },
{
    lemma_argument_is_first(arguments, name, 0);
    if let Some(place) = argument_from(arguments, name, 0) {
        assert(stands_first_at(arguments, name, place));
    }
}

/// A number among the arguments is the one that is given for its name, and else a number of
/// hundredths.
pub open spec fn given_or_hundredths(
    arguments: Seq<String>,
    name: Seq<char>,
    hundredths: int,
    number: DecimalView,
) -> bool {
    match number_argument(arguments, name) {
        Ok(Some(given)) => number == given,
        Ok(None) => 100 * number.units() == hundredths * whole(1).units(),
        Err(_) => false,
    }
}

proof fn lemma_hundredths(hundredths: int)
    ensures
        100 * (DecimalView { mantissa: hundredths, scale: 2 }).units() == hundredths * whole(
            1,
        ).units(),
{
    assert(pow10(26) == 100_000_000_000_000_000_000_000_000) by {
        reveal_with_fuel(pow10, 27);
    }
    whole_units(1);
    let value = DecimalView { mantissa: hundredths, scale: 2 };
    assert(value.units() == hundredths * 100_000_000_000_000_000_000_000_000);
    let (u, k) = (value.units(), whole(1).units());
    assert(100 * u == hundredths * k) by (nonlinear_arith)
        requires
            u == hundredths * 100_000_000_000_000_000_000_000_000,
            k == 10_000_000_000_000_000_000_000_000_000,
    ;
}

/// The simulation buys on Binance up to 0.41 and on Polymarket up to 0.51, ten shares of each,
/// unless the arguments say otherwise: a limit for either, a quantity, or a budget in steps of
/// 0.01. It finds 100 at 0.40 and 500 at 0.41 on Binance, and 500 at 0.50, or at the price the
/// arguments give, on Polymarket. A quantity and a budget together are refused.
pub proof fn simulations_follow_the_arguments(arguments: Seq<String>, run: RunView)
    requires
        simulator_run(arguments) == Some(Ok::<RunView, Seq<char>>(run)),
    ensures
        given_or_hundredths(
            arguments,
            "--binance-limit"@,
            41,
            run.first_request.limit_price,
        ),
        given_or_hundredths(
            arguments,
            "--polymarket-limit"@,
            51,
            run.second_request.limit_price,
        ),
        run.first_request.quantity == run.second_request.quantity,
        number_argument(arguments, "--quantity"@) is Ok,
        number_argument(arguments, "--budget"@) is Ok,
        ({
            let quantity = number_argument(arguments, "--quantity"@)->Ok_0;
            let budget = number_argument(arguments, "--budget"@)->Ok_0;
            &&& quantity is None || budget is None
            &&& quantity matches Some(given) ==> run.first_request.quantity == given
            &&& budget matches Some(given) ==> exists|step: DecimalView| #[trigger]
                given_or_hundredths(arguments, "--quantity-step"@, 1, step)
                    && budget_quantity_at_step(
                    given,
                    run.first_request.limit_price,
                    run.second_request.limit_price,
                    step,
                ) == Some(Some(run.first_request.quantity))
            &&& quantity is None && budget is None ==> run.first_request.quantity.units() == 10
                * whole(1).units()
        }),
        run.first_asks.len() == 2,
        100 * run.first_asks[0].price.units() == 40 * whole(1).units(),
        run.first_asks[0].quantity.units() == 100 * whole(1).units(),
        100 * run.first_asks[1].price.units() == 41 * whole(1).units(),
        run.first_asks[1].quantity.units() == 500 * whole(1).units(),
        run.second_asks.len() == 1,
        given_or_hundredths(arguments, "--second-leg-price"@, 50, run.second_asks[0].price),
        run.second_asks[0].quantity.units() == 500 * whole(1).units(),
{
    lemma_hundredths(41);
    lemma_hundredths(51);
    lemma_hundredths(1);
    lemma_hundredths(40);
    lemma_hundredths(50);
    whole_units(10);
    whole_units(100);
    whole_units(500);
    let options = simulator_options(arguments)->Ok_0;
    assert(given_or_hundredths(arguments, "--quantity-step"@, 1, options.quantity_step));
}

/// There is nothing wrong with the options of a simulation on live books exactly where each of
/// the eight can be read.
pub proof fn live_options_are_wrong_where_one_is(arguments: Seq<String>)
    ensures
        live_complaint(arguments) is None <==> {
            &&& text_argument(arguments, "--asset"@) is Ok
            &&& text_argument(arguments, "--direction"@) is Ok
            &&& number_argument(arguments, "--quantity"@) is Ok
            &&& number_argument(arguments, "--budget"@) is Ok
            &&& number_argument(arguments, "--binance-limit"@) is Ok
            &&& number_argument(arguments, "--polymarket-limit"@) is Ok
            &&& number_argument(arguments, "--quantity-step"@) is Ok
            &&& delay_argument(arguments) is Ok
        },
{
}

/// A simulation on live books is of bitcoin in direction A, in steps of 0.01 and after a quarter
/// of a second, unless the arguments say otherwise.
pub proof fn live_options_stand_in_for_what_is_missing(
    options: LiveOptions,
    arguments: Seq<String>,
)
    requires
        are_live_options(options, arguments),
    ensures
        text_argument(arguments, "--asset"@) matches Ok(given) && options.asset@ == (match given {
            Some(asset) => asset,
            None => "BTC"@,
        }),
        text_argument(arguments, "--direction"@) matches Ok(given) && options.direction@ == (
        match given {
            Some(direction) => ascii_upper(direction),
            None => ascii_upper("A"@),
        }),
        text_argument(arguments, "--delay-ms"@) is Ok,
        text_argument(arguments, "--delay-ms"@)->Ok_0 is None ==> options.delay_ms == 250,
        text_argument(arguments, "--delay-ms"@)->Ok_0 matches Some(delay) ==> parsed_unsigned(delay)
            == Some(options.delay_ms as int),
        given_or_hundredths(arguments, "--quantity-step"@, 1, options.quantity_step@),
        number_argument(arguments, "--binance-limit"@) == Ok::<Option<DecimalView>, Seq<char>>(
            view_of(options.first_limit),
        ),
        number_argument(arguments, "--polymarket-limit"@) == Ok::<Option<DecimalView>, Seq<char>>(
            view_of(options.second_limit),
        ),
{
    lemma_hundredths(1);
}

} // verus!
