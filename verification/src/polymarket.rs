//! What Polymarket's answers say.
use vstd::prelude::*;

use crate::json::{json_strings, read_strings};
use crate::decimal::{parsed_decimal, whole, Decimal};
use crate::ladder::{
    ladder_of, level_of, read_ladder, read_ladders_hold_every_level, read_level, read_levels_from,
    sort_levels, LevelFault, LevelView,
};
use crate::text::{eq_ignore_ascii_case, same, same_ignoring_case, text_of, texts_of};

verus! {

#[derive(Clone, Debug, PartialEq, Eq)]
pub enum PolymarketError {
    /// The request failed; the text says how.
    Http(String),
    /// A field of the answer is invalid.
    Invalid(String),
}

/// An error with the characters of its text.
#[verifier::ext_equal]
pub enum PolymarketFault {
    Http(Seq<char>),
    Invalid(Seq<char>),
}

impl View for PolymarketError {
    type V = PolymarketFault;

    open spec fn view(&self) -> PolymarketFault {
        match self {
            PolymarketError::Http(text) => PolymarketFault::Http(text@),
            PolymarketError::Invalid(text) => PolymarketFault::Invalid(text@),
        }
    }
}

impl PolymarketFault {
    /// The error in words.
    pub open spec fn words(self) -> Seq<char> {
        match self {
            PolymarketFault::Http(text) => "Polymarket HTTP 请求失败："@ + text,
            PolymarketFault::Invalid(text) => "Polymarket 响应字段无效："@ + text,
        }
    }
}

impl PolymarketError {
    /// The error in words.
    pub fn message(&self) -> (result: String)
        ensures
            result@ == self@.words(),
    {
        match self {
            PolymarketError::Http(text) => "Polymarket HTTP 请求失败：".to_owned().concat(
                text.as_str(),
            ),
            PolymarketError::Invalid(text) => "Polymarket 响应字段无效：".to_owned().concat(
                text.as_str(),
            ),
        }
    }
}

/// Where Polymarket is asked.
#[derive(Clone, Debug)]
pub struct PolymarketClient {
    gamma_base: String,
    clob_base: String,
}

impl PolymarketClient {
    pub closed spec fn gamma(self) -> Seq<char> {
        self.gamma_base@
    }

    pub closed spec fn clob(self) -> Seq<char> {
        self.clob_base@
    }

    pub fn new(gamma_base: String, clob_base: String) -> (result: PolymarketClient)
        ensures
            result.gamma() == gamma_base@,
            result.clob() == clob_base@,
    {
        PolymarketClient { gamma_base, clob_base }
    }

    /// Where events are looked up; the slug goes with it as a query parameter.
    pub fn events_url(&self) -> (result: String)
        ensures
            result@ == self.gamma() + "/events"@,
    {
        self.gamma_base.clone().concat("/events")
    }

    /// Where order books are looked up; the token goes with it as a query parameter.
    pub fn book_url(&self) -> (result: String)
        ensures
            result@ == self.clob() + "/book"@,
    {
        self.clob_base.clone().concat("/book")
    }
}

#[derive(Clone, Debug)]
pub struct PolymarketEvent {
    pub id: String,
    pub title: String,
    pub slug: String,
    pub start_date: String,
    pub end_date: String,
    pub closed: bool,
    pub event_metadata: Option<PolymarketEventMetadata>,
    pub markets: Vec<PolymarketMarket>,
}

#[derive(Clone, Debug)]
pub struct PolymarketEventMetadata {
    pub price_to_beat: Option<Decimal>,
    pub final_price: Option<Decimal>,
}

#[derive(Clone, Debug)]
pub struct PolymarketMarket {
    pub id: String,
    pub question: String,
    pub description: String,
    pub slug: String,
    pub outcomes: String,
    pub outcome_prices: String,
    pub clob_token_ids: String,
    pub fees_enabled: bool,
    pub fee_schedule: Option<PolymarketFeeSchedule>,
    pub resolution_source: String,
    pub event_start_time: Option<String>,
    pub closed: bool,
    pub uma_resolution_status: Option<String>,
}

#[derive(Clone, Debug)]
pub struct PolymarketFeeSchedule {
    pub rate: Decimal,
    pub exponent: i64,
}

/// The first of the answered events, if there is any.
pub fn first_event(events: Vec<PolymarketEvent>) -> (result: Option<PolymarketEvent>)
    ensures
        result == (if events@.len() > 0 {
            Some(events@[0])
        } else {
            None
        }),
{
    let mut events = events;
    if events.len() == 0 {
        None
    } else {
        Some(events.remove(0))
    }
}

/// The position of the first text that equals `name` up to case, if there is any.
pub open spec fn named_position(texts: Seq<Seq<char>>, name: Seq<char>, start: int) -> Option<int>
    decreases texts.len() - start,
{
    if start < 0 || start >= texts.len() {
        None
    } else if same_ignoring_case(texts[start], name) {
        Some(start)
    } else {
        named_position(texts, name, start + 1)
    }
}

/// The position of the first text that equals `name` up to case, if there is any.
fn position_named(texts: &Vec<String>, name: &str) -> (result: Option<usize>)
    ensures
        match result {
            Some(position) => position < texts@.len() && named_position(
                texts_of(texts@),
                name@,
                0,
            ) == Some(position as int),
            None => named_position(texts_of(texts@), name@, 0) is None,
        },
{
    let mut i: usize = 0;
    while i < texts.len()
        invariant
            i <= texts@.len(),
            named_position(texts_of(texts@), name@, 0) == named_position(
                texts_of(texts@),
                name@,
                i as int,
            ),
        decreases texts@.len() - i,
    {
        proof {
            assert(texts_of(texts@)[i as int] == texts@[i as int]@);
        }
        if eq_ignore_ascii_case(texts[i].as_str(), name) {
            return Some(i);
        }
        i = i + 1;
    }
    None
}

/// The tokens of the outcomes named "up" and "down", each at the position of its outcome.
pub open spec fn tokens_of(outcomes: Seq<Seq<char>>, tokens: Seq<Seq<char>>) -> Result<
    (Seq<char>, Seq<char>),
    PolymarketFault,
> {
    match (named_position(outcomes, "up"@, 0), named_position(outcomes, "down"@, 0)) {
        (Some(up), Some(down)) if up < tokens.len() && down < tokens.len() => Ok(
            (tokens[up], tokens[down]),
        ),
        _ => Err(PolymarketFault::Invalid("缺少 Up/Down Token"@)),
    }
}

pub open spec fn pair_result(value: Result<(String, String), PolymarketError>) -> Result<
    (Seq<char>, Seq<char>),
    PolymarketFault,
> {
    match value {
        Ok((first, second)) => Ok((first@, second@)),
        Err(error) => Err(error@),
    }
}

/// The tokens of the outcomes named "up" and "down".
pub fn pick_tokens(outcomes: &Vec<String>, tokens: &Vec<String>) -> (result: Result<
    (String, String),
    PolymarketError,
>)
    ensures
        pair_result(result) == tokens_of(texts_of(outcomes@), texts_of(tokens@)),
{
    let up = position_named(outcomes, "up");
    let down = position_named(outcomes, "down");
    match (up, down) {
        (Some(up), Some(down)) => {
            if up < tokens.len() && down < tokens.len() {
                Ok((tokens[up].clone(), tokens[down].clone()))
            } else {
                Err(PolymarketError::Invalid("缺少 Up/Down Token".to_owned()))
            }
        },
        _ => Err(PolymarketError::Invalid("缺少 Up/Down Token".to_owned())),
    }
}

/// The first outcome from `start` on whose price is one, if there is any.
pub open spec fn winner_from(outcomes: Seq<Seq<char>>, prices: Seq<Seq<char>>, start: int) -> Option<
    Seq<char>,
>
    decreases outcomes.len() - start,
{
    if start < 0 || start >= outcomes.len() || start >= prices.len() {
        None
    } else if (parsed_decimal(prices[start]) matches Some(price) && price.same(whole(1))) {
        Some(outcomes[start])
    } else {
        winner_from(outcomes, prices, start + 1)
    }
}

pub open spec fn outcome_result(value: Result<Option<String>, PolymarketError>) -> Result<
    Option<Seq<char>>,
    PolymarketFault,
> {
    match value {
        Ok(outcome) => Ok(text_of(outcome)),
        Err(error) => Err(error@),
    }
}

/// The outcome whose price is one; a resolved market without one is invalid.
pub open spec fn winner_of(outcomes: Seq<Seq<char>>, prices: Seq<Seq<char>>) -> Result<
    Option<Seq<char>>,
    PolymarketFault,
> {
    match winner_from(outcomes, prices, 0) {
        Some(outcome) => Ok(Some(outcome)),
        None => Err(PolymarketFault::Invalid("已结算市场缺少胜出 outcome"@)),
    }
}

/// The outcome whose price is one.
pub fn pick_winner(outcomes: &Vec<String>, prices: &Vec<String>) -> (result: Result<
    Option<String>,
    PolymarketError,
>)
    ensures
        outcome_result(result) == winner_of(texts_of(outcomes@), texts_of(prices@)),
{
    let mut i: usize = 0;
    while i < outcomes.len() && i < prices.len()
        invariant
            i <= outcomes@.len(),
            i <= prices@.len(),
            winner_from(texts_of(outcomes@), texts_of(prices@), 0) == winner_from(
                texts_of(outcomes@),
                texts_of(prices@),
                i as int,
            ),
        decreases outcomes@.len() - i,
    {
        proof {
            assert(texts_of(outcomes@)[i as int] == outcomes@[i as int]@);
            assert(texts_of(prices@)[i as int] == prices@[i as int]@);
        }
        if let Some(price) = Decimal::parse(prices[i].as_str()) {
            if price.equals(&Decimal::one()) {
                return Ok(Some(outcomes[i].clone()));
            }
        }
        i = i + 1;
    }
    Err(PolymarketError::Invalid("已结算市场缺少胜出 outcome".to_owned()))
}

/// What a list of strings in a field says, or that the field is invalid.
pub open spec fn field_strings(label: Seq<char>, text: Seq<char>) -> Result<
    Seq<Seq<char>>,
    PolymarketFault,
> {
    match json_strings(text) {
        Ok(list) => Ok(list),
        Err(error) => Err(PolymarketFault::Invalid(label + "："@ + error)),
    }
}

/// Reads a field that holds a list of strings in JSON.
fn read_field(label: &str, text: &str) -> (result: Result<Vec<String>, PolymarketError>)
    ensures
        match result {
            Ok(list) => field_strings(label@, text@) == Ok::<Seq<Seq<char>>, PolymarketFault>(
                texts_of(list@),
            ),
            Err(error) => field_strings(label@, text@) == Err::<Seq<Seq<char>>, PolymarketFault>(
                error@,
            ),
        },
{
    match read_strings(text) {
        Ok(list) => Ok(list),
        Err(error) => Err(
            PolymarketError::Invalid(label.to_owned().concat("：").concat(error.as_str())),
        ),
    }
}

impl PolymarketMarket {
    /// The tokens of the market, from its lists of outcomes and tokens.
    pub open spec fn tokens(self) -> Result<(Seq<char>, Seq<char>), PolymarketFault> {
        match field_strings("outcomes"@, self.outcomes@) {
            Err(fault) => Err(fault),
            Ok(outcomes) => match field_strings("clobTokenIds"@, self.clob_token_ids@) {
                Err(fault) => Err(fault),
                Ok(tokens) => tokens_of(outcomes, tokens),
            },
        }
    }

    /// The resolved outcome, from the lists of outcomes and their prices. A market that is
    /// not closed or not resolved has none.
    pub open spec fn resolution(self) -> Result<Option<Seq<char>>, PolymarketFault> {
        if !self.closed || text_of(self.uma_resolution_status) != Some("resolved"@) {
            Ok(None)
        } else {
            match field_strings("outcomes"@, self.outcomes@) {
                Err(fault) => Err(fault),
                Ok(outcomes) => match field_strings("outcomePrices"@, self.outcome_prices@) {
                    Err(fault) => Err(fault),
                    Ok(prices) => winner_of(outcomes, prices),
                },
            }
        }
    }

    /// The tokens of the outcomes named "up" and "down", in this order.
    pub fn outcome_tokens(&self) -> (result: Result<(String, String), PolymarketError>)
        ensures
            pair_result(result) == self.tokens(),
    {
        let outcomes = match read_field("outcomes", self.outcomes.as_str()) {
            Ok(list) => list,
            Err(error) => return Err(error),
        };
        let tokens = match read_field("clobTokenIds", self.clob_token_ids.as_str()) {
            Ok(list) => list,
            Err(error) => return Err(error),
        };
        pick_tokens(&outcomes, &tokens)
    }

    /// The outcome that a resolved market was settled to; none while it is not resolved.
    pub fn resolved_outcome(&self) -> (result: Result<Option<String>, PolymarketError>)
        ensures
            outcome_result(result) == self.resolution(),
    {
        let resolved = match &self.uma_resolution_status {
            Some(status) => same(status.as_str(), "resolved"),
            None => false,
        };
        if !self.closed || !resolved {
            return Ok(None);
        }
        let outcomes = match read_field("outcomes", self.outcomes.as_str()) {
            Ok(list) => list,
            Err(error) => return Err(error),
        };
        let prices = match read_field("outcomePrices", self.outcome_prices.as_str()) {
            Ok(list) => list,
            Err(error) => return Err(error),
        };
        pick_winner(&outcomes, &prices)
    }
}

#[derive(Clone, Debug)]
pub struct PolymarketOrderBook {
    pub timestamp: String,
    pub hash: String,
    pub bids: Vec<PolymarketPriceLevel>,
    pub asks: Vec<PolymarketPriceLevel>,
    pub min_order_size: String,
    pub tick_size: String,
}

#[derive(Clone, Debug)]
pub struct PolymarketPriceLevel {
    pub price: String,
    pub size: String,
}

/// The prices and sizes of levels as they are written.
pub open spec fn level_texts(levels: Seq<PolymarketPriceLevel>) -> Seq<(Seq<char>, Seq<char>)> {
    levels.map_values(|level: PolymarketPriceLevel| (level.price@, level.size@))
}

pub open spec fn level_fault(fault: LevelFault) -> PolymarketFault {
    match fault {
        LevelFault::Price => PolymarketFault::Invalid("订单价格"@),
        LevelFault::Quantity => PolymarketFault::Invalid("订单数量"@),
    }
}

impl PolymarketOrderBook {
    /// The asks in ascending order of price, or the first field that cannot be read.
    pub open spec fn ask_ladder(self) -> Result<Seq<LevelView>, PolymarketFault> {
        match read_ladder(level_texts(self.asks@), false) {
            Ok(ladder) => Ok(ladder),
            Err(fault) => Err(level_fault(fault)),
        }
    }

    /// The asks in ascending order of price.
    pub fn ask_levels(&self) -> (result: Result<Vec<(Decimal, Decimal)>, PolymarketError>)
        ensures
            match result {
                Ok(levels) => self.ask_ladder() == Ok::<Seq<LevelView>, PolymarketFault>(
                    ladder_of(levels@),
                ),
                Err(error) => self.ask_ladder() == Err::<Seq<LevelView>, PolymarketFault>(error@),
            },
    {
        let mut levels: Vec<(Decimal, Decimal)> = Vec::new();
        let mut i: usize = 0;
        let ghost texts = level_texts(self.asks@);
        let ghost goal = read_levels_from(texts, 0, Seq::empty());
        proof {
            assert(ladder_of(levels@) =~= Seq::<LevelView>::empty());
        }
        while i < self.asks.len()
            invariant
                i <= self.asks@.len(),
                texts == level_texts(self.asks@),
                goal == read_levels_from(texts, 0, Seq::empty()),
                goal == read_levels_from(texts, i as int, ladder_of(levels@)),
            decreases self.asks@.len() - i,
        {
            proof {
                assert(texts[i as int] == (self.asks@[i as int].price@, self.asks@[i as int].size@));
            }
            match read_level(self.asks[i].price.as_str(), self.asks[i].size.as_str()) {
                Ok(level) => {
                    let ghost before = levels@;
                    levels.push(level);
                    proof {
                        assert(ladder_of(levels@) =~= ladder_of(before).push(level_of(level)));
                    }
                },
                Err(LevelFault::Price) => {
                    return Err(PolymarketError::Invalid("订单价格".to_owned()));
                },
                Err(LevelFault::Quantity) => {
                    return Err(PolymarketError::Invalid("订单数量".to_owned()));
                },
            }
            i = i + 1;
        }
        Ok(sort_levels(&levels, false))
    }

    /// The cheapest ask, if there is any.
    pub fn best_ask(&self) -> (result: Result<Option<(Decimal, Decimal)>, PolymarketError>)
        ensures
            match result {
                Ok(best) => self.ask_ladder() matches Ok(ladder) && (match best {
                    Some(level) => ladder.len() > 0 && ladder[0] == level_of(level),
                    None => ladder.len() == 0,
                }),
                Err(error) => self.ask_ladder() == Err::<Seq<LevelView>, PolymarketFault>(error@),
            },
    {
        match self.ask_levels() {
            Ok(levels) => {
                if levels.len() == 0 {
                    Ok(None)
                } else {
                    proof {
                        assert(ladder_of(levels@)[0] == level_of(levels@[0]));
                    }
                    Ok(Some(levels[0]))
                }
            },
            Err(error) => Err(error),
        }
    }
}

proof fn lemma_named_position(texts: Seq<Seq<char>>, name: Seq<char>, start: int)
    requires
        0 <= start <= texts.len(),
    ensures
        match named_position(texts, name, start) {
            Some(place) => {
                &&& start <= place < texts.len()
                &&& same_ignoring_case(texts[place], name)
                &&& forall|i: int|
                    start <= i < place ==> !same_ignoring_case(#[trigger] texts[i], name)
            },
            None => forall|i: int|
                start <= i < texts.len() ==> !same_ignoring_case(#[trigger] texts[i], name),
        },
    decreases texts.len() - start,
{
    if start < texts.len() {
        lemma_named_position(texts, name, start + 1);
    }
}

/// A place is that of the first text of a name.
pub open spec fn is_first_named(texts: Seq<Seq<char>>, name: Seq<char>, place: int) -> bool {
    &&& 0 <= place < texts.len()
    &&& same_ignoring_case(texts[place], name)
    &&& forall|i: int| 0 <= i < place ==> !same_ignoring_case(#[trigger] texts[i], name)
}

/// The tokens of a market are those at the places of its first outcomes named Up and Down, and
/// there are tokens exactly where both outcomes have one.
pub proof fn tokens_stand_at_their_outcomes(outcomes: Seq<Seq<char>>, tokens: Seq<Seq<char>>)
    ensures
        match tokens_of(outcomes, tokens) {
            Ok((up_token, down_token)) => exists|up: int, down: int| #[trigger]
                is_first_named(outcomes, "up"@, up) && #[trigger] is_first_named(
                    outcomes,
                    "down"@,
                    down,
                ) && up < tokens.len() && down < tokens.len() && tokens[up] == up_token
                    && tokens[down] == down_token,
            Err(_) => forall|up: int, down: int| #[trigger]
                is_first_named(outcomes, "up"@, up) && #[trigger] is_first_named(
                    outcomes,
                    "down"@,
                    down,
                ) ==> up >= tokens.len() || down >= tokens.len(),
        },
{
    lemma_named_position(outcomes, "up"@, 0);
    lemma_named_position(outcomes, "down"@, 0);
    if let Ok((up_token, down_token)) = tokens_of(outcomes, tokens) {
        let up = named_position(outcomes, "up"@, 0)->0;
        let down = named_position(outcomes, "down"@, 0)->0;
        assert(is_first_named(outcomes, "up"@, up));
        assert(is_first_named(outcomes, "down"@, down));
    }
}

/// An outcome has won: its price is exactly one.
pub open spec fn has_won(prices: Seq<Seq<char>>, place: int) -> bool {
    parsed_decimal(prices[place]) matches Some(price) && price.units() == whole(1).units()
}

proof fn lemma_winner(outcomes: Seq<Seq<char>>, prices: Seq<Seq<char>>, start: int)
    requires
        0 <= start,
    ensures
        match winner_from(outcomes, prices, start) {
            Some(outcome) => exists|place: int|
                start <= place < outcomes.len() && place < prices.len() && #[trigger] has_won(
                    prices,
                    place,
                ) && outcomes[place] == outcome && forall|i: int|
                    start <= i < place ==> !#[trigger] has_won(prices, i),
            None => forall|i: int|
                start <= i < outcomes.len() && i < prices.len() ==> !#[trigger] has_won(prices, i),
        },
    decreases outcomes.len() - start,
{
    if start < outcomes.len() && start < prices.len() {
        lemma_winner(outcomes, prices, start + 1);
        if has_won(prices, start) {
            assert(outcomes[start] == winner_from(outcomes, prices, start)->0);
        }
    }
}

/// A resolved market is won by its first outcome whose price is exactly one, and is invalid
/// exactly where there is none.
pub proof fn the_first_outcome_at_one_wins(outcomes: Seq<Seq<char>>, prices: Seq<Seq<char>>)
    ensures
        match winner_of(outcomes, prices) {
            Ok(Some(outcome)) => exists|place: int|
                0 <= place < outcomes.len() && place < prices.len() && #[trigger] has_won(
                    prices,
                    place,
                ) && outcomes[place] == outcome && forall|i: int|
                    0 <= i < place ==> !#[trigger] has_won(prices, i),
            Ok(None) => false,
            Err(_) => forall|i: int|
                0 <= i < outcomes.len() && i < prices.len() ==> !#[trigger] has_won(prices, i),
        },
{
    lemma_winner(outcomes, prices, 0);
}

/// Only a closed market that is resolved has an outcome.
pub proof fn only_resolved_markets_have_an_outcome(market: PolymarketMarket)
    ensures
        market.resolution() matches Ok(Some(_)) ==> market.closed && text_of(
            market.uma_resolution_status,
        ) == Some("resolved"@),
        !market.closed || text_of(market.uma_resolution_status) != Some("resolved"@)
            ==> market.resolution() == Ok::<Option<Seq<char>>, PolymarketFault>(None),
{
}

/// The asks of a book are read level by level, each at its price and of its size, the lowest
/// price first.
pub proof fn book_asks_are_read_at_their_price(
    book: PolymarketOrderBook,
    ladder: Seq<LevelView>,
    place: int,
)
    requires
        book.ask_ladder() == Ok::<Seq<LevelView>, PolymarketFault>(ladder),
        0 <= place < book.asks@.len(),
    ensures
        ladder.len() == book.asks@.len(),
        parsed_decimal(book.asks@[place].price@) is Some,
        parsed_decimal(book.asks@[place].size@) is Some,
        ladder.contains(
            LevelView {
                price: parsed_decimal(book.asks@[place].price@)->0,
                quantity: parsed_decimal(book.asks@[place].size@)->0,
            },
        ),
        ladder[0].price.units() <= parsed_decimal(book.asks@[place].price@)->0.units(),
{
    let asks = book.asks@;
    assert(level_texts(asks)[place] == (asks[place].price@, asks[place].size@));
    read_ladders_hold_every_level(level_texts(asks), false, ladder, place);
}

} // verus!
