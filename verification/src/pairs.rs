//! Pairs of markets on both venues: how they are found, built and classified.
use vstd::prelude::*;

use crate::binance::{BinanceMarketDetail, BinanceMarketTopic};
use crate::decimal::{decimal_text, zero, zero_units, Decimal, DecimalView};
use crate::domain::{PairClassification, ResolutionSpec, ResolutionView};
use crate::matcher::{
    assessment_of, classify_candidate_pair, is_collateral_note, only_collateral,
};
use crate::polymarket::{PolymarketEvent, PolymarketMarket};
use crate::quotes::{checked_slug_start_ms, slug_start};
use crate::text::{
    ascii_lower, ascii_lowercase, ascii_upper, ascii_uppercase, contains, copy_list, copy_option,
    eq_ignore_ascii_case, int_text, integer_of, integer_text, occurs_at, occurs_in, same, same_ignoring_case,
    starts_with, strip_suffix, text_of, texts_of, without_suffix,
};
use crate::time::{minus_saturating, parse_rfc3339, rfc3339_millis, saturated_difference};

verus! {

/// A pair of markets as it is shown.
#[derive(Clone, Debug)]
pub struct TrackedPairView {
    pub slug: String,
    pub binance_topic_id: i64,
    pub title: String,
    pub asset: String,
    pub duration: String,
    pub classification: String,
    pub differences: Vec<String>,
    pub binance_source: String,
    pub polymarket_source: String,
    pub start_ms: i64,
    pub end_ms: i64,
    pub binance_fee_bps: i64,
    pub polymarket_fee_rate: String,
    pub liquidity: String,
    pub trade_volume: String,
}

/// A pair of markets, its texts as characters.
#[verifier::ext_equal]
pub struct TrackedView {
    pub slug: Seq<char>,
    pub binance_topic_id: i64,
    pub title: Seq<char>,
    pub asset: Seq<char>,
    pub duration: Seq<char>,
    pub classification: Seq<char>,
    pub differences: Seq<Seq<char>>,
    pub binance_source: Seq<char>,
    pub polymarket_source: Seq<char>,
    pub start_ms: i64,
    pub end_ms: i64,
    pub binance_fee_bps: i64,
    pub polymarket_fee_rate: Seq<char>,
    pub liquidity: Seq<char>,
    pub trade_volume: Seq<char>,
}

impl View for TrackedPairView {
    type V = TrackedView;

    open spec fn view(&self) -> TrackedView {
        TrackedView {
            slug: self.slug@,
            binance_topic_id: self.binance_topic_id,
            title: self.title@,
            asset: self.asset@,
            duration: self.duration@,
            classification: self.classification@,
            differences: texts_of(self.differences@),
            binance_source: self.binance_source@,
            polymarket_source: self.polymarket_source@,
            start_ms: self.start_ms,
            end_ms: self.end_ms,
            binance_fee_bps: self.binance_fee_bps,
            polymarket_fee_rate: self.polymarket_fee_rate@,
            liquidity: self.liquidity@,
            trade_volume: self.trade_volume@,
        }
    }
}

/// A copy of a pair.
pub fn copy_pair(pair: &TrackedPairView) -> (result: TrackedPairView)
    ensures
        result@ == pair@,
{
    TrackedPairView {
        slug: pair.slug.clone(),
        binance_topic_id: pair.binance_topic_id,
        title: pair.title.clone(),
        asset: pair.asset.clone(),
        duration: pair.duration.clone(),
        classification: pair.classification.clone(),
        differences: copy_list(&pair.differences),
        binance_source: pair.binance_source.clone(),
        polymarket_source: pair.polymarket_source.clone(),
        start_ms: pair.start_ms,
        end_ms: pair.end_ms,
        binance_fee_bps: pair.binance_fee_bps,
        polymarket_fee_rate: pair.polymarket_fee_rate.clone(),
        liquidity: pair.liquidity.clone(),
        trade_volume: pair.trade_volume.clone(),
    }
}

/// A pair of markets with what is needed to scan it.
#[derive(Clone, Debug)]
pub struct TrackedPair {
    pub view: TrackedPairView,
    pub binance: BinanceMarketDetail,
    pub polymarket_up_token: String,
    pub polymarket_down_token: String,
    pub polymarket_fee_rate: Decimal,
}

/// Whether a pair is worth observing.
pub open spec fn research_eligible(classification: Seq<char>) -> bool {
    classification == "exact"@ || classification == "basis"@
}

/// Whether a pair is worth observing: its markets are about the same event.
pub fn is_research_eligible(classification: &str) -> (result: bool)
    ensures
        result == research_eligible(classification@),
{
    same(classification, "exact") || same(classification, "basis")
}

/// Whether both markets of a pair settle alike: nothing differs, or the collateral only.
pub open spec fn settlement_aligned(pair: TrackedView) -> bool {
    ||| pair.classification == "exact"@
    ||| pair.classification == "basis"@ && only_collateral(pair.differences)
}

/// Whether both markets of a pair settle alike.
pub fn is_paper_settlement_aligned(pair: &TrackedPairView) -> (result: bool)
    ensures
        result == settlement_aligned(pair@),
{
    if same(pair.classification.as_str(), "exact") {
        return true;
    }
    if !same(pair.classification.as_str(), "basis") {
        return false;
    }
    let mut i: usize = 0;
    while i < pair.differences.len()
        invariant
            i <= pair.differences@.len(),
            pair@.classification != "exact"@,
            pair@.differences == texts_of(pair.differences@),
            forall|k: int|
                0 <= k < i ==> is_collateral_note(#[trigger] pair@.differences[k]),
        decreases pair.differences@.len() - i,
    {
        proof {
            assert(pair@.differences[i as int] == pair.differences@[i as int]@);
        }
        if !starts_with(pair.differences[i].as_str(), "抵押/兑付币种不同") {
            return false;
        }
        i = i + 1;
    }
    true
}

/// An aligned pair is worth observing.
pub proof fn aligned_pairs_are_eligible(pair: TrackedView)
    requires
        settlement_aligned(pair),
    ensures
        research_eligible(pair.classification),
{
}

/// Milliseconds within which the start of a market must lie to be tracked.
pub const DISCOVERY_HORIZON_MS: i64 = 86_400_000;

/// A topic that has not ended and starts within a day.
pub open spec fn is_candidate(topic: BinanceMarketTopic, now_ms: int) -> bool {
    topic.end_date > now_ms && topic.start_date <= now_ms + DISCOVERY_HORIZON_MS
}

/// Whether a topic is to be paired.
pub fn is_candidate_topic(topic: &BinanceMarketTopic, now_ms: i64) -> (result: bool)
    ensures
        result == is_candidate(*topic, now_ms as int),
{
    topic.end_date > now_ms && topic.start_date as i128 <= now_ms as i128
        + DISCOVERY_HORIZON_MS as i128
}

/// Whether a pair is being traded.
pub fn is_active(pair: &TrackedPairView, now_ms: i64) -> (result: bool)
    ensures
        result == (pair.start_ms <= now_ms < pair.end_ms),
{
    pair.start_ms <= now_ms && pair.end_ms > now_ms
}

/// Whether a topic is the running one-hour market on a symbol.
pub open spec fn is_live_hour(topic: BinanceMarketTopic, symbol: Seq<char>, now_ms: int) -> bool {
    &&& same_ignoring_case(topic.symbol@, symbol)
    &&& topic.start_date <= now_ms
    &&& topic.end_date > now_ms
    &&& saturated_difference(topic.end_date as int, topic.start_date as int) == 3_600_000
}

/// The position of the first running one-hour market on a symbol from `start` on.
pub open spec fn live_hour_from(
    topics: Seq<BinanceMarketTopic>,
    symbol: Seq<char>,
    now_ms: int,
    start: int,
) -> Option<int>
    decreases topics.len() - start,
{
    if start < 0 || start >= topics.len() {
        None
    } else if is_live_hour(topics[start], symbol, now_ms) {
        Some(start)
    } else {
        live_hour_from(topics, symbol, now_ms, start + 1)
    }
}

/// The symbol of an asset against USDT.
pub open spec fn usdt_symbol(asset: Seq<char>) -> Seq<char> {
    ascii_upper(asset) + "USDT"@
}

/// The position of the running one-hour market on an asset, or that there is none.
pub fn find_live_hour(topics: &Vec<BinanceMarketTopic>, asset: &str, now_ms: i64) -> (result: Result<
    usize,
    String,
>)
    ensures
        match result {
            Ok(position) => position < topics@.len() && live_hour_from(
                topics@,
                usdt_symbol(asset@),
                now_ms as int,
                0,
            ) == Some(position as int),
            Err(error) => live_hour_from(topics@, usdt_symbol(asset@), now_ms as int, 0) is None
                && error@ == "没有找到当前 "@ + asset@ + " 1h 市场"@,
        },
{
    let symbol = ascii_uppercase(asset).concat("USDT");
    let mut i: usize = 0;
    while i < topics.len()
        invariant
            i <= topics@.len(),
            symbol@ == usdt_symbol(asset@),
            live_hour_from(topics@, symbol@, now_ms as int, 0) == live_hour_from(
                topics@,
                symbol@,
                now_ms as int,
                i as int,
            ),
        decreases topics@.len() - i,
    {
        let topic = &topics[i];
        if eq_ignore_ascii_case(topic.symbol.as_str(), symbol.as_str()) && topic.start_date
            <= now_ms && topic.end_date > now_ms && minus_saturating(
            topic.end_date,
            topic.start_date,
        ) == 3_600_000 {
            return Ok(i);
        }
        i = i + 1;
    }
    Err("没有找到当前 ".to_owned().concat(asset).concat(" 1h 市场"))
}

/// The asset of a symbol.
pub open spec fn asset_of(symbol: Seq<char>) -> Seq<char> {
    without_suffix(symbol, "USDT"@)
}

/// The whole minutes of a span in milliseconds, towards zero.
pub open spec fn minutes_of(span_ms: int) -> int {
    if span_ms >= 0 {
        span_ms / 60_000
    } else {
        -((-span_ms) / 60_000)
    }
}

/// How long a market runs, in minutes, days or hours; `None` on overflow.
pub open spec fn duration_text(start_ms: int, end_ms: int) -> Option<Seq<char>> {
    let span = end_ms - start_ms;
    let minutes = minutes_of(span);
    if span < i64::MIN || span > i64::MAX {
        None
    } else if minutes < 60 {
        Some(int_text(minutes) + "m"@)
    } else if minutes % 1440 == 0 {
        Some(int_text(minutes / 1440) + "d"@)
    } else {
        Some(int_text(minutes / 60) + "h"@)
    }
}

/// How long a market runs; `None` on overflow.
pub fn duration_label(start_ms: i64, end_ms: i64) -> (result: Option<String>)
    ensures
        text_of(result) == duration_text(start_ms as int, end_ms as int),
{
    let span: i64 = end_ms.checked_sub(start_ms)?;
    let wide: i128 = span as i128;
    let minutes: i64 = if wide >= 0 {
        (wide / 60_000) as i64
    } else {
        -(((-wide) / 60_000) as i64)
    };
    if minutes < 60 {
        Some(integer_text(minutes).concat("m"))
    } else if minutes % 1440 == 0 {
        Some(integer_text(minutes / 1440).concat("d"))
    } else {
        Some(integer_text(minutes / 60).concat("h"))
    }
}

/// How Binance resolves a market.
pub open spec fn binance_resolution(
    detail: BinanceMarketDetail,
    asset: Seq<char>,
    duration: Seq<char>,
) -> ResolutionView {
    let provider = detail.variant_data.price_feed_provider@;
    let at_least = detail.description is Some && occurs_in(
        detail.description->0@,
        "greater than or equal"@,
    );
    ResolutionView {
        asset,
        quote_currency: "USDT"@,
        price_feed_provider: provider,
        price_feed_id: text_of(detail.variant_data.price_feed_id),
        calculation: if same_ignoring_case(provider, "BINANCE"@) {
            "candle_open_close_"@ + duration
        } else {
            "top_of_book_5m_candle_close"@
        },
        up_comparison: if at_least {
            "greater_than_or_equal"@
        } else {
            "greater_than"@
        },
        equal_rule: if at_least {
            "up"@
        } else {
            "split_50_50"@
        },
        fallback_rule: if detail.description is Some && occurs_in(
            detail.description->0@,
            "consensus of reliable sources"@,
        ) {
            Some("source_consensus"@)
        } else {
            None
        },
        collateral: detail.collateral@,
    }
}

/// How Polymarket resolves a market.
pub open spec fn polymarket_resolution(
    source: Seq<char>,
    asset: Seq<char>,
    duration: Seq<char>,
) -> ResolutionView {
    let uses_binance = occurs_in(ascii_lower(source), "binance.com"@);
    ResolutionView {
        asset,
        quote_currency: if uses_binance {
            "USDT"@
        } else {
            "USD"@
        },
        price_feed_provider: if uses_binance {
            "BINANCE"@
        } else {
            "CHAINLINK"@
        },
        price_feed_id: if uses_binance {
            None
        } else {
            Some(source)
        },
        calculation: if uses_binance {
            "candle_open_close_"@ + duration
        } else {
            "twap_60s"@
        },
        up_comparison: "greater_than_or_equal"@,
        equal_rule: "up"@,
        fallback_rule: None,
        collateral: "USDC"@,
    }
}

fn describe_binance(detail: &BinanceMarketDetail, asset: &str, duration: &str) -> (result:
    ResolutionSpec)
    ensures
        result@ == binance_resolution(*detail, asset@, duration@),
{
    let uses_candle = eq_ignore_ascii_case(
        detail.variant_data.price_feed_provider.as_str(),
        "BINANCE",
    );
    let (at_least, consensus) = match &detail.description {
        Some(description) => (
            contains(description.as_str(), "greater than or equal"),
            contains(description.as_str(), "consensus of reliable sources"),
        ),
        None => (false, false),
    };
    ResolutionSpec {
        asset: asset.to_owned(),
        quote_currency: "USDT".to_owned(),
        price_feed_provider: detail.variant_data.price_feed_provider.clone(),
        price_feed_id: copy_option(&detail.variant_data.price_feed_id),
        calculation: if uses_candle {
            "candle_open_close_".to_owned().concat(duration)
        } else {
            "top_of_book_5m_candle_close".to_owned()
        },
        up_comparison: if at_least {
            "greater_than_or_equal".to_owned()
        } else {
            "greater_than".to_owned()
        },
        equal_rule: if at_least {
            "up".to_owned()
        } else {
            "split_50_50".to_owned()
        },
        fallback_rule: if consensus {
            Some("source_consensus".to_owned())
        } else {
            None
        },
        collateral: detail.collateral.clone(),
    }
}

fn describe_polymarket(source: &str, asset: &str, duration: &str) -> (result: ResolutionSpec)
    ensures
        result@ == polymarket_resolution(source@, asset@, duration@),
{
    let uses_binance = contains(ascii_lowercase(source).as_str(), "binance.com");
    ResolutionSpec {
        asset: asset.to_owned(),
        quote_currency: if uses_binance {
            "USDT".to_owned()
        } else {
            "USD".to_owned()
        },
        price_feed_provider: if uses_binance {
            "BINANCE".to_owned()
        } else {
            "CHAINLINK".to_owned()
        },
        price_feed_id: if uses_binance {
            None
        } else {
            Some(source.to_owned())
        },
        calculation: if uses_binance {
            "candle_open_close_".to_owned().concat(duration)
        } else {
            "twap_60s".to_owned()
        },
        up_comparison: "greater_than_or_equal".to_owned(),
        equal_rule: "up".to_owned(),
        fallback_rule: None,
        collateral: "USDC".to_owned(),
    }
}

/// The name of a classification.
pub open spec fn classification_text(classification: PairClassification) -> Seq<char> {
    match classification {
        PairClassification::Exact => "exact"@,
        PairClassification::Basis => "basis"@,
        PairClassification::Incompatible => "incompatible"@,
    }
}

/// The name of a classification.
pub fn classification_name(classification: PairClassification) -> (result: String)
    ensures
        result@ == classification_text(classification),
{
    match classification {
        PairClassification::Exact => "exact".to_owned(),
        PairClassification::Basis => "basis".to_owned(),
        PairClassification::Incompatible => "incompatible".to_owned(),
    }
}

/// The position of the first market under a slug from `start` on.
pub open spec fn market_from(markets: Seq<PolymarketMarket>, slug: Seq<char>, start: int) -> Option<
    int,
>
    decreases markets.len() - start,
{
    if start < 0 || start >= markets.len() {
        None
    } else if markets[start].slug@ == slug {
        Some(start)
    } else {
        market_from(markets, slug, start + 1)
    }
}

/// The position of the first market under a slug.
pub fn find_market(markets: &Vec<PolymarketMarket>, slug: &str) -> (result: Option<usize>)
    ensures
        match result {
            Some(position) => position < markets@.len() && market_from(markets@, slug@, 0) == Some(
                position as int,
            ),
            None => market_from(markets@, slug@, 0) is None,
        },
{
    let mut i: usize = 0;
    while i < markets.len()
        invariant
            i <= markets@.len(),
            market_from(markets@, slug@, 0) == market_from(markets@, slug@, i as int),
        decreases markets@.len() - i,
    {
        if same(markets[i].slug.as_str(), slug) {
            return Some(i);
        }
        i = i + 1;
    }
    None
}

/// The fee rate of a Polymarket market; only fees of the first power are known.
pub open spec fn fee_rate_of(market: PolymarketMarket, slug: Seq<char>) -> Result<
    DecimalView,
    Seq<char>,
> {
    if !market.fees_enabled {
        Ok(zero())
    } else {
        match market.fee_schedule {
            None => Err("Polymarket 市场缺少 feeSchedule："@ + slug),
            Some(schedule) => if schedule.exponent != 1 {
                Err(
                    "Polymarket 暂不支持的费用指数："@ + slug + " exponent="@ + int_text(
                        schedule.exponent as int,
                    ),
                )
            } else {
                Ok(schedule.rate@)
            },
        }
    }
}

/// The fee rate of a Polymarket market.
pub fn market_fee_rate(market: &PolymarketMarket, slug: &str) -> (result: Result<Decimal, String>)
    ensures
        match result {
            Ok(rate) => fee_rate_of(*market, slug@) == Ok::<DecimalView, Seq<char>>(rate@),
            Err(error) => fee_rate_of(*market, slug@) == Err::<DecimalView, Seq<char>>(error@),
        },
{
    if !market.fees_enabled {
        return Ok(Decimal::zero());
    }
    match &market.fee_schedule {
        None => Err("Polymarket 市场缺少 feeSchedule：".to_owned().concat(slug)),
        Some(schedule) => {
            if schedule.exponent != 1 {
                Err(
                    "Polymarket 暂不支持的费用指数：".to_owned().concat(slug).concat(
                        " exponent=",
                    ).concat(integer_text(schedule.exponent).as_str()),
                )
            } else {
                Ok(schedule.rate)
            }
        },
    }
}

/// The start of a Polymarket market: as it is given, else as the slug says. The outer `None` is
/// an overflow.
pub open spec fn polymarket_start(market: PolymarketMarket, slug: Seq<char>) -> Option<Option<int>> {
    let given = match market.event_start_time {
        Some(text) => rfc3339_millis(text@),
        None => None,
    };
    match given {
        Some(start) => Some(Some(start)),
        None => slug_start(slug),
    }
}

fn market_start(market: &PolymarketMarket, slug: &str) -> (result: Option<Option<i64>>)
    ensures
        match result {
            Some(start) => polymarket_start(*market, slug@) == Some(integer_of(start)),
            None => polymarket_start(*market, slug@) is None,
        },
{
    let given: Option<i64> = match &market.event_start_time {
        Some(text) => parse_rfc3339(text.as_str()),
        None => None,
    };
    match given {
        Some(start) => Some(Some(start)),
        None => checked_slug_start_ms(slug),
    }
}

/// What a pair is built from, beside the texts that are shown.
#[verifier::ext_equal]
pub struct PairFigures {
    pub view: TrackedView,
    pub up_token: Seq<char>,
    pub down_token: Seq<char>,
    pub fee_rate: DecimalView,
}

/// The pair of a Binance market and a Polymarket market. The outer `None` is an overflow.
pub open spec fn pair_of(
    topic: BinanceMarketTopic,
    detail: BinanceMarketDetail,
    event: PolymarketEvent,
    market: PolymarketMarket,
) -> Option<Result<PairFigures, Seq<char>>> {
    match market.tokens() {
        Err(fault) => Some(Err(fault.words())),
        Ok((up_token, down_token)) => match fee_rate_of(market, detail.slug@) {
            Err(words) => Some(Err(words)),
            Ok(fee_rate) => match (
                duration_text(detail.start_date as int, detail.end_date as int),
                polymarket_start(market, topic.slug@),
            ) {
                (Some(duration), Some(start)) => if detail.markets@.len() == 0 {
                    Some(Err("Binance 市场缺少 outcome"@))
                } else if detail.markets@[0].outcomes@.len() < 2 {
                    Some(Err("Binance 市场缺少 Up/Down Token"@))
                } else {
                    let asset = asset_of(detail.symbol@);
                    let end = match rfc3339_millis(event.end_date@) {
                        Some(end) => end,
                        None => 0,
                    };
                    let (classification, differences) = assessment_of(
                        start == Some(detail.start_date as int),
                        end == detail.end_date,
                        binance_resolution(detail, asset, duration),
                        polymarket_resolution(market.resolution_source@, asset, duration),
                    );
                    Some(
                        Ok(
                            PairFigures {
                                view: TrackedView {
                                    slug: detail.slug@,
                                    binance_topic_id: detail.market_topic_id,
                                    title: detail.title@,
                                    asset,
                                    duration,
                                    classification: classification_text(classification),
                                    differences,
                                    binance_source: detail.variant_data.price_feed_provider@ + "/"@
                                        + detail.variant_data.price_feed_symbol@,
                                    polymarket_source: market.resolution_source@,
                                    start_ms: detail.start_date,
                                    end_ms: detail.end_date,
                                    binance_fee_bps: detail.fee_rate_bps,
                                    polymarket_fee_rate: decimal_text(fee_rate),
                                    liquidity: topic.liquidity@,
                                    trade_volume: topic.trade_volume@,
                                },
                                up_token,
                                down_token,
                                fee_rate,
                            },
                        ),
                    )
                },
                _ => None,
            },
        },
    }
}

/// The pair of a topic, where Polymarket has the event and in it a market under the same slug.
/// The outer `None` is an overflow.
pub open spec fn pair_outcome(
    topic: BinanceMarketTopic,
    detail: BinanceMarketDetail,
    event: Option<PolymarketEvent>,
) -> Option<Result<Option<PairFigures>, Seq<char>>> {
    match event {
        None => Some(Ok(None)),
        Some(event) => match market_from(event.markets@, detail.slug@, 0) {
            None => Some(Ok(None)),
            Some(position) => match pair_of(topic, detail, event, event.markets@[position]) {
                None => None,
                Some(Err(words)) => Some(Err(words)),
                Some(Ok(figures)) => Some(Ok(Some(figures))),
            },
        },
    }
}

/// A pair has the figures it was built from, and carries the details of its Binance market.
pub open spec fn is_pair(
    pair: TrackedPair,
    figures: PairFigures,
    detail: BinanceMarketDetail,
) -> bool {
    &&& pair.view@ == figures.view
    &&& pair.binance == detail
    &&& pair.polymarket_up_token@ == figures.up_token
    &&& pair.polymarket_down_token@ == figures.down_token
    &&& pair.polymarket_fee_rate@ == figures.fee_rate
}

/// Builds the pair of a topic from what both venues say of it; the outer `None` is an overflow.
pub fn build_pair(
    topic: &BinanceMarketTopic,
    detail: BinanceMarketDetail,
    event: Option<PolymarketEvent>,
) -> (result: Option<Result<Option<TrackedPair>, String>>)
    ensures
        match pair_outcome(*topic, detail, event) {
            None => result is None,
            Some(Err(words)) => result matches Some(Err(error)) && error@ == words,
            Some(Ok(None)) => result matches Some(Ok(None)),
            Some(Ok(Some(figures))) => result matches Some(Ok(Some(pair))) && is_pair(
                pair,
                figures,
                detail,
            ),
        },
{
    let event = match event {
        Some(event) => event,
        None => return Some(Ok(None)),
    };
    let position: usize = match find_market(&event.markets, detail.slug.as_str()) {
        Some(position) => position,
        None => return Some(Ok(None)),
    };
    let market = &event.markets[position];
    let (polymarket_up_token, polymarket_down_token) = match market.outcome_tokens() {
        Ok(tokens) => tokens,
        Err(error) => return Some(Err(error.message())),
    };
    let polymarket_fee_rate = match market_fee_rate(market, detail.slug.as_str()) {
        Ok(rate) => rate,
        Err(error) => return Some(Err(error)),
    };
    let asset = strip_suffix(detail.symbol.as_str(), "USDT");
    let duration = duration_label(detail.start_date, detail.end_date)?;
    let start: Option<i64> = market_start(market, topic.slug.as_str())?;
    if detail.markets.len() == 0 {
        return Some(Err("Binance 市场缺少 outcome".to_owned()));
    }
    if detail.markets[0].outcomes.len() < 2 {
        return Some(Err("Binance 市场缺少 Up/Down Token".to_owned()));
    }
    let binance_spec = describe_binance(&detail, asset.as_str(), duration.as_str());
    let polymarket_spec = describe_polymarket(
        market.resolution_source.as_str(),
        asset.as_str(),
        duration.as_str(),
    );
    let end: i64 = match parse_rfc3339(event.end_date.as_str()) {
        Some(end) => end,
        None => 0,
    };
    let start_matches = match start {
        Some(start) => start == detail.start_date,
        None => false,
    };
    let assessment = classify_candidate_pair(
        start_matches,
        end == detail.end_date,
        &binance_spec,
        &polymarket_spec,
    );
    let view = TrackedPairView {
        slug: detail.slug.clone(),
        binance_topic_id: detail.market_topic_id,
        title: detail.title.clone(),
        asset,
        duration,
        classification: classification_name(assessment.classification),
        differences: assessment.differences,
        binance_source: detail.variant_data.price_feed_provider.clone().concat("/").concat(
            detail.variant_data.price_feed_symbol.as_str(),
        ),
        polymarket_source: market.resolution_source.clone(),
        start_ms: detail.start_date,
        end_ms: detail.end_date,
        binance_fee_bps: detail.fee_rate_bps,
        polymarket_fee_rate: polymarket_fee_rate.text(),
        liquidity: topic.liquidity.clone(),
        trade_volume: topic.trade_volume.clone(),
    };
    Some(
        Ok(
            Some(
                TrackedPair {
                    view,
                    binance: detail,
                    polymarket_up_token,
                    polymarket_down_token,
                    polymarket_fee_rate,
                },
            ),
        ),
    )
}

/// Two markets settle alike exactly where nothing about their event differs and, of their
/// rules, at most the collateral.
pub proof fn alignment_means_same_rules(
    start_matches: bool,
    end_matches: bool,
    left: ResolutionView,
    right: ResolutionView,
    pair: TrackedView,
)
    requires
        pair.classification == classification_text(
            assessment_of(start_matches, end_matches, left, right).0,
        ),
        pair.differences == assessment_of(start_matches, end_matches, left, right).1,
    ensures
        settlement_aligned(pair) <==> {
            &&& left.asset == right.asset
            &&& start_matches && end_matches
            &&& left.quote_currency == right.quote_currency
            &&& left.price_feed_provider == right.price_feed_provider
            &&& left.price_feed_id == right.price_feed_id
            &&& left.calculation == right.calculation
            &&& left.up_comparison == right.up_comparison
            &&& left.equal_rule == right.equal_rule
            &&& left.fallback_rule == right.fallback_rule
        },
{
    crate::matcher::collateral_notes_stand_apart(start_matches, end_matches, left, right);
    reveal_strlit("exact");
    reveal_strlit("basis");
    reveal_strlit("incompatible");
    let (classification, differences) = assessment_of(start_matches, end_matches, left, right);
    assert("exact"@.len() != "incompatible"@.len());
    assert("basis"@.len() != "incompatible"@.len());
    assert("exact"@[0] != "basis"@[0]);
}

/// The description of a Binance market says a phrase.
pub open spec fn says(detail: BinanceMarketDetail, phrase: Seq<char>) -> bool {
    detail.description matches Some(description) && exists|start: int| #[trigger]
        occurs_at(description@, phrase, start)
}

/// A Binance market is described as paying Up on a tie exactly where its description says
/// "greater than or equal", and else as splitting; as falling back on a consensus exactly where
/// it says so; and otherwise as its variant data name it.
pub proof fn ties_pay_up_where_the_description_says_so(
    detail: BinanceMarketDetail,
    asset: Seq<char>,
    duration: Seq<char>,
)
    ensures
        ({
            let described = binance_resolution(detail, asset, duration);
            &&& described.equal_rule == "up"@ <==> says(detail, "greater than or equal"@)
            &&& described.equal_rule == "split_50_50"@ <==> !says(
                detail,
                "greater than or equal"@,
            )
            &&& described.up_comparison == "greater_than_or_equal"@ <==> says(
                detail,
                "greater than or equal"@,
            )
            &&& described.up_comparison == "greater_than"@ <==> !says(
                detail,
                "greater than or equal"@,
            )
            &&& described.fallback_rule == Some("source_consensus"@) <==> says(
                detail,
                "consensus of reliable sources"@,
            )
            &&& described.fallback_rule is None <==> !says(
                detail,
                "consensus of reliable sources"@,
            )
            &&& described.asset == asset
            &&& described.quote_currency == "USDT"@
            &&& described.price_feed_provider == detail.variant_data.price_feed_provider@
            &&& described.price_feed_id == text_of(detail.variant_data.price_feed_id)
            &&& described.collateral == detail.collateral@
            &&& same_ignoring_case(detail.variant_data.price_feed_provider@, "BINANCE"@)
                ==> described.calculation == "candle_open_close_"@ + duration
            &&& !same_ignoring_case(detail.variant_data.price_feed_provider@, "BINANCE"@)
                ==> described.calculation == "top_of_book_5m_candle_close"@
        }),
{
    lemma_rule_names();
}

/// A Polymarket market always pays Up on a tie and in USDC. It is described by the candles of
/// Binance against USDT exactly where its source names Binance, and else by the average of its
/// own source against USD.
pub proof fn polymarket_is_described_by_its_source(
    source: Seq<char>,
    asset: Seq<char>,
    duration: Seq<char>,
)
    ensures
        ({
            let described = polymarket_resolution(source, asset, duration);
            let names_binance = exists|start: int| #[trigger]
                occurs_at(ascii_lower(source), "binance.com"@, start);
            &&& described.asset == asset
            &&& described.equal_rule == "up"@
            &&& described.up_comparison == "greater_than_or_equal"@
            &&& described.fallback_rule is None
            &&& described.collateral == "USDC"@
            &&& names_binance ==> {
                &&& described.quote_currency == "USDT"@
                &&& described.price_feed_provider == "BINANCE"@
                &&& described.price_feed_id is None
                &&& described.calculation == "candle_open_close_"@ + duration
            }
            &&& !names_binance ==> {
                &&& described.quote_currency == "USD"@
                &&& described.price_feed_provider == "CHAINLINK"@
                &&& described.price_feed_id == Some(source)
                &&& described.calculation == "twap_60s"@
            }
        }),
{
}

proof fn lemma_rule_names()
    ensures
        "up"@ != "split_50_50"@,
        "greater_than"@ != "greater_than_or_equal"@,
        "USDT"@ != "USD"@,
        "BINANCE"@ != "CHAINLINK"@,
        "exact"@ != "basis"@,
        "exact"@ != "incompatible"@,
        "basis"@ != "incompatible"@,
{
    reveal_strlit("up");
    reveal_strlit("split_50_50");
    reveal_strlit("greater_than");
    reveal_strlit("greater_than_or_equal");
    reveal_strlit("USDT");
    reveal_strlit("USD");
    reveal_strlit("BINANCE");
    reveal_strlit("CHAINLINK");
    reveal_strlit("exact");
    reveal_strlit("basis");
    reveal_strlit("incompatible");
    assert("up"@.len() != "split_50_50"@.len());
    assert("greater_than"@.len() != "greater_than_or_equal"@.len());
    assert("USDT"@.len() != "USD"@.len());
    assert("BINANCE"@.len() != "CHAINLINK"@.len());
    assert("exact"@[0] != "basis"@[0]);
    assert("exact"@.len() != "incompatible"@.len());
    assert("basis"@.len() != "incompatible"@.len());
}

/// Both markets run from the same start to the same end.
pub open spec fn same_window(
    topic: BinanceMarketTopic,
    detail: BinanceMarketDetail,
    event: PolymarketEvent,
    market: PolymarketMarket,
) -> bool {
    &&& polymarket_start(market, topic.slug@) == Some(Some(detail.start_date as int))
    &&& match rfc3339_millis(event.end_date@) {
        Some(end) => end == detail.end_date,
        None => detail.end_date == 0,
    }
}

/// Both markets are resolved by the same Binance candles in the same way: Polymarket names
/// Binance as its source, so does Binance, without a feed of its own and without another
/// fallback, and a tie pays Up on Binance as it does on Polymarket.
pub open spec fn resolved_alike(detail: BinanceMarketDetail, market: PolymarketMarket) -> bool {
    &&& exists|start: int| #[trigger]
        occurs_at(ascii_lower(market.resolution_source@), "binance.com"@, start)
    &&& detail.variant_data.price_feed_provider@ == "BINANCE"@
    &&& detail.variant_data.price_feed_id is None
    &&& says(detail, "greater than or equal"@)
    &&& !says(detail, "consensus of reliable sources"@)
}

/// A pair that is built is incompatible exactly where its windows differ, exact exactly where it
/// is also resolved alike and paid in USDC on both venues, and basis otherwise. It settles alike
/// exactly where the windows agree and it is resolved alike: so only if the description of its
/// Binance market says that a tie pays Up.
pub proof fn pairs_align_where_they_are_resolved_alike(
    topic: BinanceMarketTopic,
    detail: BinanceMarketDetail,
    event: PolymarketEvent,
    market: PolymarketMarket,
    figures: PairFigures,
)
    requires
        pair_of(topic, detail, event, market) == Some(Ok::<PairFigures, Seq<char>>(figures)),
    ensures
        figures.view.classification == "incompatible"@ <==> !same_window(
            topic,
            detail,
            event,
            market,
        ),
        figures.view.classification == "exact"@ <==> same_window(topic, detail, event, market)
            && resolved_alike(detail, market) && detail.collateral@ == "USDC"@,
        figures.view.classification == "basis"@ <==> same_window(topic, detail, event, market)
            && !(resolved_alike(detail, market) && detail.collateral@ == "USDC"@),
        settlement_aligned(figures.view) <==> same_window(topic, detail, event, market)
            && resolved_alike(detail, market),
        settlement_aligned(figures.view) ==> says(detail, "greater than or equal"@),
{
    lemma_rule_names();
    let asset = asset_of(detail.symbol@);
    let duration = duration_text(detail.start_date as int, detail.end_date as int)->0;
    let left = binance_resolution(detail, asset, duration);
    let right = polymarket_resolution(market.resolution_source@, asset, duration);
    let start = polymarket_start(market, topic.slug@)->0;
    let end = match rfc3339_millis(event.end_date@) {
        Some(end) => end,
        None => 0,
    };
    let (starts, ends) = (start == Some(detail.start_date as int), end == detail.end_date);
    alignment_means_same_rules(starts, ends, left, right, figures.view);
    crate::matcher::classification_is_exhaustive(starts, ends, left, right);
    ties_pay_up_where_the_description_says_so(detail, asset, duration);
    assert(same_ignoring_case("BINANCE"@, "BINANCE"@));
    if detail.variant_data.price_feed_id is None {
        assert(text_of(detail.variant_data.price_feed_id) is None);
    }
}

proof fn lemma_market_is_first(markets: Seq<PolymarketMarket>, slug: Seq<char>, start: int)
    requires
        0 <= start <= markets.len(),
    ensures
        match market_from(markets, slug, start) {
            Some(place) => {
                &&& start <= place < markets.len()
                &&& markets[place].slug@ == slug
                &&& forall|i: int| start <= i < place ==> #[trigger] markets[i].slug@ != slug
            },
            None => forall|i: int|
                start <= i < markets.len() ==> #[trigger] markets[i].slug@ != slug,
        },
    decreases markets.len() - start,
{
    if start < markets.len() {
        lemma_market_is_first(markets, slug, start + 1);
    }
}

/// A pair is built with the first market of the event that has the slug of the Binance market,
/// and there is a pair to build exactly where the event has such a market.
pub proof fn pairs_share_their_slug(
    topic: BinanceMarketTopic,
    detail: BinanceMarketDetail,
    event: PolymarketEvent,
)
    ensures
        pair_outcome(topic, detail, None) == Some(
            Ok::<Option<PairFigures>, Seq<char>>(None),
        ),
        match pair_outcome(topic, detail, Some(event)) {
            Some(Ok(None)) => forall|i: int|
                0 <= i < event.markets@.len() ==> #[trigger] event.markets@[i].slug@
                    != detail.slug@,
            Some(Ok(Some(figures))) => exists|place: int|
                0 <= place < event.markets@.len() && #[trigger] event.markets@[place].slug@
                    == detail.slug@ && (forall|i: int|
                    0 <= i < place ==> #[trigger] event.markets@[i].slug@ != detail.slug@)
                    && pair_of(topic, detail, event, event.markets@[place]) == Some(
                    Ok::<PairFigures, Seq<char>>(figures),
                ),
            _ => true,
        },
{
    lemma_market_is_first(event.markets@, detail.slug@, 0);
    if let Some(place) = market_from(event.markets@, detail.slug@, 0) {
        assert(event.markets@[place].slug@ == detail.slug@);
    }
}

/// A pair shows the Binance market that it is built from, trades the Up and Down tokens of the
/// Polymarket market, and pays its fee rate: none where its fees are off, else that of a
/// schedule of the first power.
pub proof fn pairs_show_their_markets(
    topic: BinanceMarketTopic,
    detail: BinanceMarketDetail,
    event: PolymarketEvent,
    market: PolymarketMarket,
    figures: PairFigures,
)
    requires
        pair_of(topic, detail, event, market) == Some(Ok::<PairFigures, Seq<char>>(figures)),
    ensures
        figures.view.slug == detail.slug@,
        figures.view.binance_topic_id == detail.market_topic_id,
        figures.view.title == detail.title@,
        figures.view.start_ms == detail.start_date,
        figures.view.end_ms == detail.end_date,
        figures.view.binance_fee_bps == detail.fee_rate_bps,
        figures.view.polymarket_source == market.resolution_source@,
        figures.view.binance_source == detail.variant_data.price_feed_provider@ + "/"@
            + detail.variant_data.price_feed_symbol@,
        figures.view.liquidity == topic.liquidity@,
        figures.view.trade_volume == topic.trade_volume@,
        figures.view.polymarket_fee_rate == decimal_text(figures.fee_rate),
        detail.markets@.len() > 0 && detail.markets@[0].outcomes@.len() >= 2,
        market.tokens() == Ok::<(Seq<char>, Seq<char>), crate::polymarket::PolymarketFault>(
            (figures.up_token, figures.down_token),
        ),
        !market.fees_enabled ==> figures.fee_rate.units() == 0,
        market.fees_enabled ==> market.fee_schedule is Some && market.fee_schedule->0.exponent == 1
            && figures.fee_rate == market.fee_schedule->0.rate@,
        forall|base: Seq<char>|
            detail.symbol@ == #[trigger] (base + "USDT"@) ==> figures.view.asset == base,
{
    zero_units();
    assert forall|base: Seq<char>|
        detail.symbol@ == #[trigger] (base + "USDT"@) implies figures.view.asset == base by {
        symbols_hold_their_asset(base);
    }
}

/// The asset of a symbol is what stands before USDT.
pub proof fn symbols_hold_their_asset(base: Seq<char>)
    ensures
        asset_of(base + "USDT"@) == base,
{
    let symbol = base + "USDT"@;
    let head = symbol.len() - "USDT"@.len();
    assert(symbol.subrange(head, symbol.len() as int) =~= "USDT"@);
    assert(symbol.subrange(0, head) =~= base);
}

/// A market of less than an hour is labelled by its whole minutes, one of whole days by its days,
/// and any other one by its whole hours.
pub proof fn durations_are_labelled_by_whole_units(start_ms: int, end_ms: int, count: int)
    requires
        0 <= end_ms - start_ms <= i64::MAX,
    ensures
        ({
            let span = end_ms - start_ms;
            let label = duration_text(start_ms, end_ms);
            &&& span < 3_600_000 && count * 60_000 <= span < (count + 1) * 60_000 ==> label
                == Some(int_text(count) + "m"@)
            &&& span >= 3_600_000 && count * 86_400_000 <= span < count * 86_400_000 + 60_000
                ==> label == Some(int_text(count) + "d"@)
            &&& span >= 3_600_000 && count * 3_600_000 <= span < (count + 1) * 3_600_000 && span
                % 86_400_000 >= 60_000 ==> label == Some(int_text(count) + "h"@)
        }),
{
    let span = end_ms - start_ms;
    let minutes = span / 60_000;
    assert(minutes / 1440 == span / 86_400_000);
    assert((minutes % 1440 == 0) == (span % 86_400_000 < 60_000));
    assert(minutes / 60 == span / 3_600_000);
}

proof fn lemma_live_hour_is_first(
    topics: Seq<BinanceMarketTopic>,
    symbol: Seq<char>,
    now_ms: int,
    start: int,
)
    requires
        0 <= start <= topics.len(),
    ensures
        match live_hour_from(topics, symbol, now_ms, start) {
            Some(place) => {
                &&& start <= place < topics.len()
                &&& is_live_hour(topics[place], symbol, now_ms)
                &&& forall|i: int|
                    start <= i < place ==> !is_live_hour(#[trigger] topics[i], symbol, now_ms)
            },
            None => forall|i: int|
                start <= i < topics.len() ==> !is_live_hour(#[trigger] topics[i], symbol, now_ms),
        },
    decreases topics.len() - start,
{
    if start < topics.len() {
        lemma_live_hour_is_first(topics, symbol, now_ms, start + 1);
    }
}

/// A topic on a symbol that has begun, has not ended and runs for exactly one hour.
pub open spec fn runs_for_an_hour(topic: BinanceMarketTopic, symbol: Seq<char>, now_ms: int) -> bool {
    &&& same_ignoring_case(topic.symbol@, symbol)
    &&& topic.start_date <= now_ms < topic.end_date
    &&& topic.end_date - topic.start_date == 60 * 60 * 1_000
}

/// The running one-hour market on an asset is the first topic that is one, on the asset in upper
/// case against USDT.
pub proof fn the_first_running_hour_is_found(
    topics: Seq<BinanceMarketTopic>,
    asset: Seq<char>,
    now_ms: int,
)
    ensures
        match live_hour_from(topics, usdt_symbol(asset), now_ms, 0) {
            Some(place) => {
                &&& 0 <= place < topics.len()
                &&& runs_for_an_hour(topics[place], ascii_upper(asset) + "USDT"@, now_ms)
                &&& forall|i: int|
                    0 <= i < place ==> !runs_for_an_hour(
                        #[trigger] topics[i],
                        ascii_upper(asset) + "USDT"@,
                        now_ms,
                    )
            },
            None => forall|i: int|
                0 <= i < topics.len() ==> !runs_for_an_hour(
                    #[trigger] topics[i],
                    ascii_upper(asset) + "USDT"@,
                    now_ms,
                ),
        },
{
    lemma_live_hour_is_first(topics, usdt_symbol(asset), now_ms, 0);
    assert forall|i: int| 0 <= i < topics.len() implies (is_live_hour(
        #[trigger] topics[i],
        usdt_symbol(asset),
        now_ms,
    ) <==> runs_for_an_hour(topics[i], ascii_upper(asset) + "USDT"@, now_ms)) by {}
}

/// A topic is to be paired until it ends, from a day before it starts.
pub proof fn candidates_start_within_a_day(topic: BinanceMarketTopic, now_ms: int)
    ensures
        is_candidate(topic, now_ms) <==> now_ms < topic.end_date && topic.start_date - now_ms <= 24
            * 60 * 60 * 1_000,
{
}

/// A Polymarket market starts when it says so, and else when the number at the end of its slug
/// says, in seconds.
pub proof fn markets_start_as_they_say(market: PolymarketMarket, slug: Seq<char>)
    ensures
        ({
            let said = match market.event_start_time {
                Some(text) => rfc3339_millis(text@),
                None => None,
            };
            &&& said matches Some(start) ==> polymarket_start(market, slug) == Some(Some(start))
            &&& said is None ==> polymarket_start(market, slug) == slug_start(slug)
        }),
{
}

/// A pair that is built trades the Up token of its Polymarket market as Up and the Down token as
/// Down, at that market's fee rate, against the Binance market that it was built from.
pub proof fn built_pairs_trade_their_own_tokens(
    topic: BinanceMarketTopic,
    detail: BinanceMarketDetail,
    event: PolymarketEvent,
    market: PolymarketMarket,
    figures: PairFigures,
    pair: TrackedPair,
)
    requires
        pair_of(topic, detail, event, market) == Some(Ok::<PairFigures, Seq<char>>(figures)),
        is_pair(pair, figures, detail),
    ensures
        market.tokens() == Ok::<(Seq<char>, Seq<char>), crate::polymarket::PolymarketFault>(
            (pair.polymarket_up_token@, pair.polymarket_down_token@),
        ),
        !market.fees_enabled ==> pair.polymarket_fee_rate@.units() == 0,
        market.fees_enabled ==> market.fee_schedule is Some && pair.polymarket_fee_rate@
            == market.fee_schedule->0.rate@,
        pair.binance == detail,
        pair.view@.slug == detail.slug@,
        pair.view@.start_ms == detail.start_date,
        pair.view@.end_ms == detail.end_date,
        pair.view@.polymarket_fee_rate == decimal_text(pair.polymarket_fee_rate@),
{
    pairs_show_their_markets(topic, detail, event, market, figures);
}

} // verus!
