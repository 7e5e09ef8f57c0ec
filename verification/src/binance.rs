//! What Binance is asked and what its answers say.
use vstd::prelude::*;

use crate::decimal::{parsed_decimal, view_of, Decimal, DecimalView};
use crate::ladder::{
    in_order, ladder_of, level_of, read_ladder, read_ladders_hold_every_level, read_level, read_levels_from, sort_levels,
    sorting_keeps_levels, LevelFault, LevelView,
};
use crate::text::{int_text, integer_text};
use crate::time::current_millis;

verus! {

#[derive(Clone, Debug, PartialEq, Eq)]
pub enum BinanceError {
    /// The request failed; the text says how.
    Http(String),
    /// Binance refused the request.
    Api { code: i64, message: String },
    /// A field of the answer, or of the configuration, is invalid.
    Invalid(String),
}

/// An error with the characters of its texts.
#[verifier::ext_equal]
pub enum BinanceFault {
    Http(Seq<char>),
    Api { code: i64, message: Seq<char> },
    Invalid(Seq<char>),
}

impl View for BinanceError {
    type V = BinanceFault;

    open spec fn view(&self) -> BinanceFault {
        match self {
            BinanceError::Http(text) => BinanceFault::Http(text@),
            BinanceError::Api { code, message } => BinanceFault::Api {
                code: *code,
                message: message@,
            },
            BinanceError::Invalid(text) => BinanceFault::Invalid(text@),
        }
    }
}

impl BinanceFault {
    /// The error in words.
    pub open spec fn words(self) -> Seq<char> {
        match self {
            BinanceFault::Http(text) => "Binance HTTP 请求失败："@ + text,
            BinanceFault::Api { code, message } => "Binance API "@ + int_text(code as int) + "："@
                + message,
            BinanceFault::Invalid(text) => "Binance 响应字段无效："@ + text,
        }
    }
}

impl BinanceError {
    /// The error in words.
    pub fn message(&self) -> (result: String)
        ensures
            result@ == self@.words(),
    {
        match self {
            BinanceError::Http(text) => "Binance HTTP 请求失败：".to_owned().concat(text.as_str()),
            BinanceError::Api { code, message } => "Binance API ".to_owned().concat(
                integer_text(*code).as_str(),
            ).concat("：").concat(message.as_str()),
            BinanceError::Invalid(text) => "Binance 响应字段无效：".to_owned().concat(
                text.as_str(),
            ),
        }
    }
}

/// A text that may stand in a header: no control character but the tab.
pub open spec fn header_text(text: Seq<char>) -> bool {
    forall|i: int|
        0 <= i < text.len() ==> (#[trigger] text[i] as nat >= 32 && text[i] as nat != 127)
            || text[i] as nat == 9
}

/// Whether a text may stand in a header.
///
/// Trusted: `reqwest::header::HeaderValue::from_str`, which refuses a text with a byte below
/// 32 other than the tab, or with the byte 127. Those bytes are characters of their own.
#[verifier::external_body]
fn outer_header_value(text: &str) -> (result: bool)
    ensures
        result == header_text(text@),
{
    reqwest::header::HeaderValue::from_str(text).is_ok()
}

/// The HMAC-SHA256 of a message under a key, both in UTF-8.
pub uninterp spec fn hmac_sha256(key: Seq<char>, message: Seq<char>) -> Seq<u8>;

/// The HMAC-SHA256 of a message under a key.
///
/// Trusted: `hmac::Hmac<sha2::Sha256>` with `new_from_slice`, `update` and `finalize`. It is
/// claimed that any key is accepted, that the result depends on key and message alone, and
/// that it has 32 bytes.
#[verifier::external_body]
fn outer_hmac_sha256(key: &str, message: &str) -> (result: Option<Vec<u8>>)
    ensures
        result is Some,
        result->0@ == hmac_sha256(key@, message@),
        result->0@.len() == 32,
{
    let fresh: Result<hmac::Hmac<sha2::Sha256>, hmac::digest::InvalidLength> =
        hmac::Mac::new_from_slice(key.as_bytes());
    fresh.ok().map(
        |mut mac| {
            hmac::Mac::update(&mut mac, message.as_bytes());
            hmac::Mac::finalize(mac).into_bytes().to_vec()
        },
    )
}

/// A hexadecimal digit in lower case.
pub open spec fn hex_digit(n: int) -> char {
    if n < 10 {
        (48 + n) as char
    } else {
        (87 + n) as char
    }
}

/// Bytes as two lower-case hexadecimal digits each.
pub open spec fn hex_text(bytes: Seq<u8>) -> Seq<char> {
    Seq::new(
        2 * bytes.len(),
        |i: int|
            if i % 2 == 0 {
                hex_digit(bytes[i / 2] as int / 16)
            } else {
                hex_digit(bytes[i / 2] as int % 16)
            },
    )
}

/// Bytes as two lower-case hexadecimal digits each.
///
/// Trusted: `hex::encode`.
#[verifier::external_body]
fn outer_hex(bytes: &Vec<u8>) -> (result: String)
    ensures
        result@ == hex_text(bytes@),
{
    hex::encode(bytes)
}

/// A request to a signed endpoint.
#[derive(Clone, Debug)]
pub struct SignedRequest {
    pub path: String,
    pub parameters: String,
}

/// Where Binance is asked, and with which credentials.
#[derive(Debug)]
pub struct BinanceClient {
    api_key: String,
    api_secret: String,
    base_url: String,
    futures_base_url: String,
}

impl Clone for BinanceClient {
    fn clone(&self) -> (result: BinanceClient)
        ensures
            result == *self,
    {
        proof {
            use_type_invariant(self);
        }
        BinanceClient {
            api_key: self.api_key.clone(),
            api_secret: self.api_secret.clone(),
            base_url: self.base_url.clone(),
            futures_base_url: self.futures_base_url.clone(),
        }
    }
}

/// The query of a signed request: its parameters, the time and the receive window.
pub open spec fn query_text(parameters: Seq<char>, timestamp: int) -> Seq<char> {
    let head = if parameters.len() == 0 {
        "timestamp="@
    } else {
        parameters + "&timestamp="@
    };
    head + int_text(timestamp) + "&recvWindow=10000"@
}

/// The address of a signed request.
pub open spec fn signed_url_text(
    secret: Seq<char>,
    path: Seq<char>,
    parameters: Seq<char>,
    timestamp: int,
) -> Seq<char> {
    let query = query_text(parameters, timestamp);
    "https://api.binance.com"@ + path + "?"@ + query + "&signature="@ + hex_text(
        hmac_sha256(secret, query),
    )
}

impl BinanceClient {
    pub closed spec fn key(self) -> Seq<char> {
        self.api_key@
    }

    pub closed spec fn secret(self) -> Seq<char> {
        self.api_secret@
    }

    #[verifier::type_invariant]
    spec fn well_formed(self) -> bool {
        &&& self.base_url@ == "https://api.binance.com"@
        &&& self.futures_base_url@ == "https://fapi.binance.com"@
    }

    /// A client with the given credentials; the key must be able to stand in a header.
    pub fn new(api_key: String, api_secret: String) -> (result: Result<BinanceClient, BinanceError>)
        ensures
            match result {
                Ok(client) => header_text(api_key@) && client.key() == api_key@ && client.secret()
                    == api_secret@,
                Err(error) => !header_text(api_key@) && error@ == BinanceFault::Invalid(
                    "API Key 格式"@,
                ),
            },
    {
        if !outer_header_value(api_key.as_str()) {
            return Err(BinanceError::Invalid("API Key 格式".to_owned()));
        }
        Ok(
            BinanceClient {
                api_key,
                api_secret,
                base_url: "https://api.binance.com".to_owned(),
                futures_base_url: "https://fapi.binance.com".to_owned(),
            },
        )
    }

    pub fn api_key_is_configured(&self) -> (result: bool)
        ensures
            result == (self.key().len() > 0),
    {
        self.api_key.as_str().unicode_len() > 0
    }

    /// The key that goes into the header of every request.
    pub fn api_key(&self) -> (result: String)
        ensures
            result@ == self.key(),
    {
        self.api_key.clone()
    }

    /// The address of a signed request at `timestamp`.
    pub fn signed_url_at(&self, path: &str, parameters: &str, timestamp: i64) -> (result: Result<
        String,
        BinanceError,
    >)
        ensures
            result matches Ok(url) && url@ == signed_url_text(
                self.secret(),
                path@,
                parameters@,
                timestamp as int,
            ),
    {
        proof {
            use_type_invariant(self);
        }
        let head = if parameters.unicode_len() == 0 {
            "timestamp=".to_owned()
        } else {
            parameters.to_owned().concat("&timestamp=")
        };
        let query = head.concat(integer_text(timestamp).as_str()).concat("&recvWindow=10000");
        let code = match outer_hmac_sha256(self.api_secret.as_str(), query.as_str()) {
            Some(code) => code,
            None => return Err(BinanceError::Invalid("API Secret 格式".to_owned())),
        };
        let signature = outer_hex(&code);
        Ok(
            self.base_url.clone().concat(path).concat("?").concat(query.as_str()).concat(
                "&signature=",
            ).concat(signature.as_str()),
        )
    }

    /// The address of a signed request made now.
    pub fn signed_url(&self, path: &str, parameters: &str) -> (result: Result<String, BinanceError>)
        ensures
            result matches Ok(url) && exists|now: i64|
                url@ == #[trigger] signed_url_text(self.secret(), path@, parameters@, now as int),
    {
        self.signed_url_at(path, parameters, current_millis())
    }

    /// The address of a public endpoint on the spot exchange.
    pub fn spot_url(&self, path: &str) -> (result: String)
        ensures
            result@ == "https://api.binance.com"@ + path@,
    {
        proof {
            use_type_invariant(self);
        }
        self.base_url.clone().concat(path)
    }

    /// The address of a public endpoint on the futures exchange.
    pub fn futures_url(&self, path: &str) -> (result: String)
        ensures
            result@ == "https://fapi.binance.com"@ + path@,
    {
        proof {
            use_type_invariant(self);
        }
        self.futures_base_url.clone().concat(path)
    }
}

/// The request for the list of up-or-down markets on crypto assets.
pub fn market_list_request() -> (result: SignedRequest)
    ensures
        result.path@ == "/sapi/v1/w3w/wallet/prediction/market/list"@,
        result.parameters@
            == "l1Category=crypto&l2Category=up-down&sortBy=END_DATE&orderBy=ASC&offset=0&limit=100"@,
{
    SignedRequest {
        path: "/sapi/v1/w3w/wallet/prediction/market/list".to_owned(),
        parameters:
            "l1Category=crypto&l2Category=up-down&sortBy=END_DATE&orderBy=ASC&offset=0&limit=100".to_owned(),
    }
}

/// The request for the details of a market topic.
pub fn market_detail_request(topic_id: i64) -> (result: SignedRequest)
    ensures
        result.path@ == "/sapi/v1/w3w/wallet/prediction/market/detail"@,
        result.parameters@ == "marketTopicId="@ + int_text(topic_id as int),
{
    SignedRequest {
        path: "/sapi/v1/w3w/wallet/prediction/market/detail".to_owned(),
        parameters: "marketTopicId=".to_owned().concat(integer_text(topic_id).as_str()),
    }
}

/// The request for the order book of one outcome.
pub fn order_book_request(vendor: &str, market_id: i64, token_id: &str) -> (result: SignedRequest)
    ensures
        result.path@ == "/sapi/v1/w3w/wallet/prediction/order-book"@,
        result.parameters@ == "vendor="@ + vendor@ + "&marketId="@ + int_text(market_id as int)
            + "&tokenId="@ + token_id@,
{
    SignedRequest {
        path: "/sapi/v1/w3w/wallet/prediction/order-book".to_owned(),
        parameters: "vendor=".to_owned().concat(vendor).concat("&marketId=").concat(
            integer_text(market_id).as_str(),
        ).concat("&tokenId=").concat(token_id),
    }
}

/// The error that an answer carries.
#[derive(Clone, Debug)]
pub struct ApiError {
    pub code: i64,
    pub msg: String,
}

/// What an answer that is no success stands for: the error it carries, or else its status.
pub fn refusal(status: &str, carried: Option<ApiError>) -> (result: BinanceError)
    ensures
        result@ == (match carried {
            Some(error) => BinanceFault::Api { code: error.code, message: error.msg@ },
            None => BinanceFault::Invalid("HTTP "@ + status@),
        }),
{
    match carried {
        Some(error) => BinanceError::Api { code: error.code, message: error.msg },
        None => BinanceError::Invalid("HTTP ".to_owned().concat(status)),
    }
}

/// What an answer that is not the expected JSON stands for.
pub fn malformed(error: &str) -> (result: BinanceError)
    ensures
        result@ == BinanceFault::Invalid("JSON："@ + error@),
{
    BinanceError::Invalid("JSON：".to_owned().concat(error))
}

/// What a field of an answer must hold: a decimal.
pub open spec fn decimal_field(text: Seq<char>, label: Seq<char>) -> Result<(), BinanceFault> {
    if parsed_decimal(text) is Some {
        Ok(())
    } else {
        Err(BinanceFault::Invalid(label))
    }
}

pub open spec fn check_result(value: Result<(), BinanceError>) -> Result<(), BinanceFault> {
    match value {
        Ok(_) => Ok(()),
        Err(error) => Err(error@),
    }
}

/// Checks that a field holds a decimal.
fn check_decimal(text: &str, label: &str) -> (result: Result<(), BinanceError>)
    ensures
        check_result(result) == decimal_field(text@, label@),
{
    if Decimal::parse(text).is_some() {
        Ok(())
    } else {
        Err(BinanceError::Invalid(label.to_owned()))
    }
}

#[derive(Clone, Debug)]
pub struct BinanceSpotPrice {
    pub symbol: String,
    pub price: String,
}

impl BinanceSpotPrice {
    pub fn validate(&self) -> (result: Result<(), BinanceError>)
        ensures
            check_result(result) == decimal_field(self.price@, "现货价格"@),
    {
        check_decimal(self.price.as_str(), "现货价格")
    }
}

#[derive(Clone, Debug)]
pub struct BinancePublicOrderBook {
    pub last_update_id: i64,
    pub event_time: Option<i64>,
    pub bids: Vec<[String; 2]>,
    pub asks: Vec<[String; 2]>,
}

/// The prices and quantities of public levels as they are written.
pub open spec fn public_texts(levels: Seq<[String; 2]>) -> Seq<(Seq<char>, Seq<char>)> {
    levels.map_values(|level: [String; 2]| (level@[0]@, level@[1]@))
}

/// The ladder of public levels, or the first field that cannot be read.
pub open spec fn public_ladder(levels: Seq<[String; 2]>, descending: bool) -> Result<
    Seq<LevelView>,
    BinanceFault,
> {
    match read_ladder(public_texts(levels), descending) {
        Ok(ladder) => Ok(ladder),
        Err(LevelFault::Price) => Err(BinanceFault::Invalid("公开订单价格"@)),
        Err(LevelFault::Quantity) => Err(BinanceFault::Invalid("公开订单数量"@)),
    }
}

pub open spec fn levels_result(value: Result<Vec<(Decimal, Decimal)>, BinanceError>) -> Result<
    Seq<LevelView>,
    BinanceFault,
> {
    match value {
        Ok(levels) => Ok(ladder_of(levels@)),
        Err(error) => Err(error@),
    }
}

/// Reads public levels and sorts them by price.
pub fn decimal_public_levels(levels: &[[String; 2]], descending: bool) -> (result: Result<
    Vec<(Decimal, Decimal)>,
    BinanceError,
>)
    ensures
        levels_result(result) == public_ladder(levels@, descending),
{
    let mut values: Vec<(Decimal, Decimal)> = Vec::new();
    let mut i: usize = 0;
    let ghost texts = public_texts(levels@);
    let ghost goal = read_levels_from(texts, 0, Seq::empty());
    proof {
        assert(ladder_of(values@) =~= Seq::<LevelView>::empty());
    }
    while i < levels.len()
        invariant
            i <= levels@.len(),
            texts == public_texts(levels@),
            goal == read_levels_from(texts, 0, Seq::empty()),
            goal == read_levels_from(texts, i as int, ladder_of(values@)),
        decreases levels@.len() - i,
    {
        proof {
            assert(texts[i as int] == (levels@[i as int]@[0]@, levels@[i as int]@[1]@));
        }
        match read_level(levels[i][0].as_str(), levels[i][1].as_str()) {
            Ok(level) => {
                let ghost before = values@;
                values.push(level);
                proof {
                    assert(ladder_of(values@) =~= ladder_of(before).push(level_of(level)));
                }
            },
            Err(LevelFault::Price) => {
                return Err(BinanceError::Invalid("公开订单价格".to_owned()));
            },
            Err(LevelFault::Quantity) => {
                return Err(BinanceError::Invalid("公开订单数量".to_owned()));
            },
        }
        i = i + 1;
    }
    Ok(sort_levels(&values, descending))
}

impl BinancePublicOrderBook {
    /// Both sides of the book can be read; the first fault among bids, then asks, decides.
    pub open spec fn validity(self) -> Result<(), BinanceFault> {
        match public_ladder(self.bids@, true) {
            Err(fault) => Err(fault),
            Ok(_) => match public_ladder(self.asks@, false) {
                Err(fault) => Err(fault),
                Ok(_) => Ok(()),
            },
        }
    }

    pub fn validate(&self) -> (result: Result<(), BinanceError>)
        ensures
            check_result(result) == self.validity(),
    {
        match self.bid_levels() {
            Err(error) => Err(error),
            Ok(_) => match self.ask_levels() {
                Err(error) => Err(error),
                Ok(_) => Ok(()),
            },
        }
    }

    /// The bids in descending order of price.
    pub fn bid_levels(&self) -> (result: Result<Vec<(Decimal, Decimal)>, BinanceError>)
        ensures
            levels_result(result) == public_ladder(self.bids@, true),
    {
        decimal_public_levels(self.bids.as_slice(), true)
    }

    /// The asks in ascending order of price.
    pub fn ask_levels(&self) -> (result: Result<Vec<(Decimal, Decimal)>, BinanceError>)
        ensures
            levels_result(result) == public_ladder(self.asks@, false),
    {
        decimal_public_levels(self.asks.as_slice(), false)
    }
}

#[derive(Clone, Debug)]
pub struct BinancePremiumIndex {
    pub symbol: String,
    pub mark_price: String,
    pub index_price: String,
    pub last_funding_rate: String,
    pub next_funding_time: i64,
    pub time: i64,
}

impl BinancePremiumIndex {
    /// Prices and funding rate are decimals; the first that is not decides.
    pub open spec fn validity(self) -> Result<(), BinanceFault> {
        if parsed_decimal(self.mark_price@) is None {
            Err(BinanceFault::Invalid("标记价格"@))
        } else if parsed_decimal(self.index_price@) is None {
            Err(BinanceFault::Invalid("指数价格"@))
        } else {
            decimal_field(self.last_funding_rate@, "资金费率"@)
        }
    }

    pub fn validate(&self) -> (result: Result<(), BinanceError>)
        ensures
            check_result(result) == self.validity(),
    {
        match check_decimal(self.mark_price.as_str(), "标记价格") {
            Err(error) => Err(error),
            Ok(_) => match check_decimal(self.index_price.as_str(), "指数价格") {
                Err(error) => Err(error),
                Ok(_) => check_decimal(self.last_funding_rate.as_str(), "资金费率"),
            },
        }
    }
}

#[derive(Clone, Debug)]
pub struct BinanceDeliveryPremiumIndex {
    pub symbol: String,
    pub mark_price: String,
    pub index_price: String,
    pub time: i64,
}

impl BinanceDeliveryPremiumIndex {
    /// Both prices are decimals; the first that is not decides.
    pub open spec fn validity(self) -> Result<(), BinanceFault> {
        if parsed_decimal(self.mark_price@) is None {
            Err(BinanceFault::Invalid("交割合约标记价格"@))
        } else {
            decimal_field(self.index_price@, "交割合约指数价格"@)
        }
    }

    pub fn validate(&self) -> (result: Result<(), BinanceError>)
        ensures
            check_result(result) == self.validity(),
    {
        match check_decimal(self.mark_price.as_str(), "交割合约标记价格") {
            Err(error) => Err(error),
            Ok(_) => check_decimal(self.index_price.as_str(), "交割合约指数价格"),
        }
    }
}

#[derive(Clone, Debug)]
pub struct BinanceFundingInfo {
    pub symbol: String,
    pub funding_interval_hours: i64,
}

#[derive(Clone, Debug)]
pub struct BinanceFuturesExchangeInfo {
    pub symbols: Vec<BinanceFuturesSymbol>,
}

#[derive(Clone, Debug)]
pub struct BinanceFuturesSymbol {
    pub symbol: String,
    pub pair: String,
    pub contract_type: String,
    pub delivery_date: i64,
    pub status: String,
    pub filters: Vec<BinanceSymbolFilter>,
}

#[derive(Clone, Debug)]
pub struct BinanceSpotExchangeInfo {
    pub symbols: Vec<BinanceSpotSymbol>,
}

#[derive(Clone, Debug)]
pub struct BinanceSpotSymbol {
    pub symbol: String,
    pub status: String,
    pub filters: Vec<BinanceSymbolFilter>,
}

#[derive(Clone, Debug)]
pub struct BinanceSymbolFilter {
    pub filter_type: String,
    pub tick_size: Option<String>,
    pub step_size: Option<String>,
    pub min_qty: Option<String>,
}

/// The decimal in an optional field, if there is one.
pub open spec fn optional_decimal(text: Option<String>) -> Option<DecimalView> {
    match text {
        Some(text) => parsed_decimal(text@),
        None => None,
    }
}

/// The decimal in an optional field, if there is one.
pub fn read_optional(text: &Option<String>) -> (result: Option<Decimal>)
    ensures
        view_of(result) == optional_decimal(*text),
{
    match text {
        Some(text) => Decimal::parse(text.as_str()),
        None => None,
    }
}

impl BinanceSymbolFilter {
    pub fn decimal_step_size(&self) -> (result: Option<Decimal>)
        ensures
            view_of(result) == optional_decimal(self.step_size),
    {
        read_optional(&self.step_size)
    }

    pub fn decimal_tick_size(&self) -> (result: Option<Decimal>)
        ensures
            view_of(result) == optional_decimal(self.tick_size),
    {
        read_optional(&self.tick_size)
    }

    pub fn decimal_min_qty(&self) -> (result: Option<Decimal>)
        ensures
            view_of(result) == optional_decimal(self.min_qty),
    {
        read_optional(&self.min_qty)
    }
}

#[derive(Clone, Debug)]
pub struct BinanceMarketTopic {
    pub market_topic_id: i64,
    pub vendor: String,
    pub slug: String,
    pub title: String,
    pub question: String,
    pub symbol: String,
    pub collateral: String,
    pub fee_rate_bps: i64,
    pub slippage_bps: i64,
    pub liquidity: String,
    pub trade_volume: String,
    pub start_date: i64,
    pub end_date: i64,
    pub status: String,
}

#[derive(Clone, Debug)]
pub struct BinanceMarketDetail {
    pub market_topic_id: i64,
    pub vendor: String,
    pub slug: String,
    pub title: String,
    pub question: String,
    pub description: Option<String>,
    pub symbol: String,
    pub collateral: String,
    pub fee_rate_bps: i64,
    pub slippage_bps: i64,
    pub start_date: i64,
    pub end_date: i64,
    pub status: String,
    pub variant_data: BinanceVariantData,
    pub markets: Vec<BinanceOutcomeMarket>,
}

#[derive(Clone, Debug)]
pub struct BinanceVariantData {
    pub variant_type: String,
    pub start_price: Option<String>,
    pub end_price: Option<String>,
    pub price_feed_id: Option<String>,
    pub price_feed_provider: String,
    pub price_feed_symbol: String,
}

#[derive(Clone, Debug)]
pub struct BinanceOutcomeMarket {
    pub market_id: i64,
    pub external_id: String,
    pub title: String,
    pub description: Option<String>,
    pub condition_id: String,
    pub status: String,
    pub trading_status: String,
    pub decimal_precision: i64,
    pub outcomes: Vec<BinanceOutcome>,
}

#[derive(Clone, Debug)]
pub struct BinanceOutcome {
    pub name: String,
    pub price: String,
    pub chance: String,
    pub index: i64,
    pub token_id: String,
}

#[derive(Clone, Debug)]
pub struct BinanceOrderBook {
    pub outcome: String,
    pub token_id: String,
    pub timestamp: i64,
    pub bids: Vec<BinancePriceLevel>,
    pub asks: Vec<BinancePriceLevel>,
}

#[derive(Clone, Debug)]
pub struct BinancePriceLevel {
    pub price: String,
    pub size: String,
}

/// The prices and sizes of levels as they are written.
pub open spec fn level_texts(levels: Seq<BinancePriceLevel>) -> Seq<(Seq<char>, Seq<char>)> {
    levels.map_values(|level: BinancePriceLevel| (level.price@, level.size@))
}

/// The levels in ascending order of price, or the first field that cannot be read.
pub open spec fn level_ladder(levels: Seq<BinancePriceLevel>) -> Result<
    Seq<LevelView>,
    BinanceFault,
> {
    match read_ladder(level_texts(levels), false) {
        Ok(ladder) => Ok(ladder),
        Err(LevelFault::Price) => Err(BinanceFault::Invalid("订单价格"@)),
        Err(LevelFault::Quantity) => Err(BinanceFault::Invalid("订单数量"@)),
    }
}

/// Reads levels and sorts them in ascending order of price.
pub fn decimal_ask_levels(levels: &[BinancePriceLevel]) -> (result: Result<
    Vec<(Decimal, Decimal)>,
    BinanceError,
>)
    ensures
        levels_result(result) == level_ladder(levels@),
{
    let mut values: Vec<(Decimal, Decimal)> = Vec::new();
    let mut i: usize = 0;
    let ghost texts = level_texts(levels@);
    let ghost goal = read_levels_from(texts, 0, Seq::empty());
    proof {
        assert(ladder_of(values@) =~= Seq::<LevelView>::empty());
    }
    while i < levels.len()
        invariant
            i <= levels@.len(),
            texts == level_texts(levels@),
            goal == read_levels_from(texts, 0, Seq::empty()),
            goal == read_levels_from(texts, i as int, ladder_of(values@)),
        decreases levels@.len() - i,
    {
        proof {
            assert(texts[i as int] == (levels@[i as int].price@, levels@[i as int].size@));
        }
        match read_level(levels[i].price.as_str(), levels[i].size.as_str()) {
            Ok(level) => {
                let ghost before = values@;
                values.push(level);
                proof {
                    assert(ladder_of(values@) =~= ladder_of(before).push(level_of(level)));
                }
            },
            Err(LevelFault::Price) => {
                return Err(BinanceError::Invalid("订单价格".to_owned()));
            },
            Err(LevelFault::Quantity) => {
                return Err(BinanceError::Invalid("订单数量".to_owned()));
            },
        }
        i = i + 1;
    }
    Ok(sort_levels(&values, false))
}

impl BinanceOrderBook {
    /// The cheapest ask, if there is any.
    pub fn best_ask(&self) -> (result: Result<Option<(Decimal, Decimal)>, BinanceError>)
        ensures
            match result {
                Ok(best) => level_ladder(self.asks@) matches Ok(ladder) && (match best {
                    Some(level) => ladder.len() > 0 && ladder[0] == level_of(level),
                    None => ladder.len() == 0,
                }),
                Err(error) => level_ladder(self.asks@) == Err::<Seq<LevelView>, BinanceFault>(
                    error@,
                ),
            },
    {
        match self.ask_levels() {
            Ok(levels) => {
                if levels.len() == 0 {
                    Ok(None)
                } else {
                    proof {
                        assert(ladder_of(levels@)[0] == level_of(levels@[0]));
                    }
                    Ok(Some(levels[0]))
                }
            },
            Err(error) => Err(error),
        }
    }

    /// The asks in ascending order of price.
    pub fn ask_levels(&self) -> (result: Result<Vec<(Decimal, Decimal)>, BinanceError>)
        ensures
            levels_result(result) == level_ladder(self.asks@),
    {
        decimal_ask_levels(self.asks.as_slice())
    }
}

/// Public levels are read into a ladder by their prices: from the lowest up, or descending from
/// the highest.
pub proof fn public_ladders_are_sorted(levels: Seq<[String; 2]>, descending: bool)
    requires
        public_ladder(levels, descending) is Ok,
    ensures
        ({
            let ladder = public_ladder(levels, descending)->Ok_0;
            forall|i: int, j: int|
                0 <= i < j < ladder.len() ==> if descending {
                    (#[trigger] ladder[i]).price.units() >= (#[trigger] ladder[j]).price.units()
                } else {
                    ladder[i].price.units() <= ladder[j].price.units()
                }
        }),
{
    let read = read_levels_from(public_texts(levels), 0, Seq::empty())->Ok_0;
    sorting_keeps_levels(read, descending);
    let ladder = public_ladder(levels, descending)->Ok_0;
    assert forall|i: int, j: int| 0 <= i < j < ladder.len() implies if descending {
        (#[trigger] ladder[i]).price.units() >= (#[trigger] ladder[j]).price.units()
    } else {
        ladder[i].price.units() <= ladder[j].price.units()
    } by {
        assert(in_order(ladder[i], ladder[j], descending));
    }
}

/// A public book is read level by level: the first text of a level is its price, the second its
/// quantity.
pub proof fn public_levels_are_price_and_quantity(
    levels: Seq<[String; 2]>,
    descending: bool,
    ladder: Seq<LevelView>,
    place: int,
)
    requires
        public_ladder(levels, descending) == Ok::<Seq<LevelView>, BinanceFault>(ladder),
        0 <= place < levels.len(),
    ensures
        ladder.len() == levels.len(),
        parsed_decimal(levels[place]@[0]@) is Some,
        parsed_decimal(levels[place]@[1]@) is Some,
        ladder.contains(
            LevelView {
                price: parsed_decimal(levels[place]@[0]@)->0,
                quantity: parsed_decimal(levels[place]@[1]@)->0,
            },
        ),
{
    assert(public_texts(levels)[place] == (levels[place]@[0]@, levels[place]@[1]@));
    read_ladders_hold_every_level(public_texts(levels), descending, ladder, place);
}

/// The asks of an outcome are read level by level, each at its price and of its size, the lowest
/// price first.
pub proof fn asks_are_read_at_their_price(
    levels: Seq<BinancePriceLevel>,
    ladder: Seq<LevelView>,
    place: int,
)
    requires
        level_ladder(levels) == Ok::<Seq<LevelView>, BinanceFault>(ladder),
        0 <= place < levels.len(),
    ensures
        ladder.len() == levels.len(),
        parsed_decimal(levels[place].price@) is Some,
        parsed_decimal(levels[place].size@) is Some,
        ladder.contains(
            LevelView {
                price: parsed_decimal(levels[place].price@)->0,
                quantity: parsed_decimal(levels[place].size@)->0,
            },
        ),
        ladder[0].price.units() <= parsed_decimal(levels[place].price@)->0.units(),
{
    assert(level_texts(levels)[place] == (levels[place].price@, levels[place].size@));
    read_ladders_hold_every_level(level_texts(levels), false, ladder, place);
}

/// The signature of a request covers its whole query: the parameters as they are given, the time
/// and a window of ten seconds. The address is that query on the path, with the signature behind
/// it.
pub proof fn signatures_cover_the_whole_query(
    secret: Seq<char>,
    path: Seq<char>,
    parameters: Seq<char>,
    timestamp: int,
)
    ensures
        exists|query: Seq<char>|
            signed_url_text(secret, path, parameters, timestamp) == "https://api.binance.com"@
                + path + "?"@ + query + "&signature="@ + hex_text(
                #[trigger] hmac_sha256(secret, query),
            ) && parameters.is_prefix_of(query) && query == parameters + (if parameters.len() == 0 {
                Seq::empty()
            } else {
                "&"@
            }) + "timestamp="@ + int_text(timestamp) + "&recvWindow=10000"@,
{
    reveal_strlit("&");
    reveal_strlit("timestamp=");
    reveal_strlit("&timestamp=");
    let query = query_text(parameters, timestamp);
    let tail = int_text(timestamp) + "&recvWindow=10000"@;
    assert("&timestamp="@ =~= "&"@ + "timestamp="@);
    let joint = if parameters.len() == 0 {
        Seq::empty()
    } else {
        "&"@
    };
    assert(query =~= parameters + joint + "timestamp="@ + int_text(timestamp)
        + "&recvWindow=10000"@);
    assert(query.take(parameters.len() as int) =~= parameters);
    assert(hmac_sha256(secret, query) == hmac_sha256(secret, query));
}

/// An order book and a premium index are valid exactly where each of their numbers can be read.
pub proof fn valid_answers_are_readable(
    book: BinancePublicOrderBook,
    premium: BinancePremiumIndex,
    delivery: BinanceDeliveryPremiumIndex,
)
    ensures
        book.validity() is Ok <==> public_ladder(book.bids@, true) is Ok && public_ladder(
            book.asks@,
            false,
        ) is Ok,
        premium.validity() is Ok <==> parsed_decimal(premium.mark_price@) is Some
            && parsed_decimal(premium.index_price@) is Some && parsed_decimal(
            premium.last_funding_rate@,
        ) is Some,
        delivery.validity() is Ok <==> parsed_decimal(delivery.mark_price@) is Some
            && parsed_decimal(delivery.index_price@) is Some,
{
}

} // verus!
