//! How far quotes lie apart in time, and the reference prices beside them.
use vstd::prelude::*;

use crate::decimal::{
    difference, difference_miss, parsed_decimal, plain_notation, pow10, product, product_miss,
    view_of, whole, whole_units, Decimal, DecimalView,
};
use crate::domain::nested_view;
use crate::figures::{close, fine};
use crate::json::{json_text, quoted};
use crate::text::{
    after_last, ascii_lower, ascii_lowercase, contains, eq_ignore_ascii_case, int_text,
    integer_of, numbers_hold_no_separator, occurs_in, parse_integer, parsed_integer, same,
    same_ignoring_case, tail_after, text_of, written_numbers_are_read_back,
};
use crate::time::{age_capped, capped_gap, gap_capped, larger_of};

verus! {

/// The distance between the times of two quotes, where the second can be read.
pub open spec fn skew_of(first_ms: int, second: Seq<char>) -> Option<int> {
    match parsed_integer(second) {
        Some(second_ms) => Some(capped_gap(first_ms, second_ms)),
        None => None,
    }
}

/// The age of the older of two quotes, where the time of the second can be read.
pub open spec fn age_of(observed_ms: int, first_ms: int, second: Seq<char>) -> Option<int> {
    match parsed_integer(second) {
        Some(second_ms) => Some(
            larger_of(capped_gap(observed_ms, first_ms), capped_gap(observed_ms, second_ms)),
        ),
        None => None,
    }
}

/// The distance between the times of two quotes.
pub fn quote_skew_ms(binance_timestamp_ms: i64, polymarket_timestamp_ms: &str) -> (result: Option<
    i64,
>)
    ensures
        integer_of(result) == skew_of(binance_timestamp_ms as int, polymarket_timestamp_ms@),
{
    match parse_integer(polymarket_timestamp_ms) {
        Some(timestamp) => Some(gap_capped(binance_timestamp_ms, timestamp)),
        None => None,
    }
}

/// The age of the older of two quotes.
pub fn quote_age_ms(
    observed_at_ms: i64,
    binance_timestamp_ms: i64,
    polymarket_timestamp_ms: &str,
) -> (result: Option<i64>)
    ensures
        integer_of(result) == age_of(
            observed_at_ms as int,
            binance_timestamp_ms as int,
            polymarket_timestamp_ms@,
        ),
{
    match parse_integer(polymarket_timestamp_ms) {
        Some(timestamp) => Some(age_capped(observed_at_ms, binance_timestamp_ms, timestamp)),
        None => None,
    }
}

/// The distance of two times is the same in both directions, never negative, and zero only
/// for the same time.
pub proof fn gap_is_a_distance(a: int, b: int)
    ensures
        capped_gap(a, b) == capped_gap(b, a),
        capped_gap(a, b) >= 0,
        capped_gap(a, b) == 0 <==> a == b,
{
}

/// The age of two quotes is at least half their distance: quotes that lie far apart cannot
/// both be recent.
pub proof fn recent_quotes_lie_close(observed: int, first: int, second: int)
    ensures
        capped_gap(first, second) <= 2 * larger_of(
            capped_gap(observed, first),
            capped_gap(observed, second),
        ),
{
}

/// The first time in milliseconds; smaller numbers count seconds.
pub const FIRST_MILLISECOND_TIME: i64 = 1_000_000_000_000;

/// A time in milliseconds, from one in seconds or milliseconds.
pub open spec fn in_milliseconds(timestamp: int) -> Option<int> {
    if timestamp <= 0 {
        None
    } else if timestamp < FIRST_MILLISECOND_TIME {
        Some(timestamp * 1_000)
    } else {
        Some(timestamp)
    }
}

/// A time in milliseconds, from one in seconds or milliseconds.
pub fn rtds_timestamp_ms(timestamp: i64) -> (result: Option<i64>)
    ensures
        integer_of(result) == in_milliseconds(timestamp as int),
{
    if timestamp <= 0 {
        None
    } else if timestamp < FIRST_MILLISECOND_TIME {
        timestamp.checked_mul(1_000)
    } else {
        Some(timestamp)
    }
}

/// Times of the feed are normalised to milliseconds once and for all.
pub proof fn milliseconds_stay(timestamp: int)
    requires
        in_milliseconds(timestamp) matches Some(ms) && ms >= FIRST_MILLISECOND_TIME,
    ensures
        in_milliseconds(in_milliseconds(timestamp)->0) == in_milliseconds(timestamp),
{
}

/// A price given as a whole number of `10^-18`. The outer `None` is an overflow, the inner one
/// a text that is no number.
pub open spec fn fixed_point_price(text: Seq<char>) -> Option<Option<DecimalView>> {
    match parsed_decimal(text) {
        None => Some(None),
        Some(number) => match product(number, DecimalView { mantissa: 1, scale: 18 }) {
            Some(price) => Some(Some(price)),
            None => None,
        },
    }
}

/// Reads a price given as a whole number of `10^-18`; the outer `None` is an overflow.
pub fn checked_rtds_fixed_point_price(value: &str) -> (result: Option<Option<Decimal>>)
    ensures
        nested_view(result) == fixed_point_price(value@),
{
    match Decimal::parse(value) {
        None => Some(None),
        Some(number) => Some(Some(number.checked_mul(Decimal::new(1, 18))?)),
    }
}

/// Reads a price given as a whole number of `10^-18`.
pub fn rtds_fixed_point_price(value: &str) -> (result: Option<Decimal>)
    requires
        fixed_point_price(value@) is Some,
    ensures
        Some(view_of(result)) == fixed_point_price(value@),
{
    checked_rtds_fixed_point_price(value).unwrap()
}

/// The prices of an asset on both venues, and their difference.
#[derive(Clone, Debug)]
pub struct ReferencePriceView {
    pub binance_spot_price: Option<String>,
    pub binance_observed_at_ms: Option<i64>,
    pub polymarket_twap_60s: Option<String>,
    pub polymarket_observed_at_ms: Option<i64>,
    pub price_difference: Option<String>,
}

impl Default for ReferencePriceView {
    fn default() -> (result: ReferencePriceView)
        ensures
            result.binance_spot_price is None,
            result.binance_observed_at_ms is None,
            result.polymarket_twap_60s is None,
            result.polymarket_observed_at_ms is None,
            result.price_difference is None,
    {
        ReferencePriceView {
            binance_spot_price: None,
            binance_observed_at_ms: None,
            polymarket_twap_60s: None,
            polymarket_observed_at_ms: None,
            price_difference: None,
        }
    }
}

/// The decimal that an optional text stands for.
pub open spec fn number_of(text: Option<Seq<char>>) -> Option<DecimalView> {
    match text {
        Some(text) => parsed_decimal(text),
        None => None,
    }
}

/// The difference of two prices, where both are numbers. The outer `None` is an overflow.
pub open spec fn difference_of(binance: Option<Seq<char>>, polymarket: Option<Seq<char>>) -> Option<
    Option<Seq<char>>,
> {
    match (number_of(binance), number_of(polymarket)) {
        (Some(left), Some(right)) => match difference(left, right) {
            Some(gap) => Some(Some(plain_notation(gap))),
            None => None,
        },
        _ => Some(None),
    }
}

/// The number a text stands for, where there is one.
pub fn read_number(text: &Option<String>) -> (result: Option<Decimal>)
    ensures
        view_of(result) == number_of(text_of(*text)),
{
    match text {
        Some(text) => Decimal::parse(text.as_str()),
        None => None,
    }
}

/// The difference of two prices; the outer `None` is an overflow.
fn difference_text(binance: &Option<String>, polymarket: &Option<String>) -> (result: Option<
    Option<String>,
>)
    ensures
        match result {
            Some(text) => difference_of(text_of(*binance), text_of(*polymarket)) == Some(
                text_of(text),
            ),
            None => difference_of(text_of(*binance), text_of(*polymarket)) is None,
        },
{
    match (read_number(binance), read_number(polymarket)) {
        (Some(left), Some(right)) => Some(Some(left.checked_sub(right)?.plain_text())),
        _ => Some(None),
    }
}

/// Brings the difference up to date with the prices; `None`, with nothing changed, on overflow.
pub fn checked_update_reference_difference(reference: &mut ReferencePriceView) -> (result: Option<
    (),
>)
    ensures
        final(reference).binance_spot_price == old(reference).binance_spot_price,
        final(reference).binance_observed_at_ms == old(reference).binance_observed_at_ms,
        final(reference).polymarket_twap_60s == old(reference).polymarket_twap_60s,
        final(reference).polymarket_observed_at_ms == old(reference).polymarket_observed_at_ms,
        ({
            let fresh = difference_of(
                text_of(old(reference).binance_spot_price),
                text_of(old(reference).polymarket_twap_60s),
            );
            &&& result is None <==> fresh is None
            &&& result is None ==> final(reference).price_difference
                == old(reference).price_difference
            &&& result is Some ==> text_of(final(reference).price_difference) == fresh->0
        }),
{
    let fresh = difference_text(&reference.binance_spot_price, &reference.polymarket_twap_60s)?;
    reference.price_difference = fresh;
    Some(())
}

/// Brings the difference up to date with the prices.
pub fn update_reference_difference(reference: &mut ReferencePriceView)
    requires
        difference_of(
            text_of(old(reference).binance_spot_price),
            text_of(old(reference).polymarket_twap_60s),
        ) is Some,
    ensures
        final(reference).binance_spot_price == old(reference).binance_spot_price,
        final(reference).binance_observed_at_ms == old(reference).binance_observed_at_ms,
        final(reference).polymarket_twap_60s == old(reference).polymarket_twap_60s,
        final(reference).polymarket_observed_at_ms == old(reference).polymarket_observed_at_ms,
        Some(text_of(final(reference).price_difference)) == difference_of(
            text_of(old(reference).binance_spot_price),
            text_of(old(reference).polymarket_twap_60s),
        ),
{
    let updated = checked_update_reference_difference(reference);
    updated.unwrap()
}

/// Takes over a spot price of Binance; `None`, with nothing changed, where the difference
/// overflows.
pub fn take_spot_price(
    reference: &mut ReferencePriceView,
    price: String,
    observed_at_ms: i64,
) -> (result: Option<()>)
    ensures
        ({
            let fresh = difference_of(Some(price@), text_of(old(reference).polymarket_twap_60s));
            &&& result is None <==> fresh is None
            &&& result is None ==> *final(reference) == *old(reference)
            &&& result is Some ==> {
                &&& final(reference).binance_spot_price == Some(price)
                &&& final(reference).binance_observed_at_ms == Some(observed_at_ms)
                &&& final(reference).polymarket_twap_60s == old(reference).polymarket_twap_60s
                &&& final(reference).polymarket_observed_at_ms
                    == old(reference).polymarket_observed_at_ms
                &&& text_of(final(reference).price_difference) == fresh->0
            }
        }),
{
    let spot = Some(price);
    let fresh = difference_text(&spot, &reference.polymarket_twap_60s)?;
    reference.binance_spot_price = spot;
    reference.binance_observed_at_ms = Some(observed_at_ms);
    reference.price_difference = fresh;
    Some(())
}

/// The symbol under which the feed reports an asset.
pub fn rtds_symbol(asset: &str) -> (result: String)
    ensures
        result@ == ascii_lower(asset@) + "/usd"@,
{
    ascii_lowercase(asset).concat("/usd")
}

/// A message of the feed: the price of a symbol at a time.
#[derive(Clone, Debug)]
pub struct RtdsTwapEvent {
    pub topic: String,
    pub symbol: String,
    pub full_accuracy_value: String,
    pub timestamp: i64,
}

/// Whether a message is about the symbol and carries a price; the outer `None` is an overflow.
pub open spec fn event_price(event: RtdsTwapEvent, symbol: Seq<char>) -> Option<
    Option<DecimalView>,
> {
    if event.topic@ != "crypto_prices_twap_sixty"@ || !same_ignoring_case(event.symbol@, symbol) {
        Some(None)
    } else {
        fixed_point_price(event.full_accuracy_value@)
    }
}

/// The reference prices after a message of the feed: a message that is about the symbol and
/// carries a price is taken over, any other changes nothing, and so does an overflow.
pub open spec fn took_event(
    before: ReferencePriceView,
    after: ReferencePriceView,
    event: RtdsTwapEvent,
    symbol: Seq<char>,
    result: Option<bool>,
) -> bool {
    match event_price(event, symbol) {
        None => result is None && after == before,
        Some(None) => result == Some(false) && after == before,
        Some(Some(price)) => {
            let fresh = difference_of(
                text_of(before.binance_spot_price),
                Some(plain_notation(price)),
            );
            &&& result is None <==> fresh is None
            &&& result is None ==> after == before
            &&& result is Some ==> {
                &&& result == Some(true)
                &&& after.binance_spot_price == before.binance_spot_price
                &&& after.binance_observed_at_ms == before.binance_observed_at_ms
                &&& text_of(after.polymarket_twap_60s) == Some(plain_notation(price))
                &&& integer_of(after.polymarket_observed_at_ms) == in_milliseconds(
                    event.timestamp as int,
                )
                &&& text_of(after.price_difference) == fresh->0
            }
        },
    }
}

/// Takes over a message of the feed where it is about the symbol and carries a price, and says
/// whether it was; `None`, with nothing changed, on overflow.
pub fn take_rtds_event(reference: &mut ReferencePriceView, event: &RtdsTwapEvent, symbol: &str) -> (result:
    Option<bool>)
    ensures
        took_event(*old(reference), *final(reference), *event, symbol@, result),
{
    if !same(event.topic.as_str(), "crypto_prices_twap_sixty") || !eq_ignore_ascii_case(
        event.symbol.as_str(),
        symbol,
    ) {
        return Some(false);
    }
    let price = match checked_rtds_fixed_point_price(event.full_accuracy_value.as_str())? {
        Some(price) => price,
        None => return Some(false),
    };
    let twap = Some(price.plain_text());
    let fresh = difference_text(&reference.binance_spot_price, &twap)?;
    reference.polymarket_twap_60s = twap;
    reference.polymarket_observed_at_ms = rtds_timestamp_ms(event.timestamp);
    reference.price_difference = fresh;
    Some(true)
}

/// The start time at the end of a slug, in seconds there and in milliseconds here. The outer
/// `None` is an overflow, the inner one a slug that does not end in a number.
pub open spec fn slug_start(slug: Seq<char>) -> Option<Option<int>> {
    match parsed_integer(after_last(slug, '-')) {
        None => Some(None),
        Some(seconds) => if i64::MIN <= seconds * 1000 <= i64::MAX {
            Some(Some(seconds * 1000))
        } else {
            None
        },
    }
}

/// The start time at the end of a slug; the outer `None` is an overflow.
pub fn checked_slug_start_ms(slug: &str) -> (result: Option<Option<i64>>)
    ensures
        match result {
            Some(start) => slug_start(slug@) == Some(integer_of(start)),
            None => slug_start(slug@) is None,
        },
{
    match parse_integer(tail_after(slug, '-').as_str()) {
        None => Some(None),
        Some(seconds) => match seconds.checked_mul(1000) {
            Some(milliseconds) => Some(Some(milliseconds)),
            None => None,
        },
    }
}

/// The start time at the end of a slug.
pub fn slug_start_ms(slug: &str) -> (result: Option<i64>)
    requires
        slug_start(slug@) is Some,
    ensures
        Some(integer_of(result)) == slug_start(slug@),
{
    checked_slug_start_ms(slug).unwrap()
}

/// The most bytes that the header of a proxy's answer may have.
pub const MAX_PROXY_HEADER_BYTES: usize = 16384;

/// What to do after reading from a proxy.
#[derive(Clone, Copy, Debug, PartialEq, Eq, Structural)]
pub enum ProxyStep {
    /// The header is complete.
    Complete,
    /// The header is not complete yet.
    ReadOn,
    /// The proxy closed the connection.
    Closed,
    /// The header has become too large.
    TooLarge,
}

/// An empty line ends at this position of a header.
pub open spec fn ends_header_at(bytes: Seq<u8>, i: int) -> bool {
    0 <= i && i + 4 <= bytes.len() && bytes[i] == 13 && bytes[i + 1] == 10 && bytes[i + 2] == 13
        && bytes[i + 3] == 10
}

/// An empty line ends a header.
pub open spec fn header_complete(bytes: Seq<u8>) -> bool {
    exists|i: int| ends_header_at(bytes, i)
}

/// What follows from having read `read` more bytes of a header.
pub open spec fn step_after(read: nat, response: Seq<u8>) -> ProxyStep {
    if read == 0 {
        ProxyStep::Closed
    } else if header_complete(response) {
        ProxyStep::Complete
    } else if response.len() > MAX_PROXY_HEADER_BYTES {
        ProxyStep::TooLarge
    } else {
        ProxyStep::ReadOn
    }
}

/// What follows from having read `read` more bytes, `response` being all of them.
pub fn proxy_step(read: usize, response: &[u8]) -> (result: ProxyStep)
    ensures
        result == (if read == 0 {
            ProxyStep::Closed
        } else if header_complete(response@) {
            ProxyStep::Complete
        } else if response@.len() > MAX_PROXY_HEADER_BYTES {
            ProxyStep::TooLarge
        } else {
            ProxyStep::ReadOn
        }),
        result == step_after(read as nat, response@),
{
    if read == 0 {
        return ProxyStep::Closed;
    }
    let width: usize = response.len();
    let mut i: usize = 0;
    while i < width && width - i >= 4
        invariant
            read != 0,
            i <= width == response@.len(),
            forall|j: int| 0 <= j < i ==> !ends_header_at(response@, j),
        decreases width - i,
    {
        if response[i] == 13 && response[i + 1] == 10 && response[i + 2] == 13 && response[i + 3]
            == 10 {
            proof {
                assert(ends_header_at(response@, i as int));
            }
            return ProxyStep::Complete;
        }
        i = i + 1;
    }
    proof {
        assert forall|j: int| !ends_header_at(response@, j) by {}
    }
    if width > MAX_PROXY_HEADER_BYTES {
        ProxyStep::TooLarge
    } else {
        ProxyStep::ReadOn
    }
}

/// Whether a proxy can be used: plain HTTP, without credentials.
pub fn proxy_supported(scheme: &str, username: &str, has_password: bool) -> (result: Result<
    (),
    String,
>)
    ensures
        match result {
            Ok(_) => scheme@ == "http"@ && username@.len() == 0 && !has_password,
            Err(error) => !(scheme@ == "http"@ && username@.len() == 0 && !has_password) && error@
                == "RTDS 仅支持无认证 HTTP 代理"@,
        },
{
    if !same(scheme, "http") || username.unicode_len() != 0 || has_password {
        Err("RTDS 仅支持无认证 HTTP 代理".to_owned())
    } else {
        Ok(())
    }
}

/// The request for a tunnel through a proxy to `host`.
pub fn tunnel_request(host: &str) -> (result: String)
    ensures
        result@ == "CONNECT "@ + host@ + ":443 HTTP/1.1\r\nHost: "@ + host@
            + ":443\r\nProxy-Connection: Keep-Alive\r\n\r\n"@,
{
    "CONNECT ".to_owned().concat(host).concat(":443 HTTP/1.1\r\nHost: ").concat(host).concat(
        ":443\r\nProxy-Connection: Keep-Alive\r\n\r\n",
    )
}

/// Whether the status line of a proxy's answer grants the tunnel.
pub fn tunnel_granted(status_line: &str) -> (result: Result<(), String>)
    ensures
        match result {
            Ok(_) => occurs_in(status_line@, " 200 "@),
            Err(error) => !occurs_in(status_line@, " 200 "@) && error@ == "RTDS 代理隧道失败："@
                + status_line@,
        },
{
    if contains(status_line, " 200 ") {
        Ok(())
    } else {
        Err("RTDS 代理隧道失败：".to_owned().concat(status_line))
    }
}

/// The parts of an address as far as a proxy needs them.
pub struct AddressParts {
    pub scheme: Seq<char>,
    pub username: Seq<char>,
    pub has_password: bool,
    pub host: Option<Seq<char>>,
    pub port: Option<u16>,
}

/// The parts of an address as far as a proxy needs them.
#[derive(Clone, Debug)]
pub struct ProxyParts {
    pub scheme: String,
    pub username: String,
    pub has_password: bool,
    pub host: Option<String>,
    pub port: Option<u16>,
}

impl View for ProxyParts {
    type V = AddressParts;

    open spec fn view(&self) -> AddressParts {
        AddressParts {
            scheme: self.scheme@,
            username: self.username@,
            has_password: self.has_password,
            host: text_of(self.host),
            port: self.port,
        }
    }
}

pub open spec fn parts_result(value: Result<ProxyParts, String>) -> Result<
    AddressParts,
    Seq<char>,
> {
    match value {
        Ok(parts) => Ok(parts@),
        Err(error) => Err(error@),
    }
}

pub open spec fn address_view(value: Result<(String, u16), String>) -> Result<
    (Seq<char>, u16),
    Seq<char>,
> {
    match value {
        Ok((host, port)) => Ok((host@, port)),
        Err(error) => Err(error@),
    }
}

/// The parts of an address, or what the `url` crate says is wrong with it.
pub uninterp spec fn parsed_address(text: Seq<char>) -> Result<AddressParts, Seq<char>>;

/// Reads an address.
///
/// Trusted: `reqwest::Url::parse` with `scheme`, `username`, `password`, `host_str` and
/// `port_or_known_default`, and the `Display` of its error. It is claimed that the outcome
/// depends on the text alone; which texts are addresses is left unsaid.
#[verifier::external_body]
fn outer_address(text: &str) -> (result: Result<ProxyParts, String>)
    ensures
        parts_result(result) == parsed_address(text@),
{
    match reqwest::Url::parse(text) {
        Ok(url) => Ok(
            ProxyParts {
                scheme: url.scheme().to_owned(),
                username: url.username().to_owned(),
                has_password: url.password().is_some(),
                host: url.host_str().map(|host| host.to_owned()),
                port: url.port_or_known_default(),
            },
        ),
        Err(error) => Err(format!("{}", error)),
    }
}

/// Where a proxy is reached, or why it cannot be used.
pub open spec fn proxy_of(parts: AddressParts) -> Result<(Seq<char>, u16), Seq<char>> {
    if parts.scheme != "http"@ || parts.username.len() != 0 || parts.has_password {
        Err("RTDS 仅支持无认证 HTTP 代理"@)
    } else {
        match (parts.host, parts.port) {
            (None, _) => Err("代理地址缺少主机"@),
            (Some(_), None) => Err("代理地址缺少端口"@),
            (Some(host), Some(port)) => Ok((host, port)),
        }
    }
}

/// Where a proxy is reached, or why it cannot be used.
pub fn pick_proxy(parts: ProxyParts) -> (result: Result<(String, u16), String>)
    ensures
        address_view(result) == proxy_of(parts@),
{
    match proxy_supported(parts.scheme.as_str(), parts.username.as_str(), parts.has_password) {
        Err(error) => Err(error),
        Ok(_) => match (parts.host, parts.port) {
            (None, _) => Err("代理地址缺少主机".to_owned()),
            (Some(_), None) => Err("代理地址缺少端口".to_owned()),
            (Some(host), Some(port)) => Ok((host, port)),
        },
    }
}

/// Where the proxy at an address is reached, or why it cannot be used.
pub fn proxy_address(text: &str) -> (result: Result<(String, u16), String>)
    ensures
        match parsed_address(text@) {
            Err(words) => result matches Err(error) && error@ == "代理地址无效："@ + words,
            Ok(parts) => address_view(result) == proxy_of(parts),
        },
{
    match outer_address(text) {
        Err(error) => Err("代理地址无效：".to_owned().concat(error.as_str())),
        Ok(parts) => pick_proxy(parts),
    }
}

/// The variable of the environment that is looked at for a proxy after `place` others.
pub fn proxy_variable(place: usize) -> (result: Option<&'static str>)
    ensures
        match result {
            Some(name) => name@ == (if place == 0 {
                "all_proxy"@
            } else if place == 1 {
                "ALL_PROXY"@
            } else if place == 2 {
                "https_proxy"@
            } else {
                "HTTPS_PROXY"@
            }) && place < 4,
            None => place >= 4,
        },
{
    if place == 0 {
        Some("all_proxy")
    } else if place == 1 {
        Some("ALL_PROXY")
    } else if place == 2 {
        Some("https_proxy")
    } else if place == 3 {
        Some("HTTPS_PROXY")
    } else {
        None
    }
}

/// The first of some values that is there and not empty.
pub open spec fn first_filled(values: Seq<Option<String>>) -> Option<Seq<char>>
    decreases values.len(),
{
    if values.len() == 0 {
        None
    } else {
        match values[0] {
            Some(value) => if value@.len() > 0 {
                Some(value@)
            } else {
                first_filled(values.drop_first())
            },
            None => first_filled(values.drop_first()),
        }
    }
}

/// The proxy among the values of the environment: the first one that is there and not empty.
pub fn chosen_proxy(values: &[Option<String>]) -> (result: Option<String>)
    ensures
        text_of(result) == first_filled(values@),
{
    let mut i: usize = 0;
    proof {
        assert(values@.skip(0) =~= values@);
    }
    while i < values.len()
        invariant
            i <= values@.len(),
            first_filled(values@) == first_filled(values@.skip(i as int)),
        decreases values@.len() - i,
    {
        proof {
            assert(values@.skip(i as int).drop_first() =~= values@.skip(i + 1));
        }
        if let Some(value) = &values[i] {
            if value.as_str().unicode_len() > 0 {
                return Some(value.clone());
            }
        }
        i = i + 1;
    }
    None
}

/// The text that bytes stand for, with a replacement character for what is not UTF-8.
pub uninterp spec fn lossy_text(bytes: Seq<u8>) -> Seq<char>;

/// The text that bytes stand for.
///
/// Trusted: `String::from_utf8_lossy`. It is claimed that the text depends on the bytes alone;
/// how bytes that are not UTF-8 are replaced is left unsaid.
#[verifier::external_body]
fn outer_lossy_text(bytes: &[u8]) -> (result: String)
    ensures
        result@ == lossy_text(bytes@),
{
    String::from_utf8_lossy(bytes).into_owned()
}

/// The first line of a text, without the line feed that ends it and a carriage return before
/// that.
pub open spec fn first_line_of(text: Seq<char>) -> Seq<char> {
    if text.contains('\n') {
        let end = text.index_of_first('\n')->0;
        if end > 0 && text[end - 1] == '\r' {
            text.take(end - 1)
        } else {
            text.take(end)
        }
    } else {
        text
    }
}

/// The first line of a text.
pub fn first_line(text: &str) -> (result: String)
    ensures
        result@ == first_line_of(text@),
{
    let width: usize = text.unicode_len();
    let mut end: usize = 0;
    while end < width && text.get_char(end) != '\n'
        invariant
            end <= width == text@.len(),
            forall|i: int| 0 <= i < end ==> text@[i] != '\n',
        decreases width - end,
    {
        end = end + 1;
    }
    proof {
        text@.index_of_first_ensures('\n');
    }
    if end < width {
        proof {
            assert(text@.contains('\n'));
            assert(text@.index_of_first('\n') == Some(end as int));
        }
        if end > 0 && text.get_char(end - 1) == '\r' {
            text.substring_char(0, end - 1).to_owned()
        } else {
            text.substring_char(0, end).to_owned()
        }
    } else {
        text.to_owned()
    }
}

/// Whether the answer of a proxy grants the tunnel, which its first line says.
pub fn tunnel_outcome(response: &[u8]) -> (result: Result<(), String>)
    ensures
        ({
            let line = first_line_of(lossy_text(response@));
            match result {
                Ok(_) => occurs_in(line, " 200 "@),
                Err(error) => !occurs_in(line, " 200 "@) && error@ == "RTDS 代理隧道失败："@
                    + line,
            }
        }),
{
    tunnel_granted(first_line(outer_lossy_text(response).as_str()).as_str())
}

/// The message that subscribes to the prices of a symbol.
pub fn subscription(symbol: &str) -> (result: String)
    ensures
        result@ == "{\"action\":\"subscribe\",\"subscriptions\":[{\"filters\":"@ + json_text(
            "{\"symbol\":"@ + json_text(symbol@) + "}"@,
        ) + ",\"topic\":\"crypto_prices_twap_sixty\",\"type\":\"update\"}]}"@,
{
    let filters = "{\"symbol\":".to_owned().concat(quoted(symbol).as_str()).concat("}");
    "{\"action\":\"subscribe\",\"subscriptions\":[{\"filters\":".to_owned().concat(
        quoted(filters.as_str()).as_str(),
    ).concat(",\"topic\":\"crypto_prices_twap_sixty\",\"type\":\"update\"}]}")
}

/// A time below a million million counts seconds and is shown in milliseconds, a later one is in
/// milliseconds already, and one that is not positive is none.
pub proof fn small_times_count_seconds(timestamp: int)
    ensures
        timestamp <= 0 <==> in_milliseconds(timestamp) is None,
        0 < timestamp < 1_000_000_000_000 ==> in_milliseconds(timestamp) == Some(timestamp * 1_000),
        timestamp >= 1_000_000_000_000 ==> in_milliseconds(timestamp) == Some(timestamp),
{
}

/// A million million million times a price of the feed is the number that it is written as, up
/// to the rounding of the price.
pub proof fn feed_prices_are_fixed_point(text: Seq<char>, number: DecimalView, price: DecimalView)
    requires
        parsed_decimal(text) == Some(number),
        fixed_point_price(text) == Some(Some(price)),
    ensures
        ({
            let smallest = DecimalView { mantissa: 1, scale: 18 };
            let off = product_miss(number, smallest);
            close(
                1_000_000_000_000_000_000 * fine(price),
                fine(number),
                1_000_000_000_000_000_000 * off,
            )
        }),
{
    let smallest = DecimalView { mantissa: 1, scale: 18 };
    assert(pow10(10) == 10_000_000_000) by {
        reveal_with_fuel(pow10, 11);
    }
    whole_units(1);
    let (n, k, p) = (number.units(), whole(1).units(), fine(price));
    let off = product_miss(number, smallest);
    assert(smallest.units() == 10_000_000_000);
    assert(n * k == 1_000_000_000_000_000_000 * (n * 10_000_000_000)) by (nonlinear_arith)
        requires
            k == 10_000_000_000_000_000_000_000_000_000,
    ;
}

/// The difference of two prices is the one of Binance less the one of Polymarket, and there is
/// one exactly where both are numbers.
pub proof fn differences_are_binance_less_polymarket(
    binance: Option<Seq<char>>,
    polymarket: Option<Seq<char>>,
)
    ensures
        match (number_of(binance), number_of(polymarket)) {
            (Some(left), Some(right)) => difference_of(binance, polymarket) matches Some(shown)
                ==> shown is Some && exists|gap: DecimalView|
                shown->0 == #[trigger] plain_notation(gap) && close(
                    gap.units(),
                    left.units() - right.units(),
                    difference_miss(left, right),
                ),
            _ => difference_of(binance, polymarket) == Some(None::<Seq<char>>),
        },
{
    if let (Some(left), Some(right)) = (number_of(binance), number_of(polymarket)) {
        if let Some(gap) = difference(left, right) {
            assert(difference_of(binance, polymarket) == Some(Some(plain_notation(gap))));
        }
    }
}

/// A message of another topic or about another symbol changes nothing. One that is taken over
/// sets the price and the time of Polymarket only, and the difference to it.
pub proof fn messages_change_their_own_price(
    before: ReferencePriceView,
    after: ReferencePriceView,
    event: RtdsTwapEvent,
    symbol: Seq<char>,
    result: Option<bool>,
)
    requires
        took_event(before, after, event, symbol, result),
    ensures
        event.topic@ != "crypto_prices_twap_sixty"@ || !same_ignoring_case(event.symbol@, symbol)
            ==> after == before && result == Some(false),
        result != Some(true) ==> after == before,
        after.binance_spot_price == before.binance_spot_price,
        after.binance_observed_at_ms == before.binance_observed_at_ms,
        result == Some(true) ==> {
            &&& fixed_point_price(event.full_accuracy_value@) matches Some(Some(price)) && text_of(
                after.polymarket_twap_60s,
            ) == Some(plain_notation(price))
            &&& event.timestamp <= 0 ==> after.polymarket_observed_at_ms is None
            &&& 0 < event.timestamp < 1_000_000_000_000 ==> integer_of(
                after.polymarket_observed_at_ms,
            ) == Some(event.timestamp * 1_000)
            &&& event.timestamp >= 1_000_000_000_000 ==> after.polymarket_observed_at_ms == Some(
                event.timestamp,
            )
            &&& difference_of(
                text_of(after.binance_spot_price),
                text_of(after.polymarket_twap_60s),
            ) == Some(text_of(after.price_difference))
        },
{
}

/// The time at the end of a slug is in seconds.
pub proof fn slugs_end_in_seconds(base: Seq<char>, seconds: int)
    requires
        0 <= seconds,
        seconds * 1_000 <= i64::MAX,
    ensures
        slug_start(base + "-"@ + int_text(seconds)) == Some(Some(seconds * 1_000)),
{
    reveal_strlit("-");
    written_numbers_are_read_back(seconds);
    let slug = base + "-"@ + int_text(seconds);
    numbers_hold_no_separator(base + "-"@, seconds);
    assert((base + "-"@).last() == '-');
}

/// A proxy is used exactly over plain HTTP, without a user and a password, where its host and
/// port are known; it is then reached at these.
pub proof fn proxies_are_plain(parts: AddressParts)
    ensures
        proxy_of(parts) is Ok <==> {
            &&& parts.scheme == "http"@
            &&& parts.username.len() == 0
            &&& !parts.has_password
            &&& parts.host is Some
            &&& parts.port is Some
        },
        proxy_of(parts) is Ok ==> proxy_of(parts)->Ok_0 == (parts.host->0, parts.port->0),
{
}

/// The proxy that is chosen is the first value that is there and not empty, and there is none
/// only where every value is missing or empty.
pub proof fn the_first_filled_value_is_chosen(values: Seq<Option<String>>)
    ensures
        match first_filled(values) {
            Some(chosen) => exists|place: int|
                0 <= place < values.len() && #[trigger] text_of(values[place]) == Some(chosen)
                    && chosen.len() > 0 && forall|i: int|
                    0 <= i < place ==> (#[trigger] text_of(values[i]) matches Some(text)
                        ==> text.len() == 0),
            None => forall|i: int|
                0 <= i < values.len() ==> (#[trigger] text_of(values[i]) matches Some(text)
                    ==> text.len() == 0),
        },
    decreases values.len(),
{
    if values.len() > 0 {
        let rest = values.drop_first();
        the_first_filled_value_is_chosen(rest);
        assert forall|i: int| 0 < i < values.len() implies #[trigger] values[i] == rest[i - 1] by {}
        if text_of(values[0]) is Some && text_of(values[0])->0.len() > 0 {
            assert(text_of(values[0]) == first_filled(values));
        } else if let Some(chosen) = first_filled(rest) {
            let place = choose|place: int|
                0 <= place < rest.len() && #[trigger] text_of(rest[place]) == Some(chosen)
                    && chosen.len() > 0 && forall|i: int|
                    0 <= i < place ==> (#[trigger] text_of(rest[i]) matches Some(text) ==> text.len()
                        == 0);
            assert(text_of(values[place + 1]) == Some(chosen));
            assert forall|i: int| 0 <= i < place + 1 implies (#[trigger] text_of(
                values[i],
            ) matches Some(text) ==> text.len() == 0) by {
                if i > 0 {
                    assert(text_of(rest[i - 1]) == text_of(values[i]));
                }
            }
        } else {
            assert forall|i: int| 0 <= i < values.len() implies (#[trigger] text_of(
                values[i],
            ) matches Some(text) ==> text.len() == 0) by {
                if i > 0 {
                    assert(text_of(rest[i - 1]) == text_of(values[i]));
                }
            }
        }
    }
}

/// The first line of a text ends before its first line feed, and before a carriage return right
/// in front of that; a text without a line feed is one line.
pub proof fn first_lines_end_at_the_line_feed(line: Seq<char>, rest: Seq<char>)
    requires
        !line.contains('\n'),
        line.len() > 0 ==> line.last() != '\r',
    ensures
        first_line_of(line) == line,
        first_line_of(line + seq!['\n'] + rest) == line,
        first_line_of(line + seq!['\r', '\n'] + rest) == line,
{
    let plain = line + seq!['\n'] + rest;
    let windows = line + seq!['\r', '\n'] + rest;
    let n = line.len() as int;
    assert(plain[n] == '\n');
    assert(windows[n + 1] == '\n');
    assert(plain.contains('\n'));
    assert(windows.contains('\n'));
    plain.index_of_first_ensures('\n');
    windows.index_of_first_ensures('\n');
    assert forall|i: int| 0 <= i < n implies line[i] != '\n' by {
        assert(line.contains(line[i]));
    }
    assert(plain.index_of_first('\n') == Some(n)) by {
        let found = plain.index_of_first('\n')->0;
        if found < n {
            assert(plain[found] == line[found]);
        }
    }
    assert(windows.index_of_first('\n') == Some(n + 1)) by {
        let found = windows.index_of_first('\n')->0;
        if found < n {
            assert(windows[found] == line[found]);
        } else if found == n {
            assert(windows[found] == '\r');
        }
    }
    if n > 0 {
        assert(plain[n - 1] == line.last());
    }
    assert(plain.take(n) =~= line);
    assert(windows[n] == '\r');
    assert(windows.take(n) =~= line);
}

/// A header is read on for as long as it holds no empty line and at most sixteen kibibytes: one
/// that has its empty line is complete however much is read behind it, and one that has become
/// too large stays so until the line comes.
pub proof fn headers_are_read_to_their_empty_line(before: Seq<u8>, after: Seq<u8>, read: nat)
    requires
        read > 0,
    ensures
        step_after(read, before + seq![13u8, 10u8, 13u8, 10u8] + after) == ProxyStep::Complete,
        step_after(0, before) == ProxyStep::Closed,
        step_after(read, before) == ProxyStep::Complete ==> step_after(read, before + after)
            == ProxyStep::Complete,
        step_after(read, before) == ProxyStep::ReadOn ==> before.len() <= 16 * 1_024,
        step_after(read, before) == ProxyStep::TooLarge ==> before.len() > 16 * 1_024,
        before.len() < 4 ==> step_after(read, before) == ProxyStep::ReadOn,
        (forall|i: int| 0 <= i < before.len() ==> before[i] != 13u8) ==> step_after(read, before)
            != ProxyStep::Complete,
{
    let line = seq![13u8, 10u8, 13u8, 10u8];
    assert(ends_header_at(before + line + after, before.len() as int));
    if header_complete(before) {
        let i = choose|i: int| ends_header_at(before, i);
        assert(ends_header_at(before + after, i));
    }
}

} // verus!
