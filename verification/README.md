# arbitrage_observer

A verified core for an observer of binary-outcome markets. It compares the books of
two prediction venues (Binance and Polymarket), looks for pairs of orders that pay out
more than they cost, follows those orders up on later books without ever sending one,
and watches spot prices against perpetual and delivery contracts.

Nothing here places a real order.

## Layout

- `src/` is the library. Every function states in its contract what it returns, and
  Verus proves it, but for the wrappers listed below. The main modules:
  - `decimal`, `text`, `json`, `time`, `table`: numbers, texts, moments and small maps.
  - `domain`, `ladder`, `execution`, `arbitrage`, `matcher`: books, fills, orders that
    are filled whole or not at all, opportunities, and whether two markets settle alike.
  - `cheapest`, `sizing`: why those orders pay the least and why no other size earns more.
  - `binance`, `polymarket`: the answers of the venues and how they are asked.
  - `pairs`, `cross`, `scan`, `paper`, `shadow`, `dashboard`: pairing markets, costing
    directions, deciding on simulated trades and keeping what is shown.
  - `settlement`, `rankings`, `same_market`, `schema`: what stored rows come to.
  - `quotes`: reference prices and the proxy handshake.
  - `basis`, `delivery`: spot prices against perpetual and delivery contracts.
  - `cadence`: how often things are done, and how long is waited.
  - `cli`: the commands of the program.
- `tests/` runs the library on concrete values.
- `app/` is the program around it: HTTP, SQLite, web sockets and the dashboard.

## What is trusted

The contracts of these wrappers are believed, not proved. Each says in its doc comment what it
claims of the function that it calls.

- `decimal`: `outer_add`, `outer_sub`, `outer_mul`, `outer_div`, `outer_less`, `outer_floor`,
  `outer_ceil`, `outer_round_dp`, `outer_normalize`, `outer_text`, `outer_parse`, on
  `rust_decimal`.
- `text`: `outer_uppercase`; `quotes`: `outer_lossy_text`, on the standard library.
- `time`: `current_time`, `current_millis`, `outer_rfc3339`, on `chrono`.
- `execution`: `fresh_order_id`, on `uuid`.
- `json`: `outer_json_strings`, `outer_json_list`, `outer_json_text`, on `serde_json`.
- `quotes`: `outer_address`, on the URL parser of `reqwest`.
- `binance`: `outer_header_value` on `reqwest`, `outer_hmac_sha256` on `hmac` and `sha2`,
  `outer_hex` on `hex`.

## Numbers

`decimal::Decimal` wraps `rust_decimal::Decimal`. Sums, differences, products and quotients
are those of that crate. Where a figure does not fit, a function whose name begins with
`checked_` returns `None`; its plain counterpart asks for a figure that fits. Laws about sums
of money are stated where these are not rounded; those about quotients allow for the rounding
of the last place.
