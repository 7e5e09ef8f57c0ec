//! Decision logic of an observer that compares binary-outcome markets and
//! spot/derivative books across venues.
use vstd::prelude::*;

pub mod arbitrage;
pub mod basis;
pub mod binance;
pub mod cadence;
pub mod cheapest;
pub mod cli;
pub mod cross;
pub mod dashboard;
pub mod decimal;
pub mod delivery;
pub mod directions;
pub mod domain;
pub mod execution;
pub mod figures;
pub mod json;
pub mod ladder;
pub mod matcher;
pub mod pairs;
pub mod paper;
pub mod polymarket;
pub mod quotes;
pub mod rankings;
pub mod rules;
pub mod same_market;
pub mod scan;
pub mod schema;
pub mod settlement;
pub mod shadow;
pub mod sizing;
pub mod table;
pub mod takings;
pub mod tallies;
pub mod text;
pub mod time;

verus! {

} // verus!
