//! Rankings of markets by the edges that were observed on them.
use vstd::prelude::*;

use crate::decimal::{
    decimal_text, parsed_decimal, positive_units, product, quotient, sum, view_of, whole, zero,
    Decimal, DecimalView,
};
use crate::paper::{is_positive_text, positive};
use crate::quotes::{number_of, read_number};
use crate::text::{same, text_of};
use crate::time::{minus_saturating, saturated_difference};

verus! {

/// How far back the dashboard's statistics reach.
pub const DASHBOARD_STATS_LOOKBACK_MS: i64 = 21_600_000;

/// A pause between two observations that ends a run of positive edges.
pub const MAX_RUN_GAP_MS: i64 = 5_000;

/// The earliest moment that the dashboard's statistics take in.
pub fn statistics_cutoff_ms(now_ms: i64) -> (result: i64)
    ensures
        result == saturated_difference(now_ms as int, DASHBOARD_STATS_LOOKBACK_MS as int),
{
    minus_saturating(now_ms, DASHBOARD_STATS_LOOKBACK_MS)
}

/// The edges of both directions in an observation, as stored.
pub type EdgePair = (Option<String>, Option<String>);

pub open spec fn shows_opportunity(edges: EdgePair) -> bool {
    is_positive_text(text_of(edges.0)) || is_positive_text(text_of(edges.1))
}

pub open spec fn opportunities_in(rows: Seq<EdgePair>) -> nat {
    rows.filter(|edges: EdgePair| shows_opportunity(edges)).len()
}

/// How many observations there are, and how many of them show an opportunity.
pub fn observation_statistics(rows: &Vec<EdgePair>) -> (result: (u64, u64))
    ensures
        result.0 == rows@.len(),
        result.1 == opportunities_in(rows@),
{
    let mut observations: u64 = 0;
    let mut opportunities: u64 = 0;
    let mut i: usize = 0;
    while i < rows.len()
        invariant
            i <= rows.len(),
            observations == i,
            opportunities == opportunities_in(rows@.take(i as int)),
            opportunities <= i,
        decreases rows.len() - i,
    {
        proof {
            let before = rows@.take(i as int);
            let after = rows@.take(i + 1);
            assert(after.drop_last() =~= before);
            assert(after.last() == rows@[i as int]);
            reveal(Seq::filter);
        }
        observations = observations + 1;
        if positive(&rows[i].0) || positive(&rows[i].1) {
            opportunities = opportunities + 1;
        }
        i = i + 1;
    }
    assert(rows@.take(i as int) =~= rows@);
    (observations, opportunities)
}

/// What an observation of a market says for its ranking.
#[derive(Clone, Debug)]
pub struct RankingRow {
    pub slug: String,
    pub asset: String,
    pub duration: String,
    pub classification: String,
    pub direction_a_net_edge: Option<String>,
    pub direction_b_net_edge: Option<String>,
    pub direction_a_size: Option<String>,
    pub direction_b_size: Option<String>,
    pub observed_at_ms: i64,
    pub scan_latency_ms: Option<i64>,
    pub direction_a_quote_skew_ms: Option<i64>,
    pub direction_b_quote_skew_ms: Option<i64>,
}

/// The place of a market in the rankings.
#[derive(Clone, Debug)]
pub struct RankingView {
    pub slug: String,
    pub asset: String,
    pub duration: String,
    pub classification: String,
    pub samples: u64,
    pub evaluated_directions: u64,
    pub signals: u64,
    pub signal_rate: String,
    pub maximum_net_edge: String,
    pub average_positive_edge: String,
    pub maximum_executable_profit: String,
    pub longest_positive_run_ms: i64,
    pub average_scan_latency_ms: Option<u64>,
    pub maximum_quote_skew_ms: Option<i64>,
}

/// What has been counted of the edges of a market.
pub struct EdgeFigures {
    pub evaluated_directions: int,
    pub signals: int,
    pub maximum_net_edge: DecimalView,
    pub positive_edge_sum: DecimalView,
    pub maximum_executable_profit: DecimalView,
    pub longest_positive_run_ms: int,
}

/// What has been counted of a market.
pub struct RankingFigures {
    pub edges: EdgeFigures,
    pub samples: int,
    pub active_a_since_ms: Option<int>,
    pub active_b_since_ms: Option<int>,
    pub previous_observed_at_ms: Option<int>,
    pub latency_sum_ms: int,
    pub latency_samples: int,
    pub maximum_quote_skew_ms: int,
}

/// Nothing counted yet.
pub open spec fn no_figures() -> RankingFigures {
    RankingFigures {
        edges: EdgeFigures {
            evaluated_directions: 0,
            signals: 0,
            maximum_net_edge: zero(),
            positive_edge_sum: zero(),
            maximum_executable_profit: zero(),
            longest_positive_run_ms: 0,
        },
        samples: 0,
        active_a_since_ms: None,
        active_b_since_ms: None,
        previous_observed_at_ms: None,
        latency_sum_ms: 0,
        latency_samples: 0,
        maximum_quote_skew_ms: 0,
    }
}

pub open spec fn text_or_empty(text: Option<Seq<char>>) -> Seq<char> {
    match text {
        Some(text) => text,
        None => ""@,
    }
}

pub open spec fn greater_of(a: int, b: int) -> int {
    if a < b {
        b
    } else {
        a
    }
}

/// The largest profit so far, with the one that an edge on a size would give. `None` on
/// overflow.
pub open spec fn best_profit(profit: DecimalView, edge: DecimalView, size: Option<Seq<char>>) -> Option<
    DecimalView,
> {
    match number_of(size) {
        None => Some(profit),
        Some(size) => match product(edge, size) {
            None => None,
            Some(other) => Some(profit.larger(other)),
        },
    }
}

/// Counts the edge of one direction. With the figures comes the start of the run of positive
/// edges that the direction is in. `None` on overflow.
pub open spec fn count_edge(
    figures: EdgeFigures,
    since: Option<int>,
    edge: Option<Seq<char>>,
    size: Option<Seq<char>>,
    observed_at_ms: int,
) -> Option<(EdgeFigures, Option<int>)> {
    match parsed_decimal(text_or_empty(edge)) {
        None => Some((figures, None)),
        Some(edge) => if figures.evaluated_directions >= u64::MAX {
            None
        } else if !edge.is_positive() {
            Some(
                (
                    EdgeFigures {
                        evaluated_directions: figures.evaluated_directions + 1,
                        ..figures
                    },
                    None,
                ),
            )
        } else {
            let start = match since {
                Some(start) => start,
                None => observed_at_ms,
            };
            match (
                sum(figures.positive_edge_sum, edge),
                best_profit(figures.maximum_executable_profit, edge, size),
            ) {
                (Some(total), Some(profit)) => if figures.signals >= u64::MAX {
                    None
                } else {
                    Some(
                        (
                            EdgeFigures {
                                evaluated_directions: figures.evaluated_directions + 1,
                                signals: figures.signals + 1,
                                maximum_net_edge: figures.maximum_net_edge.larger(edge),
                                positive_edge_sum: total,
                                maximum_executable_profit: profit,
                                longest_positive_run_ms: greater_of(
                                    figures.longest_positive_run_ms,
                                    saturated_difference(observed_at_ms, start),
                                ),
                            },
                            Some(start),
                        ),
                    )
                },
                _ => None,
            }
        },
    }
}

pub open spec fn at_least_zero(value: Option<i64>) -> int {
    match value {
        Some(value) => greater_of(0, value as int),
        None => 0,
    }
}

/// Whether a pause lies between an observation and the one before it.
pub open spec fn after_gap(figures: RankingFigures, observed_at_ms: int) -> bool {
    figures.previous_observed_at_ms matches Some(previous) && saturated_difference(
        observed_at_ms,
        previous,
    ) > MAX_RUN_GAP_MS
}

/// Counts one observation of a market. `None` on overflow.
pub open spec fn count_row(figures: RankingFigures, row: RankingRow) -> Option<RankingFigures> {
    let now = row.observed_at_ms as int;
    let gap = after_gap(figures, now);
    let since_a = if gap {
        None
    } else {
        figures.active_a_since_ms
    };
    let since_b = if gap {
        None
    } else {
        figures.active_b_since_ms
    };
    match count_edge(
        figures.edges,
        since_a,
        text_of(row.direction_a_net_edge),
        text_of(row.direction_a_size),
        now,
    ) {
        None => None,
        Some((edges, active_a)) => match count_edge(
            edges,
            since_b,
            text_of(row.direction_b_net_edge),
            text_of(row.direction_b_size),
            now,
        ) {
            None => None,
            Some((edges, active_b)) => {
                let samples = figures.samples + 1;
                let latency_sum = figures.latency_sum_ms + at_least_zero(row.scan_latency_ms);
                let latency_samples = figures.latency_samples + if row.scan_latency_ms is Some {
                    1int
                } else {
                    0int
                };
                if samples > u64::MAX || latency_sum > u64::MAX || latency_samples > u64::MAX {
                    None
                } else {
                    Some(
                        RankingFigures {
                            edges,
                            samples,
                            active_a_since_ms: active_a,
                            active_b_since_ms: active_b,
                            previous_observed_at_ms: Some(now),
                            latency_sum_ms: latency_sum,
                            latency_samples,
                            maximum_quote_skew_ms: greater_of(
                                greater_of(
                                    figures.maximum_quote_skew_ms,
                                    at_least_zero(row.direction_a_quote_skew_ms),
                                ),
                                at_least_zero(row.direction_b_quote_skew_ms),
                            ),
                        },
                    )
                }
            },
        },
    }
}

/// What the observations say about a market. `None` on overflow.
pub open spec fn figures_of(rows: Seq<RankingRow>, slug: Seq<char>) -> Option<RankingFigures>
    decreases rows.len(),
{
    if rows.len() == 0 {
        Some(no_figures())
    } else {
        match figures_of(rows.drop_last(), slug) {
            None => None,
            Some(figures) => if rows.last().slug@ == slug {
                count_row(figures, rows.last())
            } else {
                Some(figures)
            },
        }
    }
}

pub open spec fn has_slug(rows: Seq<RankingRow>, slug: Seq<char>) -> bool {
    exists|k: int| 0 <= k < rows.len() && (#[trigger] rows[k]).slug@ == slug
}

/// The first observation of every market, in the order in which the markets appear.
pub open spec fn heads(rows: Seq<RankingRow>) -> Seq<RankingRow>
    decreases rows.len(),
{
    if rows.len() == 0 {
        Seq::empty()
    } else {
        let earlier = heads(rows.drop_last());
        if has_slug(earlier, rows.last().slug@) {
            earlier
        } else {
            earlier.push(rows.last())
        }
    }
}

/// One market's line in the rankings.
pub struct RankingLine {
    pub head: RankingRow,
    pub figures: RankingFigures,
    pub signal_rate: DecimalView,
    pub average_positive_edge: DecimalView,
}

/// `total` over `count`, and zero where nothing was counted. `None` on overflow.
pub open spec fn per_count(total: DecimalView, count: int) -> Option<DecimalView> {
    if count == 0 {
        Some(zero())
    } else {
        quotient(total, whole(count))
    }
}

/// The line of one market. `None` on overflow.
pub open spec fn line_of(rows: Seq<RankingRow>, head: RankingRow) -> Option<RankingLine> {
    match figures_of(rows, head.slug@) {
        None => None,
        Some(figures) => match (
            per_count(whole(figures.edges.signals), figures.edges.evaluated_directions),
            per_count(figures.edges.positive_edge_sum, figures.edges.signals),
        ) {
            (Some(signal_rate), Some(average_positive_edge)) => Some(
                RankingLine { head, figures, signal_rate, average_positive_edge },
            ),
            _ => None,
        },
    }
}

/// Lines ordered by average edge, with one more line behind those that are not below it.
pub open spec fn with_line(lines: Seq<RankingLine>, line: RankingLine) -> Seq<RankingLine>
    decreases lines.len(),
{
    if lines.len() == 0 || line.average_positive_edge.le(lines.last().average_positive_edge) {
        lines.push(line)
    } else {
        with_line(lines.drop_last(), line).push(lines.last())
    }
}

/// The lines of the first `count` markets, the highest average edge first; markets with the
/// same average keep their order.
pub open spec fn ranked_lines(rows: Seq<RankingRow>, count: int) -> Option<Seq<RankingLine>>
    decreases count,
{
    if count <= 0 {
        Some(Seq::empty())
    } else {
        match (ranked_lines(rows, count - 1), line_of(rows, heads(rows)[count - 1])) {
            (Some(lines), Some(line)) => Some(with_line(lines, line)),
            _ => None,
        }
    }
}

/// The rankings that observations give. `None` on overflow.
pub open spec fn rankings_of(rows: Seq<RankingRow>) -> Option<Seq<RankingLine>> {
    ranked_lines(rows, heads(rows).len() as int)
}

/// A view shows a line.
pub open spec fn shows_line(view: RankingView, line: RankingLine) -> bool {
    &&& view.slug@ == line.head.slug@
    &&& view.asset@ == line.head.asset@
    &&& view.duration@ == line.head.duration@
    &&& view.classification@ == line.head.classification@
    &&& view.samples == line.figures.samples
    &&& view.evaluated_directions == line.figures.edges.evaluated_directions
    &&& view.signals == line.figures.edges.signals
    &&& view.signal_rate@ == decimal_text(line.signal_rate)
    &&& view.maximum_net_edge@ == decimal_text(line.figures.edges.maximum_net_edge)
    &&& view.average_positive_edge@ == decimal_text(line.average_positive_edge)
    &&& view.maximum_executable_profit@ == decimal_text(
        line.figures.edges.maximum_executable_profit,
    )
    &&& view.longest_positive_run_ms == line.figures.edges.longest_positive_run_ms
    &&& match view.average_scan_latency_ms {
        Some(latency) => line.figures.latency_samples != 0 && latency
            == line.figures.latency_sum_ms / line.figures.latency_samples,
        None => line.figures.latency_samples == 0,
    }
    &&& match view.maximum_quote_skew_ms {
        Some(skew) => skew > 0 && skew == line.figures.maximum_quote_skew_ms,
        None => line.figures.maximum_quote_skew_ms <= 0,
    }
}

pub open spec fn shows_lines(views: Seq<RankingView>, lines: Seq<RankingLine>) -> bool {
    &&& views.len() == lines.len()
    &&& forall|k: int| 0 <= k < views.len() ==> shows_line(#[trigger] views[k], lines[k])
}

#[derive(Clone, Copy)]
struct EdgeTally {
    evaluated_directions: u64,
    signals: u64,
    maximum_net_edge: Decimal,
    positive_edge_sum: Decimal,
    maximum_executable_profit: Decimal,
    longest_positive_run_ms: i64,
}

#[derive(Clone, Copy)]
struct RankingTally {
    edges: EdgeTally,
    samples: u64,
    active_a_since_ms: Option<i64>,
    active_b_since_ms: Option<i64>,
    previous_observed_at_ms: Option<i64>,
    latency_sum_ms: u64,
    latency_samples: u64,
    maximum_quote_skew_ms: i64,
}

spec fn moment_of(value: Option<i64>) -> Option<int> {
    match value {
        Some(value) => Some(value as int),
        None => None,
    }
}

impl View for EdgeTally {
    type V = EdgeFigures;

    closed spec fn view(&self) -> EdgeFigures {
        EdgeFigures {
            evaluated_directions: self.evaluated_directions as int,
            signals: self.signals as int,
            maximum_net_edge: self.maximum_net_edge@,
            positive_edge_sum: self.positive_edge_sum@,
            maximum_executable_profit: self.maximum_executable_profit@,
            longest_positive_run_ms: self.longest_positive_run_ms as int,
        }
    }
}

impl View for RankingTally {
    type V = RankingFigures;

    closed spec fn view(&self) -> RankingFigures {
        RankingFigures {
            edges: self.edges@,
            samples: self.samples as int,
            active_a_since_ms: moment_of(self.active_a_since_ms),
            active_b_since_ms: moment_of(self.active_b_since_ms),
            previous_observed_at_ms: moment_of(self.previous_observed_at_ms),
            latency_sum_ms: self.latency_sum_ms as int,
            latency_samples: self.latency_samples as int,
            maximum_quote_skew_ms: self.maximum_quote_skew_ms as int,
        }
    }
}

fn new_tally() -> (result: RankingTally)
    ensures
        result@ == no_figures(),
{
    RankingTally {
        edges: EdgeTally {
            evaluated_directions: 0,
            signals: 0,
            maximum_net_edge: Decimal::zero(),
            positive_edge_sum: Decimal::zero(),
            maximum_executable_profit: Decimal::zero(),
            longest_positive_run_ms: 0,
        },
        samples: 0,
        active_a_since_ms: None,
        active_b_since_ms: None,
        previous_observed_at_ms: None,
        latency_sum_ms: 0,
        latency_samples: 0,
        maximum_quote_skew_ms: 0,
    }
}

spec fn counted_edge(result: Option<(EdgeTally, Option<i64>)>) -> Option<
    (EdgeFigures, Option<int>),
> {
    match result {
        Some((tally, since)) => Some((tally@, moment_of(since))),
        None => None,
    }
}

fn tally_edge(
    tally: EdgeTally,
    since: Option<i64>,
    edge: &Option<String>,
    size: &Option<String>,
    observed_at_ms: i64,
) -> (result: Option<(EdgeTally, Option<i64>)>)
    ensures
        counted_edge(result) == count_edge(
            tally@,
            moment_of(since),
            text_of(*edge),
            text_of(*size),
            observed_at_ms as int,
        ),
{
    let text: &str = match edge {
        Some(text) => text.as_str(),
        None => "",
    };
    let edge = match Decimal::parse(text) {
        Some(edge) => edge,
        None => return Some((tally, None)),
    };
    let evaluated_directions: u64 = tally.evaluated_directions.checked_add(1)?;
    if !edge.is_positive() {
        return Some((EdgeTally { evaluated_directions, ..tally }, None));
    }
    let start: i64 = match since {
        Some(start) => start,
        None => observed_at_ms,
    };
    let positive_edge_sum = tally.positive_edge_sum.checked_add(edge)?;
    let maximum_executable_profit = match read_number(size) {
        Some(size) => tally.maximum_executable_profit.max(edge.checked_mul(size)?),
        None => tally.maximum_executable_profit,
    };
    let signals: u64 = tally.signals.checked_add(1)?;
    let run: i64 = minus_saturating(observed_at_ms, start);
    let longest_positive_run_ms: i64 = if tally.longest_positive_run_ms < run {
        run
    } else {
        tally.longest_positive_run_ms
    };
    Some(
        (
            EdgeTally {
                evaluated_directions,
                signals,
                maximum_net_edge: tally.maximum_net_edge.max(edge),
                positive_edge_sum,
                maximum_executable_profit,
                longest_positive_run_ms,
            },
            Some(start),
        ),
    )
}

fn larger_skew(skew: i64, other: Option<i64>) -> (result: i64)
    requires
        skew >= 0,
    ensures
        result == greater_of(skew as int, at_least_zero(other)),
{
    match other {
        Some(other) => if skew < other {
            other
        } else {
            skew
        },
        None => skew,
    }
}

spec fn counted_row(result: Option<RankingTally>) -> Option<RankingFigures> {
    match result {
        Some(tally) => Some(tally@),
        None => None,
    }
}

fn tally_row(tally: RankingTally, row: &RankingRow) -> (result: Option<RankingTally>)
    requires
        tally.maximum_quote_skew_ms >= 0,
    ensures
        counted_row(result) == count_row(tally@, *row),
        result matches Some(next) ==> next.maximum_quote_skew_ms >= 0,
{
    let now: i64 = row.observed_at_ms;
    let gap = match tally.previous_observed_at_ms {
        Some(previous) => minus_saturating(now, previous) > MAX_RUN_GAP_MS,
        None => false,
    };
    let since_a = if gap {
        None
    } else {
        tally.active_a_since_ms
    };
    let since_b = if gap {
        None
    } else {
        tally.active_b_since_ms
    };
    let (edges, active_a_since_ms) = tally_edge(
        tally.edges,
        since_a,
        &row.direction_a_net_edge,
        &row.direction_a_size,
        now,
    )?;
    let (edges, active_b_since_ms) = tally_edge(
        edges,
        since_b,
        &row.direction_b_net_edge,
        &row.direction_b_size,
        now,
    )?;
    let samples: u64 = tally.samples.checked_add(1)?;
    let latency_sum_ms: u64 = match row.scan_latency_ms {
        Some(latency) => if latency > 0 {
            tally.latency_sum_ms.checked_add(latency as u64)?
        } else {
            tally.latency_sum_ms
        },
        None => tally.latency_sum_ms,
    };
    let latency_samples: u64 = match row.scan_latency_ms {
        Some(_) => tally.latency_samples.checked_add(1)?,
        None => tally.latency_samples,
    };
    Some(
        RankingTally {
            edges,
            samples,
            active_a_since_ms,
            active_b_since_ms,
            previous_observed_at_ms: Some(now),
            latency_sum_ms,
            latency_samples,
            maximum_quote_skew_ms: larger_skew(
                larger_skew(tally.maximum_quote_skew_ms, row.direction_a_quote_skew_ms),
                row.direction_b_quote_skew_ms,
            ),
        },
    )
}

proof fn lemma_absent(rows: Seq<RankingRow>, slug: Seq<char>)
    requires
        !has_slug(heads(rows), slug),
    ensures
        figures_of(rows, slug) == Some(no_figures()),
    decreases rows.len(),
{
    if rows.len() > 0 {
        let earlier = heads(rows.drop_last());
        if has_slug(earlier, slug) {
            let k = choose|k: int| 0 <= k < earlier.len() && (#[trigger] earlier[k]).slug@ == slug;
            assert(heads(rows)[k] == earlier[k]);
        }
        if rows.last().slug@ == slug {
            if !has_slug(earlier, slug) {
                assert(heads(rows)[earlier.len() as int] == rows.last());
            }
        }
        lemma_absent(rows.drop_last(), slug);
    }
}

/// Every market stands at the head of its observations once.
pub proof fn heads_are_distinct(rows: Seq<RankingRow>)
    ensures
        forall|i: int, j: int|
            0 <= i < j < heads(rows).len() ==> (#[trigger] heads(rows)[i]).slug@
                != (#[trigger] heads(rows)[j]).slug@,
        forall|i: int|
            0 <= i < rows.len() ==> has_slug(heads(rows), (#[trigger] rows[i]).slug@),
    decreases rows.len(),
{
    if rows.len() > 0 {
        let rest = rows.drop_last();
        let earlier = heads(rest);
        heads_are_distinct(rest);
        assert forall|i: int| 0 <= i < rows.len() implies has_slug(
            heads(rows),
            (#[trigger] rows[i]).slug@,
        ) by {
            if i < rest.len() {
                assert(rows[i] == rest[i]);
                assert(has_slug(earlier, rest[i].slug@));
                let k = choose|k: int|
                    0 <= k < earlier.len() && (#[trigger] earlier[k]).slug@ == rest[i].slug@;
                assert(heads(rows)[k] == earlier[k]);
            } else if !has_slug(earlier, rows.last().slug@) {
                assert(heads(rows)[earlier.len() as int] == rows.last());
            }
        }
    }
}

proof fn lemma_overflow_stays(rows: Seq<RankingRow>, count: int, slug: Seq<char>)
    requires
        0 <= count <= rows.len(),
        figures_of(rows.take(count), slug) is None,
    ensures
        figures_of(rows, slug) is None,
    decreases rows.len(),
{
    if count == rows.len() {
        assert(rows.take(count) =~= rows);
    } else {
        assert(rows.drop_last().take(count) =~= rows.take(count));
        lemma_overflow_stays(rows.drop_last(), count, slug);
    }
}

proof fn lemma_missing_line(rows: Seq<RankingRow>, count: int, k: int)
    requires
        0 <= k < count,
        line_of(rows, heads(rows)[k]) is None,
    ensures
        ranked_lines(rows, count) is None,
    decreases count,
{
    if k < count - 1 {
        lemma_missing_line(rows, count - 1, k);
    }
}

/// The tallies of the first `count` observations, one for every market among them.
spec fn groups_match(
    rows: Seq<RankingRow>,
    groups: Seq<(usize, RankingTally)>,
    count: int,
) -> bool {
    let seen = rows.take(count);
    &&& groups.len() == heads(seen).len()
    &&& forall|k: int|
        0 <= k < groups.len() ==> {
            &&& (#[trigger] groups[k]).0 < rows.len()
            &&& rows[groups[k].0 as int] == heads(seen)[k]
            &&& figures_of(seen, heads(seen)[k].slug@) == Some(groups[k].1@)
            &&& groups[k].1.maximum_quote_skew_ms >= 0
        }
}

fn find_group(rows: &Vec<RankingRow>, groups: &Vec<(usize, RankingTally)>, slug: &str) -> (result:
    Option<usize>)
    requires
        forall|k: int| 0 <= k < groups.len() ==> (#[trigger] groups[k]).0 < rows.len(),
    ensures
        match result {
            Some(k) => k < groups.len() && rows[groups[k as int].0 as int].slug@ == slug@,
            None => forall|k: int|
                0 <= k < groups.len() ==> rows[(#[trigger] groups[k]).0 as int].slug@ != slug@,
        },
{
    let mut k: usize = 0;
    while k < groups.len()
        invariant
            k <= groups.len(),
            forall|j: int| 0 <= j < groups.len() ==> (#[trigger] groups[j]).0 < rows.len(),
            forall|j: int| 0 <= j < k ==> rows[(#[trigger] groups[j]).0 as int].slug@ != slug@,
        decreases groups.len() - k,
    {
        if same(rows[groups[k].0].slug.as_str(), slug) {
            return Some(k);
        }
        k = k + 1;
    }
    None
}

fn tally_rows(rows: &Vec<RankingRow>) -> (result: Option<Vec<(usize, RankingTally)>>)
    ensures
        match result {
            Some(groups) => groups_match(rows@, groups@, rows@.len() as int),
            None => rankings_of(rows@) is None,
        },
{
    let mut groups: Vec<(usize, RankingTally)> = Vec::new();
    let mut i: usize = 0;
    while i < rows.len()
        invariant
            i <= rows.len(),
            groups_match(rows@, groups@, i as int),
        decreases rows.len() - i,
    {
        let row = &rows[i];
        let ghost seen = rows@.take(i as int);
        let ghost now = rows@.take(i + 1);
        let ghost slug = row.slug@;
        let ghost before = groups@;
        proof {
            assert(now.drop_last() =~= seen);
            assert(now.last() == *row);
            heads_are_distinct(seen);
            heads_are_distinct(now);
            heads_are_distinct(rows@);
        }
        let place = find_group(rows, &groups, row.slug.as_str());
        let tally = match place {
            Some(k) => groups[k].1,
            None => new_tally(),
        };
        proof {
            match place {
                Some(k) => {
                    assert(heads(seen)[k as int].slug@ == slug);
                    assert(has_slug(heads(seen), slug));
                },
                None => {
                    if has_slug(heads(seen), slug) {
                        let k = choose|k: int|
                            0 <= k < heads(seen).len() && (#[trigger] heads(seen)[k]).slug@ == slug;
                        assert(rows@[groups[k].0 as int] == heads(seen)[k]);
                    }
                    lemma_absent(seen, slug);
                },
            }
            assert(figures_of(seen, slug) == Some(tally@));
            assert(figures_of(now, slug) == count_row(tally@, *row));
        }
        let next = match tally_row(tally, row) {
            Some(next) => next,
            None => {
                proof {
                    lemma_overflow_stays(rows@, i + 1, slug);
                    assert(has_slug(heads(rows@), rows@[i as int].slug@));
                    let k = choose|k: int|
                        0 <= k < heads(rows@).len() && (#[trigger] heads(rows@)[k]).slug@ == slug;
                    lemma_missing_line(rows@, heads(rows@).len() as int, k);
                }
                return None;
            },
        };
        match place {
            Some(k) => {
                let first: usize = groups[k].0;
                groups.set(k, (first, next));
                proof {
                    assert(heads(now) == heads(seen));
                    assert forall|j: int| 0 <= j < groups.len() implies {
                        &&& (#[trigger] groups[j]).0 < rows.len()
                        &&& rows@[groups[j].0 as int] == heads(now)[j]
                        &&& figures_of(now, heads(now)[j].slug@) == Some(groups[j].1@)
                        &&& groups[j].1.maximum_quote_skew_ms >= 0
                    } by {
                        if j != k {
                            assert(groups[j] == before[j]);
                            assert(heads(seen)[j].slug@ != heads(seen)[k as int].slug@);
                        }
                    }
                }
            },
            None => {
                groups.push((i, next));
                proof {
                    assert(heads(now) == heads(seen).push(*row));
                    assert forall|j: int| 0 <= j < groups.len() implies {
                        &&& (#[trigger] groups[j]).0 < rows.len()
                        &&& rows@[groups[j].0 as int] == heads(now)[j]
                        &&& figures_of(now, heads(now)[j].slug@) == Some(groups[j].1@)
                        &&& groups[j].1.maximum_quote_skew_ms >= 0
                    } by {
                        if j < before.len() {
                            assert(groups[j] == before[j]);
                            assert(rows@[before[j].0 as int].slug@ != slug);
                        }
                    }
                }
            },
        }
        i = i + 1;
    }
    Some(groups)
}

/// `total` over `count`, and zero where nothing was counted. `None` on overflow.
pub fn share_of(total: Decimal, count: u64) -> (result: Option<Decimal>)
    ensures
        view_of(result) == per_count(total@, count as int),
{
    if count == 0 {
        Some(Decimal::zero())
    } else {
        total.checked_div(Decimal::from_u64(count))
    }
}

fn view_line(head: &RankingRow, tally: &RankingTally, Ghost(rows): Ghost<Seq<RankingRow>>) -> (result:
    Option<(Decimal, RankingView)>)
    requires
        figures_of(rows, head.slug@) == Some(tally@),
        tally.maximum_quote_skew_ms >= 0,
    ensures
        match line_of(rows, *head) {
            None => result is None,
            Some(line) => result matches Some((key, view)) && key@ == line.average_positive_edge
                && shows_line(view, line),
        },
{
    let edges = tally.edges;
    let signal_rate = share_of(Decimal::from_u64(edges.signals), edges.evaluated_directions)?;
    let average = share_of(edges.positive_edge_sum, edges.signals)?;
    let average_scan_latency_ms: Option<u64> = if tally.latency_samples == 0 {
        None
    } else {
        Some(tally.latency_sum_ms / tally.latency_samples)
    };
    let maximum_quote_skew_ms: Option<i64> = if tally.maximum_quote_skew_ms > 0 {
        Some(tally.maximum_quote_skew_ms)
    } else {
        None
    };
    Some(
        (
            average,
            RankingView {
                slug: head.slug.clone(),
                asset: head.asset.clone(),
                duration: head.duration.clone(),
                classification: head.classification.clone(),
                samples: tally.samples,
                evaluated_directions: edges.evaluated_directions,
                signals: edges.signals,
                signal_rate: signal_rate.text(),
                maximum_net_edge: edges.maximum_net_edge.text(),
                average_positive_edge: average.text(),
                maximum_executable_profit: edges.maximum_executable_profit.text(),
                longest_positive_run_ms: edges.longest_positive_run_ms,
                average_scan_latency_ms,
                maximum_quote_skew_ms,
            },
        ),
    )
}

spec fn keyed_lines(
    keys: Seq<Decimal>,
    views: Seq<RankingView>,
    lines: Seq<RankingLine>,
) -> bool {
    &&& keys.len() == lines.len()
    &&& shows_lines(views, lines)
    &&& forall|k: int|
        0 <= k < keys.len() ==> (#[trigger] keys[k])@ == lines[k].average_positive_edge
}

proof fn lemma_with_line(lines: Seq<RankingLine>, line: RankingLine, place: int)
    requires
        0 <= place <= lines.len(),
        place > 0 ==> line.average_positive_edge.le(lines[place - 1].average_positive_edge),
        forall|k: int|
            place <= k < lines.len() ==> !line.average_positive_edge.le(
                (#[trigger] lines[k]).average_positive_edge,
            ),
    ensures
        with_line(lines, line) == lines.insert(place, line),
    decreases lines.len(),
{
    if place == lines.len() {
        assert(lines.insert(place, line) =~= lines.push(line));
    } else {
        let rest = lines.drop_last();
        lemma_with_line(rest, line, place);
        assert(rest.insert(place, line).push(lines.last()) =~= lines.insert(place, line));
    }
}

fn place_line(
    keys: &mut Vec<Decimal>,
    views: &mut Vec<RankingView>,
    key: Decimal,
    view: RankingView,
    Ghost(lines): Ghost<Seq<RankingLine>>,
    Ghost(line): Ghost<RankingLine>,
)
    requires
        keyed_lines(old(keys)@, old(views)@, lines),
        key@ == line.average_positive_edge,
        shows_line(view, line),
    ensures
        keyed_lines(final(keys)@, final(views)@, with_line(lines, line)),
{
    let mut place: usize = keys.len();
    while place > 0 && keys[place - 1].less(&key)
        invariant
            place <= keys.len(),
            keys@ == old(keys)@,
            views@ == old(views)@,
            keyed_lines(keys@, views@, lines),
            key@ == line.average_positive_edge,
            forall|k: int|
                place <= k < lines.len() ==> !line.average_positive_edge.le(
                    (#[trigger] lines[k]).average_positive_edge,
                ),
        decreases place,
    {
        place = place - 1;
        assert(keys@[place as int]@ == lines[place as int].average_positive_edge);
    }
    proof {
        if place > 0 {
            assert(keys@[place - 1]@ == lines[place - 1].average_positive_edge);
        }
        lemma_with_line(lines, line, place as int);
    }
    keys.insert(place, key);
    views.insert(place, view);
}

/// Ranks markets by what was observed on them, the highest average edge first. `None` on
/// overflow.
pub fn rankings(rows: &Vec<RankingRow>) -> (result: Option<Vec<RankingView>>)
    ensures
        match rankings_of(rows@) {
            None => result is None,
            Some(lines) => result is Some && shows_lines(result->0@, lines),
        },
{
    let groups = tally_rows(rows)?;
    proof {
        assert(rows@.take(rows@.len() as int) =~= rows@);
    }
    let mut keys: Vec<Decimal> = Vec::new();
    let mut views: Vec<RankingView> = Vec::new();
    let mut k: usize = 0;
    while k < groups.len()
        invariant
            k <= groups.len(),
            groups_match(rows@, groups@, rows@.len() as int),
            rows@.take(rows@.len() as int) == rows@,
            ranked_lines(rows@, k as int) is Some,
            keyed_lines(keys@, views@, ranked_lines(rows@, k as int)->0),
        decreases groups.len() - k,
    {
        let head = &rows[groups[k].0];
        let ghost lines = ranked_lines(rows@, k as int)->0;
        let ghost line = line_of(rows@, heads(rows@)[k as int]);
        let viewed = view_line(head, &groups[k].1, Ghost(rows@));
        let (key, view) = match viewed {
            Some(viewed) => viewed,
            None => {
                proof {
                    lemma_missing_line(rows@, heads(rows@).len() as int, k as int);
                }
                return None;
            },
        };
        place_line(&mut keys, &mut views, key, view, Ghost(lines), Ghost(line->0));
        k = k + 1;
    }
    Some(views)
}

pub open spec fn ranked(lines: Seq<RankingLine>) -> bool {
    forall|i: int, j: int|
        0 <= i < j < lines.len() ==> (#[trigger] lines[j]).average_positive_edge.le(
            (#[trigger] lines[i]).average_positive_edge,
        )
}

proof fn lemma_line_placed(lines: Seq<RankingLine>, line: RankingLine)
    requires
        ranked(lines),
    ensures
        ranked(with_line(lines, line)),
        with_line(lines, line).to_multiset() == lines.to_multiset().insert(line),
        with_line(lines, line).len() == lines.len() + 1,
        forall|k: int|
            0 <= k <= lines.len() ==> #[trigger] with_line(lines, line)[k] == line
                || lines.contains(with_line(lines, line)[k]),
    decreases lines.len(),
{
    broadcast use vstd::seq_lib::group_to_multiset_ensures;

    let placed = with_line(lines, line);
    if lines.len() == 0 || line.average_positive_edge.le(lines.last().average_positive_edge) {
        assert(placed == lines.push(line));
        assert forall|k: int| 0 <= k < lines.len() implies lines.contains(
            #[trigger] placed[k],
        ) by {
            assert(placed[k] == lines[k]);
        }
        assert forall|i: int, j: int| 0 <= i < j < placed.len() implies (
        #[trigger] placed[j]).average_positive_edge.le(
            (#[trigger] placed[i]).average_positive_edge,
        ) by {
            assert(placed[i] == lines[i]);
            if j < lines.len() {
                assert(placed[j] == lines[j]);
            } else if i < lines.len() - 1 {
                assert(lines[lines.len() - 1].average_positive_edge.le(
                    lines[i].average_positive_edge,
                ));
            }
        }
    } else {
        let rest = lines.drop_last();
        lemma_line_placed(rest, line);
        let inner = with_line(rest, line);
        assert(placed == inner.push(lines.last()));
        assert(lines =~= rest.push(lines.last()));
        assert(placed.to_multiset() =~= lines.to_multiset().insert(line));
        assert forall|k: int| 0 <= k <= lines.len() implies (#[trigger] placed[k] == line
            || lines.contains(placed[k])) by {
            if k < lines.len() {
                assert(placed[k] == inner[k]);
                if inner[k] != line {
                    let at = rest.index_of(inner[k]);
                    assert(lines[at] == inner[k]);
                }
            } else {
                assert(lines[lines.len() - 1] == placed[k]);
            }
        }
        assert forall|i: int, j: int| 0 <= i < j < placed.len() implies (
        #[trigger] placed[j]).average_positive_edge.le(
            (#[trigger] placed[i]).average_positive_edge,
        ) by {
            assert(placed[i] == inner[i]);
            if j < inner.len() {
                assert(placed[j] == inner[j]);
            } else if inner[i] != line {
                let at = rest.index_of(inner[i]);
                assert(lines[at] == inner[i]);
                assert(lines[lines.len() - 1].average_positive_edge.le(
                    lines[at].average_positive_edge,
                ));
            }
        }
    }
}

/// Rankings put the highest average edge first, and hold a line for every market that was
/// observed and no other.
pub proof fn rankings_are_ordered(rows: Seq<RankingRow>)
    requires
        rankings_of(rows) is Some,
    ensures
        ranked(rankings_of(rows)->0),
        rankings_of(rows)->0.len() == heads(rows).len(),
        rankings_of(rows)->0.to_multiset() == Seq::new(
            heads(rows).len(),
            |k: int| line_of(rows, heads(rows)[k])->0,
        ).to_multiset(),
{
    lemma_ranked(rows, heads(rows).len() as int);
}

proof fn lemma_ranked(rows: Seq<RankingRow>, count: int)
    requires
        0 <= count <= heads(rows).len(),
        ranked_lines(rows, count) is Some,
    ensures
        ranked(ranked_lines(rows, count)->0),
        ranked_lines(rows, count)->0.len() == count,
        ranked_lines(rows, count)->0.to_multiset() == Seq::new(
            count as nat,
            |k: int| line_of(rows, heads(rows)[k])->0,
        ).to_multiset(),
    decreases count,
{
    broadcast use vstd::seq_lib::group_to_multiset_ensures;

    let lines = |n: nat| Seq::new(n, |k: int| line_of(rows, heads(rows)[k])->0);
    if count > 0 {
        lemma_ranked(rows, count - 1);
        lemma_line_placed(
            ranked_lines(rows, count - 1)->0,
            line_of(rows, heads(rows)[count - 1])->0,
        );
        assert(lines(count as nat) =~= lines((count - 1) as nat).push(
            line_of(rows, heads(rows)[count - 1])->0,
        ));
    } else {
        assert(lines(0) =~= Seq::empty());
        assert(ranked_lines(rows, count)->0 =~= Seq::empty());
    }
}

/// How many observations are of a market.
pub open spec fn observations_of(rows: Seq<RankingRow>, slug: Seq<char>) -> int
    decreases rows.len(),
{
    if rows.len() == 0 {
        0
    } else {
        observations_of(rows.drop_last(), slug) + if rows.last().slug@ == slug {
            1int
        } else {
            0int
        }
    }
}

/// Every observation of a market is counted once, each holds at most two directions, and no
/// more signals are counted than directions were evaluated.
pub proof fn counts_are_consistent(rows: Seq<RankingRow>, slug: Seq<char>)
    requires
        figures_of(rows, slug) is Some,
    ensures
        figures_of(rows, slug)->0.samples == observations_of(rows, slug),
        0 <= figures_of(rows, slug)->0.edges.signals
            <= figures_of(rows, slug)->0.edges.evaluated_directions,
        figures_of(rows, slug)->0.edges.evaluated_directions <= 2 * figures_of(
            rows,
            slug,
        )->0.samples,
        figures_of(rows, slug)->0.edges.longest_positive_run_ms >= 0,
    decreases rows.len(),
{
    if rows.len() > 0 {
        counts_are_consistent(rows.drop_last(), slug);
    }
}

/// The dashboard's statistics reach back six hours.
pub proof fn statistics_reach_back_six_hours(now_ms: int)
    requires
        0 <= now_ms <= i64::MAX,
    ensures
        saturated_difference(now_ms, DASHBOARD_STATS_LOOKBACK_MS as int) == now_ms - 6 * 60 * 60
            * 1_000,
{
}

/// One more observation counts as an opportunity exactly where the edge of one of its directions
/// is above nothing.
pub proof fn one_more_opportunity(rows: Seq<EdgePair>, edges: EdgePair)
    ensures
        ({
            let first = number_of(text_of(edges.0));
            let second = number_of(text_of(edges.1));
            opportunities_in(rows.push(edges)) == opportunities_in(rows) + if (first is Some
                && first->0.units() > 0) || (second is Some && second->0.units() > 0) {
                1nat
            } else {
                0nat
            }
        }),
        opportunities_in(Seq::empty()) == 0,
{
    if let Some(edge) = number_of(text_of(edges.0)) {
        positive_units(edge);
    }
    if let Some(edge) = number_of(text_of(edges.1)) {
        positive_units(edge);
    }
    reveal(Seq::filter);
    assert(rows.push(edges).drop_last() =~= rows);
}

/// Lines of the same average keep the order of their markets: a line that is placed goes behind
/// every line that is not below it.
pub proof fn equal_averages_keep_their_order(lines: Seq<RankingLine>, line: RankingLine)
    requires
        ranked(lines),
    ensures
        exists|place: int|
            0 <= place <= lines.len() && with_line(lines, line) == #[trigger] lines.take(place)
                + seq![line] + lines.skip(place) && (forall|i: int|
                0 <= i < place ==> (#[trigger] lines[i]).average_positive_edge.units()
                    >= line.average_positive_edge.units()) && (forall|i: int|
                place <= i < lines.len() ==> (#[trigger] lines[i]).average_positive_edge.units()
                    < line.average_positive_edge.units()),
    decreases lines.len(),
{
    if lines.len() == 0 || line.average_positive_edge.le(lines.last().average_positive_edge) {
        let place = lines.len() as int;
        assert(lines.push(line) =~= lines.take(place) + seq![line] + lines.skip(place));
        assert forall|i: int| 0 <= i < place implies (
        #[trigger] lines[i]).average_positive_edge.units() >= line.average_positive_edge.units() by {
            if i < lines.len() - 1 {
                assert(lines[lines.len() - 1].average_positive_edge.le(
                    lines[i].average_positive_edge,
                ));
            }
        }
    } else {
        let rest = lines.drop_last();
        assert forall|i: int, j: int| 0 <= i < j < rest.len() implies (
        #[trigger] rest[j]).average_positive_edge.le((#[trigger] rest[i]).average_positive_edge) by {
            assert(rest[i] == lines[i] && rest[j] == lines[j]);
        }
        equal_averages_keep_their_order(rest, line);
        let place = choose|place: int|
            0 <= place <= rest.len() && with_line(rest, line) == #[trigger] rest.take(place)
                + seq![line] + rest.skip(place) && (forall|i: int|
                0 <= i < place ==> (#[trigger] rest[i]).average_positive_edge.units()
                    >= line.average_positive_edge.units()) && (forall|i: int|
                place <= i < rest.len() ==> (#[trigger] rest[i]).average_positive_edge.units()
                    < line.average_positive_edge.units());
        assert(lines.take(place) =~= rest.take(place));
        assert(lines.skip(place) =~= rest.skip(place).push(lines.last()));
        assert(with_line(lines, line) =~= lines.take(place) + seq![line] + lines.skip(place));
        assert forall|i: int| 0 <= i < place implies (
        #[trigger] lines[i]).average_positive_edge.units() >= line.average_positive_edge.units() by {
            assert(lines[i] == rest[i]);
        }
        assert forall|i: int| place <= i < lines.len() implies (
        #[trigger] lines[i]).average_positive_edge.units() < line.average_positive_edge.units() by {
            if i < rest.len() {
                assert(lines[i] == rest[i]);
            }
        }
    }
}

} // verus!
