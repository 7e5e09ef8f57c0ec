//! What one more observation adds to the statistics, and what their averages are averages of.
use vstd::prelude::*;

use crate::decimal::{
    decimal_text, parsed_decimal, positive_units, product, product_miss, quotient_miss,
    quotients_are_close, sum, sum_miss, whole, whole_units, within_rounding, zero, zero_units,
    DecimalView,
};
use crate::figures::{close, fine};
use crate::quotes::number_of;
use crate::rankings::{
    count_edge, figures_of, line_of, per_count, shows_line, EdgeFigures, RankingFigures,
    RankingLine, RankingRow, RankingView,
};
use crate::rules::held;
use crate::same_market::{
    sample_line, samples_of, shows_sample_line, BinanceInternalStatsView, SameMarketRow,
    SampleFigures, SampleLine,
};
use crate::text::text_of;

verus! {

/// The number that an edge stands for, where it is one.
pub open spec fn edge_of(edge: Option<String>) -> Option<DecimalView> {
    match edge {
        Some(text) => parsed_decimal(text@),
        None => parsed_decimal(""@),
    }
}

/// An edge that is known and above nothing.
pub open spec fn is_signal(edge: Option<String>) -> bool {
    edge_of(edge) matches Some(edge) && edge.units() > 0
}

/// What the edge of one direction adds to the figures.
pub open spec fn edge_counted(
    before: EdgeFigures,
    after: EdgeFigures,
    since: Option<int>,
    since_after: Option<int>,
    edge: Option<String>,
    size: Option<String>,
    now: int,
) -> bool {
    &&& after.evaluated_directions == before.evaluated_directions + held(edge_of(edge) is Some)
    &&& after.signals == before.signals + held(is_signal(edge))
    &&& !is_signal(edge) ==> {
        &&& after.maximum_net_edge == before.maximum_net_edge
        &&& after.positive_edge_sum == before.positive_edge_sum
        &&& after.maximum_executable_profit == before.maximum_executable_profit
        &&& after.longest_positive_run_ms == before.longest_positive_run_ms
        &&& since_after is None
    }
    &&& is_signal(edge) ==> ({
        let gained = edge_of(edge)->0;
        &&& after.maximum_net_edge.units() >= before.maximum_net_edge.units()
        &&& after.maximum_net_edge.units() >= gained.units()
        &&& after.maximum_net_edge == before.maximum_net_edge || after.maximum_net_edge == gained
        &&& close(
            after.positive_edge_sum.units(),
            before.positive_edge_sum.units() + gained.units(),
            sum_miss(before.positive_edge_sum, gained),
        )
        &&& match number_of(text_of(size)) {
            None => after.maximum_executable_profit == before.maximum_executable_profit,
            Some(size) => {
                let profit = product(gained, size);
                &&& profit is Some
                &&& close(
                    fine(profit->0),
                    gained.units() * size.units(),
                    product_miss(gained, size),
                )
                &&& after.maximum_executable_profit.units()
                    >= before.maximum_executable_profit.units()
                &&& after.maximum_executable_profit.units() >= profit->0.units()
                &&& after.maximum_executable_profit == before.maximum_executable_profit
                    || after.maximum_executable_profit == profit->0
            },
        }
        &&& since_after == (match since {
            Some(start) => Some(start),
            None => Some(now),
        })
        &&& i64::MIN <= now - since_after->0 <= i64::MAX ==> {
            &&& after.longest_positive_run_ms >= before.longest_positive_run_ms
            &&& after.longest_positive_run_ms >= now - since_after->0
            &&& after.longest_positive_run_ms == before.longest_positive_run_ms
                || after.longest_positive_run_ms == now - since_after->0
        }
    })
}

proof fn lemma_edge(
    before: EdgeFigures,
    since: Option<int>,
    edge: Option<String>,
    size: Option<String>,
    now: int,
)
    requires
        count_edge(before, since, text_of(edge), text_of(size), now) is Some,
    ensures
        ({
            let (after, since_after) = count_edge(
                before,
                since,
                text_of(edge),
                text_of(size),
                now,
            )->0;
            edge_counted(before, after, since, since_after, edge, size, now)
        }),
{
    if let Some(gained) = edge_of(edge) {
        positive_units(gained);
    }
}

/// A run of positive edges goes on where the observation before it is at most five seconds ago.
pub open spec fn goes_on(before: RankingFigures, since: Option<int>, now: int) -> Option<int> {
    if before.previous_observed_at_ms matches Some(previous) && now - previous > 5_000 {
        None
    } else {
        since
    }
}

/// A time that is known and above nothing.
pub open spec fn above_nothing(time: Option<i64>) -> int {
    match time {
        Some(time) => if time > 0 {
            time as int
        } else {
            0
        },
        None => 0,
    }
}

/// Without an observation nothing is counted, and one more observation counts for its own market
/// only: one sample, each direction whose edge is known, each edge above nothing as a signal,
/// and the latency and skews that are known.
pub proof fn one_more_observation(rows: Seq<RankingRow>, row: RankingRow, slug: Seq<char>)
    requires
        figures_of(rows, slug) is Some,
        figures_of(rows.push(row), slug) is Some,
        figures_of(rows, slug)->0.previous_observed_at_ms matches Some(previous) ==> i64::MIN
            <= row.observed_at_ms - previous <= i64::MAX,
    ensures
        ({
            let before = figures_of(rows, slug)->0;
            let after = figures_of(rows.push(row), slug)->0;
            let now = row.observed_at_ms as int;
            &&& row.slug@ != slug ==> after == before
            &&& row.slug@ == slug ==> {
                &&& after.samples == before.samples + 1
                &&& after.previous_observed_at_ms == Some(now)
                &&& exists|between: EdgeFigures| #[trigger]
                    edge_counted(
                        before.edges,
                        between,
                        goes_on(before, before.active_a_since_ms, now),
                        after.active_a_since_ms,
                        row.direction_a_net_edge,
                        row.direction_a_size,
                        now,
                    ) && edge_counted(
                        between,
                        after.edges,
                        goes_on(before, before.active_b_since_ms, now),
                        after.active_b_since_ms,
                        row.direction_b_net_edge,
                        row.direction_b_size,
                        now,
                    )
                &&& after.latency_sum_ms == before.latency_sum_ms + above_nothing(
                    row.scan_latency_ms,
                )
                &&& after.latency_samples == before.latency_samples + held(
                    row.scan_latency_ms is Some,
                )
                &&& after.maximum_quote_skew_ms >= before.maximum_quote_skew_ms
                &&& after.maximum_quote_skew_ms >= above_nothing(row.direction_a_quote_skew_ms)
                &&& after.maximum_quote_skew_ms >= above_nothing(row.direction_b_quote_skew_ms)
                &&& after.maximum_quote_skew_ms == before.maximum_quote_skew_ms
                    || after.maximum_quote_skew_ms == above_nothing(
                    row.direction_a_quote_skew_ms,
                ) || after.maximum_quote_skew_ms == above_nothing(row.direction_b_quote_skew_ms)
            }
        }),
{
    assert(rows.push(row).drop_last() =~= rows);
    let before = figures_of(rows, slug)->0;
    let now = row.observed_at_ms as int;
    if row.slug@ == slug {
        let since_a = goes_on(before, before.active_a_since_ms, now);
        let since_b = goes_on(before, before.active_b_since_ms, now);
        lemma_edge(
            before.edges,
            since_a,
            row.direction_a_net_edge,
            row.direction_a_size,
            now,
        );
        let (between, active_a) = count_edge(
            before.edges,
            since_a,
            text_of(row.direction_a_net_edge),
            text_of(row.direction_a_size),
            now,
        )->0;
        lemma_edge(between, since_b, row.direction_b_net_edge, row.direction_b_size, now);
    }
}

/// Before the first observation of a market nothing is counted of it.
pub proof fn nothing_is_counted_at_first(slug: Seq<char>)
    ensures
        figures_of(Seq::empty(), slug) matches Some(figures) && {
            &&& figures.samples == 0
            &&& figures.edges.signals == 0
            &&& figures.edges.evaluated_directions == 0
            &&& figures.edges.maximum_net_edge.units() == 0
            &&& figures.edges.positive_edge_sum.units() == 0
            &&& figures.edges.maximum_executable_profit.units() == 0
            &&& figures.edges.longest_positive_run_ms == 0
            &&& figures.latency_sum_ms == 0
            &&& figures.latency_samples == 0
            &&& figures.maximum_quote_skew_ms == 0
            &&& figures.active_a_since_ms is None
            &&& figures.active_b_since_ms is None
            &&& figures.previous_observed_at_ms is None
        },
{
    zero_units();
}

/// An average times its count is the total, up to the rounding of the quotient; of nothing it is
/// nothing.
pub open spec fn is_average(average: DecimalView, total: DecimalView, count: int) -> bool {
    &&& count == 0 ==> average.units() == 0
    &&& count != 0 ==> close(
        count * fine(average),
        fine(total),
        quotient_miss(total, whole(count)),
    ) && within_rounding(quotient_miss(total, whole(count)), whole(count), average)
}

proof fn lemma_average(total: DecimalView, count: int, average: DecimalView)
    requires
        per_count(total, count) == Some(average),
    ensures
        is_average(average, total, count),
{
    zero_units();
    if count != 0 {
        quotients_are_close(total, whole(count), average);
        whole_units(count);
        let (x, k) = (average.units(), whole(1).units());
        assert(x * (count * k) == count * (x * k)) by (nonlinear_arith);
    }
}

/// The line of a market shows its first observation's names, the signals over the evaluated
/// directions, the positive edges over the signals, and the whole milliseconds that a scan took
/// on average.
pub proof fn ranking_lines_average(
    rows: Seq<RankingRow>,
    head: RankingRow,
    line: RankingLine,
    view: RankingView,
)
    requires
        line_of(rows, head) == Some(line),
        shows_line(view, line),
    ensures
        figures_of(rows, head.slug@) == Some(line.figures),
        is_average(
            line.signal_rate,
            whole(line.figures.edges.signals),
            line.figures.edges.evaluated_directions,
        ),
        is_average(
            line.average_positive_edge,
            line.figures.edges.positive_edge_sum,
            line.figures.edges.signals,
        ),
        view.slug@ == head.slug@,
        view.asset@ == head.asset@,
        view.duration@ == head.duration@,
        view.samples == line.figures.samples,
        view.signals == line.figures.edges.signals,
        view.evaluated_directions == line.figures.edges.evaluated_directions,
        view.signal_rate@ == decimal_text(line.signal_rate),
        view.average_positive_edge@ == decimal_text(line.average_positive_edge),
        view.average_scan_latency_ms is Some <==> line.figures.latency_samples != 0,
        line.figures.latency_samples > 0 ==> view.average_scan_latency_ms->0
            * line.figures.latency_samples <= line.figures.latency_sum_ms < (
        view.average_scan_latency_ms->0 + 1) * line.figures.latency_samples,
        view.maximum_quote_skew_ms is Some <==> line.figures.maximum_quote_skew_ms > 0,
        view.maximum_quote_skew_ms is Some ==> view.maximum_quote_skew_ms->0
            == line.figures.maximum_quote_skew_ms,
        view.classification@ == head.classification@,
        view.maximum_net_edge@ == decimal_text(line.figures.edges.maximum_net_edge),
        view.maximum_executable_profit@ == decimal_text(
            line.figures.edges.maximum_executable_profit,
        ),
        view.longest_positive_run_ms == line.figures.edges.longest_positive_run_ms,
{
    lemma_average(
        whole(line.figures.edges.signals),
        line.figures.edges.evaluated_directions,
        line.signal_rate,
    );
    lemma_average(
        line.figures.edges.positive_edge_sum,
        line.figures.edges.signals,
        line.average_positive_edge,
    );
    if let Some(latency) = view.average_scan_latency_ms {
        let (l, n, s) = (
            latency as int,
            line.figures.latency_samples,
            line.figures.latency_sum_ms,
        );
        if n > 0 {
            assert(l * n <= s < (l + 1) * n) by (nonlinear_arith)
                requires
                    l == s / n,
                    n > 0,
            ;
        }
    }
}

/// The two asks of a row are known and together cost less than one, up to the rounding of their
/// sum.
pub open spec fn costs_below_one(row: SameMarketRow) -> bool {
    &&& number_of(text_of(row.up_ask)) is Some
    &&& number_of(text_of(row.down_ask)) is Some
    &&& sum(number_of(text_of(row.up_ask))->0, number_of(text_of(row.down_ask))->0)->0.units()
        < whole(1).units()
}

/// A row can be counted: its edge is a number.
pub open spec fn counts(row: SameMarketRow) -> bool {
    parsed_decimal(row.value.net_edge@) is Some
}

/// One more observation counts for its own asset and duration only, and only where its edge is a
/// number: one sample, its market as a window, whether the asks cost less than one, whether the
/// edge is above nothing and whether nothing speaks against it. It is confirmed where the market
/// has been free of objections for five seconds, without a pause of more than fifteen.
pub proof fn one_more_sample(
    rows: Seq<SameMarketRow>,
    row: SameMarketRow,
    group: (Seq<char>, Seq<char>),
)
    requires
        samples_of(rows, group) is Some,
        samples_of(rows.push(row), group) is Some,
        samples_of(rows, group)->0.active.contains_key(row.slug@) ==> i64::MIN
            <= row.observed_at_ms - samples_of(rows, group)->0.active[row.slug@].1 <= i64::MAX
            && i64::MIN <= row.observed_at_ms - samples_of(rows, group)->0.active[row.slug@].0
            <= i64::MAX,
    ensures
        ({
            let before = samples_of(rows, group)->0;
            let after = samples_of(rows.push(row), group)->0;
            let counted = counts(row) && row.asset@ == group.0 && row.duration@ == group.1;
            let edge = parsed_decimal(row.value.net_edge@)->0;
            let now = row.observed_at_ms;
            let free = row.value.rejections@.len() == 0;
            let continued = before.active.contains_key(row.slug@) && now
                - before.active[row.slug@].1 <= 15_000;
            let since = if continued {
                before.active[row.slug@].0
            } else {
                now
            };
            &&& !counted ==> after == before
            &&& counted ==> {
                &&& after.samples == before.samples + 1
                &&& after.windows == before.windows.insert(row.slug@)
                &&& after.raw_below_one_samples == before.raw_below_one_samples + held(
                    costs_below_one(row),
                )
                &&& after.positive_net_samples == before.positive_net_samples + held(
                    edge.units() > 0,
                )
                &&& after.eligible_samples == before.eligible_samples + held(free)
                &&& after.confirmed_samples == before.confirmed_samples + held(
                    free && now - since >= 5_000,
                )
                &&& free ==> after.active == before.active.insert(row.slug@, (since, now))
                &&& !free ==> after.active == before.active.remove(row.slug@)
                &&& after.latest_observed_at_ms == if now > before.latest_observed_at_ms {
                    now as int
                } else {
                    before.latest_observed_at_ms
                }
                &&& after.maximum_quote_skew_ms == if row.value.quote_skew_ms
                    > before.maximum_quote_skew_ms {
                    row.value.quote_skew_ms as int
                } else {
                    before.maximum_quote_skew_ms
                }
                &&& edge.units() <= 0 ==> {
                    &&& after.positive_edge_sum == before.positive_edge_sum
                    &&& after.maximum_net_edge == before.maximum_net_edge
                    &&& after.maximum_theoretical_profit == before.maximum_theoretical_profit
                }
                &&& edge.units() > 0 ==> edge_sampled(before, after, row, edge)
            }
        }),
{
    assert(rows.push(row).drop_last() =~= rows);
    if let Some(edge) = parsed_decimal(row.value.net_edge@) {
        positive_units(edge);
    }
}

/// What a positive edge adds: to the sum of the edges, to the largest of them, and with the size
/// to the largest profit, where a size that is no number counts as none.
pub open spec fn edge_sampled(
    before: SampleFigures,
    after: SampleFigures,
    row: SameMarketRow,
    edge: DecimalView,
) -> bool {
    let size = match parsed_decimal(row.value.size@) {
        Some(size) => size,
        None => zero(),
    };
    let profit = product(edge, size);
    &&& profit is Some
    &&& close(fine(profit->0), edge.units() * size.units(), product_miss(edge, size))
    &&& close(
        after.positive_edge_sum.units(),
        before.positive_edge_sum.units() + edge.units(),
        sum_miss(before.positive_edge_sum, edge),
    )
    &&& after.maximum_net_edge.units() >= before.maximum_net_edge.units()
    &&& after.maximum_net_edge.units() >= edge.units()
    &&& after.maximum_net_edge == before.maximum_net_edge || after.maximum_net_edge == edge
    &&& after.maximum_theoretical_profit.units() >= before.maximum_theoretical_profit.units()
    &&& after.maximum_theoretical_profit.units() >= profit->0.units()
    &&& after.maximum_theoretical_profit == before.maximum_theoretical_profit
        || after.maximum_theoretical_profit == profit->0
}

/// The line of an asset and duration averages the positive edges over the samples that have one.
pub proof fn sample_lines_average(
    rows: Seq<SameMarketRow>,
    head: SameMarketRow,
    line: SampleLine,
)
    requires
        sample_line(rows, head) == Some(line),
    ensures
        samples_of(rows, (head.asset@, head.duration@)) == Some(line.figures),
        is_average(
            line.average_positive_edge,
            line.figures.positive_edge_sum,
            line.figures.positive_net_samples,
        ),
{
    lemma_average(
        line.figures.positive_edge_sum,
        line.figures.positive_net_samples,
        line.average_positive_edge,
    );
}

/// The line of an asset and duration shows the figures of its samples, each under its own name.
pub proof fn sample_lines_show_their_figures(
    rows: Seq<SameMarketRow>,
    head: SameMarketRow,
    line: SampleLine,
    view: BinanceInternalStatsView,
    figures: SampleFigures,
)
    requires
        sample_line(rows, head) == Some(line),
        shows_sample_line(view, line),
        samples_of(rows, (head.asset@, head.duration@)) == Some(figures),
    ensures
        view.asset@ == head.asset@,
        view.duration@ == head.duration@,
        view.samples == figures.samples,
        view.windows == figures.windows.len(),
        view.raw_below_one_samples == figures.raw_below_one_samples,
        view.positive_net_samples == figures.positive_net_samples,
        view.eligible_samples == figures.eligible_samples,
        view.confirmed_samples == figures.confirmed_samples,
        view.maximum_net_edge@ == decimal_text(figures.maximum_net_edge),
        view.maximum_theoretical_profit@ == decimal_text(figures.maximum_theoretical_profit),
        view.maximum_quote_skew_ms == figures.maximum_quote_skew_ms,
        view.latest_observed_at_ms == figures.latest_observed_at_ms,
        exists|average: DecimalView|
            view.average_positive_edge@ == #[trigger] decimal_text(average) && is_average(
                average,
                figures.positive_edge_sum,
                figures.positive_net_samples,
            ),
{
    sample_lines_average(rows, head, line);
    assert(view.average_positive_edge@ == decimal_text(line.average_positive_edge));
}

} // verus!
