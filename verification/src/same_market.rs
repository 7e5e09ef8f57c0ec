//! Statistics on pairs bought within one market, by asset and duration.
use vstd::prelude::*;

use crate::cross::BinanceInternalView;
use crate::decimal::{decimal_text, parsed_decimal, product, sum, whole, zero, Decimal, DecimalView};
use crate::paper::{PAPER_CONFIRMATION_MS, PAPER_MAX_SIGNAL_GAP_MS};
use crate::quotes::{number_of, read_number};
use crate::rankings::{greater_of, per_count, share_of};
use crate::table::PairTable;
use crate::text::{is_before, precedes, same, text_of};
use crate::time::{minus_saturating, saturated_difference};

verus! {

/// What an observation says about buying both outcomes of one market.
#[derive(Clone, Debug)]
pub struct SameMarketRow {
    pub asset: String,
    pub duration: String,
    pub slug: String,
    pub observed_at_ms: i64,
    pub up_ask: Option<String>,
    pub down_ask: Option<String>,
    pub value: BinanceInternalView,
}

/// The statistics of one asset and duration.
#[derive(Clone, Debug)]
pub struct BinanceInternalStatsView {
    pub asset: String,
    pub duration: String,
    pub samples: u64,
    pub windows: u64,
    pub raw_below_one_samples: u64,
    pub positive_net_samples: u64,
    pub eligible_samples: u64,
    pub confirmed_samples: u64,
    pub average_positive_edge: String,
    pub maximum_net_edge: String,
    pub maximum_theoretical_profit: String,
    pub maximum_quote_skew_ms: i64,
    pub latest_observed_at_ms: i64,
}

/// What has been counted of an asset and duration.
#[verifier::ext_equal]
pub struct SampleFigures {
    pub samples: int,
    pub windows: Set<Seq<char>>,
    pub raw_below_one_samples: int,
    pub positive_net_samples: int,
    pub eligible_samples: int,
    pub confirmed_samples: int,
    pub positive_edge_sum: DecimalView,
    pub maximum_net_edge: DecimalView,
    pub maximum_theoretical_profit: DecimalView,
    pub maximum_quote_skew_ms: int,
    pub latest_observed_at_ms: int,
    /// For every market that was last seen eligible: since when, and when last.
    pub active: Map<Seq<char>, (i64, i64)>,
}

/// Nothing counted yet.
pub open spec fn no_samples() -> SampleFigures {
    SampleFigures {
        samples: 0,
        windows: Set::empty(),
        raw_below_one_samples: 0,
        positive_net_samples: 0,
        eligible_samples: 0,
        confirmed_samples: 0,
        positive_edge_sum: zero(),
        maximum_net_edge: zero(),
        maximum_theoretical_profit: zero(),
        maximum_quote_skew_ms: 0,
        latest_observed_at_ms: 0,
        active: Map::empty(),
    }
}

/// Whether both asks together cost less than one. `None` on overflow.
pub open spec fn below_one(up: Option<Seq<char>>, down: Option<Seq<char>>) -> Option<bool> {
    match (number_of(up), number_of(down)) {
        (Some(up), Some(down)) => match sum(up, down) {
            Some(total) => Some(total.lt(whole(1))),
            None => None,
        },
        _ => Some(false),
    }
}

pub open spec fn size_of(text: Seq<char>) -> DecimalView {
    match parsed_decimal(text) {
        Some(size) => size,
        None => zero(),
    }
}

/// The sum of the positive edges, the largest of them and the largest profit, with one more
/// edge. `None` on overflow.
pub open spec fn with_edge(figures: SampleFigures, edge: DecimalView, size: DecimalView) -> Option<
    (DecimalView, DecimalView, DecimalView),
> {
    if edge.is_positive() {
        match (sum(figures.positive_edge_sum, edge), product(edge, size)) {
            (Some(total), Some(profit)) => Some(
                (
                    total,
                    figures.maximum_net_edge.larger(edge),
                    figures.maximum_theoretical_profit.larger(profit),
                ),
            ),
            _ => None,
        }
    } else {
        Some(
            (
                figures.positive_edge_sum,
                figures.maximum_net_edge,
                figures.maximum_theoretical_profit,
            ),
        )
    }
}

/// Since when a market has been eligible, seen eligible now. A pause starts it anew.
pub open spec fn eligible_since(active: Map<Seq<char>, (i64, i64)>, slug: Seq<char>, now: i64) -> i64 {
    if active.contains_key(slug) && saturated_difference(now as int, active[slug].1 as int)
        <= PAPER_MAX_SIGNAL_GAP_MS {
        active[slug].0
    } else {
        now
    }
}

pub open spec fn one_if(condition: bool) -> int {
    if condition {
        1
    } else {
        0
    }
}

/// Counts one observation with its edge. `None` on overflow.
pub open spec fn count_sample(figures: SampleFigures, row: SameMarketRow, edge: DecimalView) -> Option<
    SampleFigures,
> {
    let slug = row.slug@;
    let now = row.observed_at_ms;
    let eligible = row.value.rejections@.len() == 0;
    let since = eligible_since(figures.active, slug, now);
    match (
        below_one(text_of(row.up_ask), text_of(row.down_ask)),
        with_edge(figures, edge, size_of(row.value.size@)),
    ) {
        (
            Some(cheap),
            Some((positive_edge_sum, maximum_net_edge, maximum_theoretical_profit)),
        ) => if figures.samples >= u64::MAX {
            None
        } else {
            Some(
                SampleFigures {
                    samples: figures.samples + 1,
                    windows: figures.windows.insert(slug),
                    raw_below_one_samples: figures.raw_below_one_samples + one_if(cheap),
                    positive_net_samples: figures.positive_net_samples + one_if(
                        edge.is_positive(),
                    ),
                    eligible_samples: figures.eligible_samples + one_if(eligible),
                    confirmed_samples: figures.confirmed_samples + one_if(
                        eligible && saturated_difference(now as int, since as int)
                            >= PAPER_CONFIRMATION_MS,
                    ),
                    positive_edge_sum,
                    maximum_net_edge,
                    maximum_theoretical_profit,
                    maximum_quote_skew_ms: greater_of(
                        figures.maximum_quote_skew_ms,
                        row.value.quote_skew_ms as int,
                    ),
                    latest_observed_at_ms: greater_of(figures.latest_observed_at_ms, now as int),
                    active: if eligible {
                        figures.active.insert(slug, (since, now))
                    } else {
                        figures.active.remove(slug)
                    },
                },
            )
        },
        _ => None,
    }
}

pub open spec fn group_of(row: SameMarketRow) -> (Seq<char>, Seq<char>) {
    (row.asset@, row.duration@)
}

/// What the observations say about an asset and duration; those whose edge is no number do not
/// count. `None` on overflow.
pub open spec fn samples_of(rows: Seq<SameMarketRow>, group: (Seq<char>, Seq<char>)) -> Option<
    SampleFigures,
>
    decreases rows.len(),
{
    if rows.len() == 0 {
        Some(no_samples())
    } else {
        match (samples_of(rows.drop_last(), group), parsed_decimal(rows.last().value.net_edge@)) {
            (None, _) => None,
            (Some(figures), Some(edge)) => if group_of(rows.last()) == group {
                count_sample(figures, rows.last(), edge)
            } else {
                Some(figures)
            },
            (Some(figures), None) => Some(figures),
        }
    }
}

pub open spec fn has_group(rows: Seq<SameMarketRow>, group: (Seq<char>, Seq<char>)) -> bool {
    exists|k: int| 0 <= k < rows.len() && group_of(#[trigger] rows[k]) == group
}

/// The first observation that counts of every asset and duration, in the order in which they
/// appear.
pub open spec fn group_heads(rows: Seq<SameMarketRow>) -> Seq<SameMarketRow>
    decreases rows.len(),
{
    if rows.len() == 0 {
        Seq::empty()
    } else {
        let earlier = group_heads(rows.drop_last());
        if parsed_decimal(rows.last().value.net_edge@) is None || has_group(
            earlier,
            group_of(rows.last()),
        ) {
            earlier
        } else {
            earlier.push(rows.last())
        }
    }
}

/// One line of the statistics.
pub struct SampleLine {
    pub head: SameMarketRow,
    pub figures: SampleFigures,
    pub average_positive_edge: DecimalView,
}

/// The line of one asset and duration. `None` on overflow.
pub open spec fn sample_line(rows: Seq<SameMarketRow>, head: SameMarketRow) -> Option<SampleLine> {
    match samples_of(rows, group_of(head)) {
        None => None,
        Some(figures) => match per_count(
            figures.positive_edge_sum,
            figures.positive_net_samples,
        ) {
            None => None,
            Some(average_positive_edge) => Some(
                SampleLine { head, figures, average_positive_edge },
            ),
        },
    }
}

/// Whether a line stands before another: by duration, then by asset.
pub open spec fn line_before(first: SampleLine, second: SampleLine) -> bool {
    precedes(first.head.duration@, second.head.duration@) || first.head.duration@
        == second.head.duration@ && precedes(first.head.asset@, second.head.asset@)
}

/// Ordered lines with one more in its place.
pub open spec fn with_sample_line(lines: Seq<SampleLine>, line: SampleLine) -> Seq<SampleLine>
    decreases lines.len(),
{
    if lines.len() == 0 || !line_before(line, lines.last()) {
        lines.push(line)
    } else {
        with_sample_line(lines.drop_last(), line).push(lines.last())
    }
}

/// The lines of the first `count` groups in order. `None` on overflow.
pub open spec fn ordered_lines(rows: Seq<SameMarketRow>, count: int) -> Option<Seq<SampleLine>>
    decreases count,
{
    if count <= 0 {
        Some(Seq::empty())
    } else {
        match (ordered_lines(rows, count - 1), sample_line(rows, group_heads(rows)[count - 1])) {
            (Some(lines), Some(line)) => Some(with_sample_line(lines, line)),
            _ => None,
        }
    }
}

/// The statistics that observations give, by duration and then by asset. `None` on overflow.
pub open spec fn stats_of(rows: Seq<SameMarketRow>) -> Option<Seq<SampleLine>> {
    ordered_lines(rows, group_heads(rows).len() as int)
}

/// A view shows a line.
pub open spec fn shows_sample_line(view: BinanceInternalStatsView, line: SampleLine) -> bool {
    &&& view.asset@ == line.head.asset@
    &&& view.duration@ == line.head.duration@
    &&& view.samples == line.figures.samples
    &&& view.windows == line.figures.windows.len()
    &&& view.raw_below_one_samples == line.figures.raw_below_one_samples
    &&& view.positive_net_samples == line.figures.positive_net_samples
    &&& view.eligible_samples == line.figures.eligible_samples
    &&& view.confirmed_samples == line.figures.confirmed_samples
    &&& view.average_positive_edge@ == decimal_text(line.average_positive_edge)
    &&& view.maximum_net_edge@ == decimal_text(line.figures.maximum_net_edge)
    &&& view.maximum_theoretical_profit@ == decimal_text(line.figures.maximum_theoretical_profit)
    &&& view.maximum_quote_skew_ms == line.figures.maximum_quote_skew_ms
    &&& view.latest_observed_at_ms == line.figures.latest_observed_at_ms
}

pub open spec fn shows_sample_lines(
    views: Seq<BinanceInternalStatsView>,
    lines: Seq<SampleLine>,
) -> bool {
    &&& views.len() == lines.len()
    &&& forall|k: int| 0 <= k < views.len() ==> shows_sample_line(#[trigger] views[k], lines[k])
}

/// Counts that no observation can push past the number of observations.
pub open spec fn consistent(figures: SampleFigures) -> bool {
    &&& figures.windows.finite()
    &&& figures.windows.len() <= figures.samples
    &&& 0 <= figures.raw_below_one_samples <= figures.samples
    &&& 0 <= figures.positive_net_samples <= figures.samples
    &&& 0 <= figures.confirmed_samples <= figures.eligible_samples <= figures.samples
}

proof fn lemma_count_consistent(figures: SampleFigures, row: SameMarketRow, edge: DecimalView)
    requires
        consistent(figures),
        count_sample(figures, row, edge) is Some,
    ensures
        consistent(count_sample(figures, row, edge)->0),
{
}

/// No count exceeds the number of observations, and only eligible observations are confirmed.
pub proof fn sample_counts_are_consistent(
    rows: Seq<SameMarketRow>,
    group: (Seq<char>, Seq<char>),
)
    requires
        samples_of(rows, group) is Some,
    ensures
        consistent(samples_of(rows, group)->0),
    decreases rows.len(),
{
    if rows.len() > 0 {
        sample_counts_are_consistent(rows.drop_last(), group);
        let figures = samples_of(rows.drop_last(), group)->0;
        match parsed_decimal(rows.last().value.net_edge@) {
            Some(edge) => {
                if group_of(rows.last()) == group {
                    lemma_count_consistent(figures, rows.last(), edge);
                }
            },
            None => {},
        }
    }
}

struct SampleTally {
    head: usize,
    samples: u64,
    windows: u64,
    seen: PairTable<bool>,
    raw_below_one_samples: u64,
    positive_net_samples: u64,
    eligible_samples: u64,
    confirmed_samples: u64,
    positive_edge_sum: Decimal,
    maximum_net_edge: Decimal,
    maximum_theoretical_profit: Decimal,
    maximum_quote_skew_ms: i64,
    latest_observed_at_ms: i64,
    active: PairTable<(i64, i64)>,
}

impl View for SampleTally {
    type V = SampleFigures;

    closed spec fn view(&self) -> SampleFigures {
        SampleFigures {
            samples: self.samples as int,
            windows: Set::new(|slug: Seq<char>| self.seen@.contains_key((slug, ""@))),
            raw_below_one_samples: self.raw_below_one_samples as int,
            positive_net_samples: self.positive_net_samples as int,
            eligible_samples: self.eligible_samples as int,
            confirmed_samples: self.confirmed_samples as int,
            positive_edge_sum: self.positive_edge_sum@,
            maximum_net_edge: self.maximum_net_edge@,
            maximum_theoretical_profit: self.maximum_theoretical_profit@,
            maximum_quote_skew_ms: self.maximum_quote_skew_ms as int,
            latest_observed_at_ms: self.latest_observed_at_ms as int,
            active: Map::new(
                |slug: Seq<char>| self.active@.contains_key((slug, ""@)),
                |slug: Seq<char>| self.active@[(slug, ""@)],
            ),
        }
    }
}

impl SampleTally {
    spec fn well_formed(self) -> bool {
        &&& consistent(self@)
        &&& self.windows == self@.windows.len()
    }

    fn new(head: usize) -> (result: SampleTally)
        ensures
            result@ == no_samples(),
            result.well_formed(),
            result.head == head,
    {
        let tally = SampleTally {
            head,
            samples: 0,
            windows: 0,
            seen: PairTable::new(),
            raw_below_one_samples: 0,
            positive_net_samples: 0,
            eligible_samples: 0,
            confirmed_samples: 0,
            positive_edge_sum: Decimal::zero(),
            maximum_net_edge: Decimal::zero(),
            maximum_theoretical_profit: Decimal::zero(),
            maximum_quote_skew_ms: 0,
            latest_observed_at_ms: 0,
            active: PairTable::new(),
        };
        proof {
            assert(tally@.windows =~= Set::<Seq<char>>::empty());
            assert(tally@.active =~= Map::<Seq<char>, (i64, i64)>::empty());
        }
        tally
    }
}

fn is_below_one(up: &Option<String>, down: &Option<String>) -> (result: Option<bool>)
    ensures
        result == below_one(text_of(*up), text_of(*down)),
{
    match (read_number(up), read_number(down)) {
        (Some(up), Some(down)) => {
            let total = up.checked_add(down)?;
            Some(total.less(&Decimal::one()))
        },
        _ => Some(false),
    }
}

/// Counts one observation; `false` on overflow.
fn tally_sample(tally: &mut SampleTally, row: &SameMarketRow, edge: Decimal) -> (result: bool)
    requires
        old(tally).well_formed(),
    ensures
        final(tally).head == old(tally).head,
        match count_sample(old(tally)@, *row, edge@) {
            Some(figures) => result && final(tally)@ == figures && final(tally).well_formed(),
            None => !result,
        },
{
    let ghost before = tally@;
    let cheap = match is_below_one(&row.up_ask, &row.down_ask) {
        Some(cheap) => cheap,
        None => return false,
    };
    let size = match Decimal::parse(row.value.size.as_str()) {
        Some(size) => size,
        None => Decimal::zero(),
    };
    let positive = edge.is_positive();
    let mut positive_edge_sum = tally.positive_edge_sum;
    let mut maximum_net_edge = tally.maximum_net_edge;
    let mut maximum_theoretical_profit = tally.maximum_theoretical_profit;
    if positive {
        positive_edge_sum = match tally.positive_edge_sum.checked_add(edge) {
            Some(total) => total,
            None => return false,
        };
        maximum_net_edge = tally.maximum_net_edge.max(edge);
        maximum_theoretical_profit = match edge.checked_mul(size) {
            Some(profit) => tally.maximum_theoretical_profit.max(profit),
            None => return false,
        };
    }
    if tally.samples == u64::MAX {
        return false;
    }
    let slug = row.slug.as_str();
    let now: i64 = row.observed_at_ms;
    let eligible = row.value.rejections.len() == 0;
    let since: i64 = match tally.active.get(slug, "") {
        Some((since, last)) => if minus_saturating(now, last) <= PAPER_MAX_SIGNAL_GAP_MS {
            since
        } else {
            now
        },
        None => now,
    };
    assert(since == eligible_since(before.active, slug@, now));
    let ghost expected = count_sample(before, *row, edge@)->0;
    proof {
        lemma_count_consistent(before, *row, edge@);
    }
    tally.samples = tally.samples + 1;
    if tally.seen.get(slug, "").is_none() {
        tally.windows = tally.windows + 1;
    }
    tally.seen.insert(slug, "", true);
    if cheap {
        tally.raw_below_one_samples = tally.raw_below_one_samples + 1;
    }
    if positive {
        tally.positive_net_samples = tally.positive_net_samples + 1;
    }
    if eligible {
        tally.eligible_samples = tally.eligible_samples + 1;
        if minus_saturating(now, since) >= PAPER_CONFIRMATION_MS {
            tally.confirmed_samples = tally.confirmed_samples + 1;
        }
        tally.active.insert(slug, "", (since, now));
    } else {
        tally.active.remove(slug, "");
    }
    tally.positive_edge_sum = positive_edge_sum;
    tally.maximum_net_edge = maximum_net_edge;
    tally.maximum_theoretical_profit = maximum_theoretical_profit;
    if tally.maximum_quote_skew_ms < row.value.quote_skew_ms {
        tally.maximum_quote_skew_ms = row.value.quote_skew_ms;
    }
    if tally.latest_observed_at_ms < now {
        tally.latest_observed_at_ms = now;
    }
    proof {
        assert(tally@.windows =~= expected.windows);
        assert(tally@.active =~= expected.active);
        assert(tally@ == expected);
    }
    true
}

proof fn lemma_group_absent(rows: Seq<SameMarketRow>, group: (Seq<char>, Seq<char>))
    requires
        !has_group(group_heads(rows), group),
    ensures
        samples_of(rows, group) == Some(no_samples()),
    decreases rows.len(),
{
    if rows.len() > 0 {
        let earlier = group_heads(rows.drop_last());
        if has_group(earlier, group) {
            let k = choose|k: int|
                0 <= k < earlier.len() && group_of(#[trigger] earlier[k]) == group;
            assert(group_heads(rows)[k] == earlier[k]);
        }
        if parsed_decimal(rows.last().value.net_edge@) is Some && group_of(rows.last()) == group {
            assert(group_heads(rows)[earlier.len() as int] == rows.last());
        }
        lemma_group_absent(rows.drop_last(), group);
    }
}

/// Every asset and duration with an observation that counts stands at the head of its
/// observations once.
pub proof fn groups_are_distinct(rows: Seq<SameMarketRow>)
    ensures
        forall|i: int, j: int|
            0 <= i < j < group_heads(rows).len() ==> group_of(#[trigger] group_heads(rows)[i])
                != group_of(#[trigger] group_heads(rows)[j]),
        forall|i: int|
            0 <= i < rows.len() && parsed_decimal((#[trigger] rows[i]).value.net_edge@) is Some
                ==> has_group(group_heads(rows), group_of(rows[i])),
    decreases rows.len(),
{
    if rows.len() > 0 {
        let rest = rows.drop_last();
        let earlier = group_heads(rest);
        groups_are_distinct(rest);
        assert forall|i: int|
            0 <= i < rows.len() && parsed_decimal(
                (#[trigger] rows[i]).value.net_edge@,
            ) is Some implies has_group(group_heads(rows), group_of(rows[i])) by {
            if i < rest.len() {
                assert(rows[i] == rest[i]);
                assert(has_group(earlier, group_of(rest[i])));
                let k = choose|k: int|
                    0 <= k < earlier.len() && group_of(#[trigger] earlier[k]) == group_of(rest[i]);
                assert(group_heads(rows)[k] == earlier[k]);
            } else if !has_group(earlier, group_of(rows.last())) {
                assert(group_heads(rows)[earlier.len() as int] == rows.last());
            }
        }
    }
}

proof fn lemma_sample_overflow_stays(
    rows: Seq<SameMarketRow>,
    count: int,
    group: (Seq<char>, Seq<char>),
)
    requires
        0 <= count <= rows.len(),
        samples_of(rows.take(count), group) is None,
    ensures
        samples_of(rows, group) is None,
    decreases rows.len(),
{
    if count == rows.len() {
        assert(rows.take(count) =~= rows);
    } else {
        assert(rows.drop_last().take(count) =~= rows.take(count));
        lemma_sample_overflow_stays(rows.drop_last(), count, group);
    }
}

proof fn lemma_sample_line_missing(rows: Seq<SameMarketRow>, count: int, k: int)
    requires
        0 <= k < count,
        sample_line(rows, group_heads(rows)[k]) is None,
    ensures
        ordered_lines(rows, count) is None,
    decreases count,
{
    if k < count - 1 {
        lemma_sample_line_missing(rows, count - 1, k);
    }
}

spec fn tally_matches(
    rows: Seq<SameMarketRow>,
    tally: SampleTally,
    seen: Seq<SameMarketRow>,
    k: int,
) -> bool {
    &&& tally.head < rows.len()
    &&& rows[tally.head as int] == group_heads(seen)[k]
    &&& samples_of(seen, group_of(group_heads(seen)[k])) == Some(tally@)
    &&& tally.well_formed()
}

/// The tallies of the observations seen so far, one for every group among them.
spec fn tallies_match(
    rows: Seq<SameMarketRow>,
    tallies: Seq<SampleTally>,
    seen: Seq<SameMarketRow>,
) -> bool {
    &&& tallies.len() == group_heads(seen).len()
    &&& forall|k: int|
        0 <= k < tallies.len() ==> tally_matches(rows, #[trigger] tallies[k], seen, k)
}

fn find_tally(rows: &Vec<SameMarketRow>, tallies: &Vec<SampleTally>, asset: &str, duration: &str) -> (result:
    Option<usize>)
    requires
        forall|k: int| 0 <= k < tallies.len() ==> (#[trigger] tallies[k]).head < rows.len(),
    ensures
        match result {
            Some(k) => k < tallies.len() && group_of(rows[tallies[k as int].head as int]) == (
                asset@,
                duration@,
            ),
            None => forall|k: int|
                0 <= k < tallies.len() ==> group_of(rows[(#[trigger] tallies[k]).head as int]) != (
                    asset@,
                    duration@,
                ),
        },
{
    let mut k: usize = 0;
    while k < tallies.len()
        invariant
            k <= tallies.len(),
            forall|j: int| 0 <= j < tallies.len() ==> (#[trigger] tallies[j]).head < rows.len(),
            forall|j: int|
                0 <= j < k ==> group_of(rows[(#[trigger] tallies[j]).head as int]) != (
                    asset@,
                    duration@,
                ),
        decreases tallies.len() - k,
    {
        let head = &rows[tallies[k].head];
        if same(head.asset.as_str(), asset) && same(head.duration.as_str(), duration) {
            return Some(k);
        }
        k = k + 1;
    }
    None
}

fn tally_samples(rows: &Vec<SameMarketRow>) -> (result: Option<Vec<SampleTally>>)
    ensures
        match result {
            Some(tallies) => tallies_match(rows@, tallies@, rows@),
            None => stats_of(rows@) is None,
        },
{
    let mut tallies: Vec<SampleTally> = Vec::new();
    let mut i: usize = 0;
    while i < rows.len()
        invariant
            i <= rows.len(),
            tallies_match(rows@, tallies@, rows@.take(i as int)),
        decreases rows.len() - i,
    {
        let row = &rows[i];
        let ghost seen = rows@.take(i as int);
        let ghost now = rows@.take(i + 1);
        let ghost group = group_of(*row);
        let ghost before = tallies@;
        proof {
            assert(now.drop_last() =~= seen);
            assert(now.last() == *row);
            groups_are_distinct(seen);
            groups_are_distinct(rows@);
            assert forall|k: int| 0 <= k < tallies.len() implies (
            #[trigger] tallies[k]).head < rows.len() by {
                assert(tally_matches(rows@, tallies@[k], seen, k));
            }
        }
        let edge = match Decimal::parse(row.value.net_edge.as_str()) {
            Some(edge) => edge,
            None => {
                proof {
                    assert forall|k: int| 0 <= k < tallies.len() implies tally_matches(
                        rows@,
                        #[trigger] tallies@[k],
                        now,
                        k,
                    ) by {
                        assert(tally_matches(rows@, tallies@[k], seen, k));
                    }
                }
                i = i + 1;
                continue;
            },
        };
        let place = find_tally(rows, &tallies, row.asset.as_str(), row.duration.as_str());
        let k: usize = match place {
            Some(k) => {
                proof {
                    assert(tally_matches(rows@, tallies@[k as int], seen, k as int));
                    assert(group_of(group_heads(seen)[k as int]) == group);
                    assert(has_group(group_heads(seen), group));
                    assert(group_heads(now) == group_heads(seen));
                }
                k
            },
            None => {
                proof {
                    if has_group(group_heads(seen), group) {
                        let k = choose|k: int|
                            0 <= k < group_heads(seen).len() && group_of(
                                #[trigger] group_heads(seen)[k],
                            ) == group;
                        assert(tally_matches(rows@, tallies@[k], seen, k));
                    }
                    lemma_group_absent(seen, group);
                    assert(group_heads(now) == group_heads(seen).push(*row));
                }
                tallies.push(SampleTally::new(i));
                tallies.len() - 1
            },
        };
        assert(samples_of(seen, group) == Some(tallies@[k as int]@));
        assert(samples_of(now, group) == count_sample(tallies@[k as int]@, *row, edge@));
        let ghost held = tallies@;
        let counted = tally_sample(&mut tallies[k], row, edge);
        if !counted {
            proof {
                lemma_sample_overflow_stays(rows@, i + 1, group);
                assert(has_group(group_heads(rows@), group_of(rows@[i as int])));
                let at = choose|at: int|
                    0 <= at < group_heads(rows@).len() && group_of(
                        #[trigger] group_heads(rows@)[at],
                    ) == group;
                lemma_sample_line_missing(rows@, group_heads(rows@).len() as int, at);
            }
            return None;
        }
        proof {
            assert forall|j: int| 0 <= j < tallies.len() implies tally_matches(
                rows@,
                #[trigger] tallies@[j],
                now,
                j,
            ) by {
                if j != k {
                    assert(tallies@[j] == held[j]);
                    assert(held[j] == before[j]);
                    assert(tally_matches(rows@, before[j], seen, j));
                    assert(group_of(group_heads(seen)[j]) != group);
                }
            }
        }
        i = i + 1;
    }
    proof {
        assert(rows@.take(i as int) =~= rows@);
    }
    Some(tallies)
}

fn view_sample_line(
    head: &SameMarketRow,
    tally: &SampleTally,
    Ghost(rows): Ghost<Seq<SameMarketRow>>,
) -> (result: Option<BinanceInternalStatsView>)
    requires
        samples_of(rows, group_of(*head)) == Some(tally@),
        tally.well_formed(),
    ensures
        match sample_line(rows, *head) {
            None => result is None,
            Some(line) => result matches Some(view) && shows_sample_line(view, line),
        },
{
    let average = share_of(tally.positive_edge_sum, tally.positive_net_samples)?;
    Some(
        BinanceInternalStatsView {
            asset: head.asset.clone(),
            duration: head.duration.clone(),
            samples: tally.samples,
            windows: tally.windows,
            raw_below_one_samples: tally.raw_below_one_samples,
            positive_net_samples: tally.positive_net_samples,
            eligible_samples: tally.eligible_samples,
            confirmed_samples: tally.confirmed_samples,
            average_positive_edge: average.text(),
            maximum_net_edge: tally.maximum_net_edge.text(),
            maximum_theoretical_profit: tally.maximum_theoretical_profit.text(),
            maximum_quote_skew_ms: tally.maximum_quote_skew_ms,
            latest_observed_at_ms: tally.latest_observed_at_ms,
        },
    )
}

fn stats_before(first: &BinanceInternalStatsView, second: &BinanceInternalStatsView) -> (result:
    bool)
    ensures
        forall|a: SampleLine, b: SampleLine|
            shows_sample_line(*first, a) && shows_sample_line(*second, b) ==> result
                == #[trigger] line_before(a, b),
{
    is_before(first.duration.as_str(), second.duration.as_str()) || same(
        first.duration.as_str(),
        second.duration.as_str(),
    ) && is_before(first.asset.as_str(), second.asset.as_str())
}

proof fn lemma_with_sample_line(lines: Seq<SampleLine>, line: SampleLine, place: int)
    requires
        0 <= place <= lines.len(),
        place > 0 ==> !line_before(line, lines[place - 1]),
        forall|k: int| place <= k < lines.len() ==> line_before(line, #[trigger] lines[k]),
    ensures
        with_sample_line(lines, line) == lines.insert(place, line),
    decreases lines.len(),
{
    if place == lines.len() {
        assert(lines.insert(place, line) =~= lines.push(line));
    } else {
        let rest = lines.drop_last();
        lemma_with_sample_line(rest, line, place);
        assert(rest.insert(place, line).push(lines.last()) =~= lines.insert(place, line));
    }
}

fn place_sample_line(
    views: &mut Vec<BinanceInternalStatsView>,
    view: BinanceInternalStatsView,
    Ghost(lines): Ghost<Seq<SampleLine>>,
    Ghost(line): Ghost<SampleLine>,
)
    requires
        shows_sample_lines(old(views)@, lines),
        shows_sample_line(view, line),
    ensures
        shows_sample_lines(final(views)@, with_sample_line(lines, line)),
{
    let mut place: usize = views.len();
    while place > 0 && stats_before(&view, &views[place - 1])
        invariant
            place <= views.len(),
            views@ == old(views)@,
            shows_sample_lines(views@, lines),
            shows_sample_line(view, line),
            forall|k: int| place <= k < lines.len() ==> line_before(line, #[trigger] lines[k]),
        decreases place,
    {
        place = place - 1;
        assert(shows_sample_line(views@[place as int], lines[place as int]));
    }
    proof {
        if place > 0 {
            assert(shows_sample_line(views@[place - 1], lines[place - 1]));
            assert(!line_before(line, lines[place - 1]));
        }
        lemma_with_sample_line(lines, line, place as int);
    }
    views.insert(place, view);
}

/// The statistics of pairs bought within one market, by duration and then by asset. `None` on
/// overflow.
pub fn same_market_stats(rows: &Vec<SameMarketRow>) -> (result: Option<
    Vec<BinanceInternalStatsView>,
>)
    ensures
        match stats_of(rows@) {
            None => result is None,
            Some(lines) => result matches Some(views) && shows_sample_lines(views@, lines),
        },
{
    let tallies = tally_samples(rows)?;
    let mut views: Vec<BinanceInternalStatsView> = Vec::new();
    let mut k: usize = 0;
    while k < tallies.len()
        invariant
            k <= tallies.len(),
            tallies_match(rows@, tallies@, rows@),
            ordered_lines(rows@, k as int) is Some,
            shows_sample_lines(views@, ordered_lines(rows@, k as int)->0),
        decreases tallies.len() - k,
    {
        assert(tally_matches(rows@, tallies@[k as int], rows@, k as int));
        let head = &rows[tallies[k].head];
        let ghost lines = ordered_lines(rows@, k as int)->0;
        let ghost line = sample_line(rows@, group_heads(rows@)[k as int]);
        let viewed = view_sample_line(head, &tallies[k], Ghost(rows@));
        let view = match viewed {
            Some(view) => view,
            None => {
                proof {
                    lemma_sample_line_missing(rows@, group_heads(rows@).len() as int, k as int);
                }
                return None;
            },
        };
        place_sample_line(&mut views, view, Ghost(lines), Ghost(line->0));
        k = k + 1;
    }
    Some(views)
}

/// Lines by duration and then by asset.
pub open spec fn in_line_order(lines: Seq<SampleLine>) -> bool {
    forall|i: int, j: int|
        0 <= i < j < lines.len() ==> !line_before(#[trigger] lines[j], #[trigger] lines[i])
}

proof fn lemma_line_order(a: SampleLine, b: SampleLine, c: SampleLine)
    requires
        !line_before(b, a),
        !line_before(c, b),
    ensures
        !line_before(c, a),
{
    let x = a.head.duration@;
    let y = b.head.duration@;
    let z = c.head.duration@;
    crate::text::text_order(x, y, z);
    crate::text::text_order(x, z, y);
    crate::text::text_order(z, y, x);
    crate::text::text_order(a.head.asset@, b.head.asset@, c.head.asset@);
    crate::text::text_order_is_total(x, y);
    crate::text::text_order_is_total(y, z);
}

proof fn lemma_sample_line_placed(lines: Seq<SampleLine>, line: SampleLine)
    requires
        in_line_order(lines),
    ensures
        in_line_order(with_sample_line(lines, line)),
        with_sample_line(lines, line).to_multiset() == lines.to_multiset().insert(line),
        with_sample_line(lines, line).len() == lines.len() + 1,
        forall|k: int|
            0 <= k <= lines.len() ==> #[trigger] with_sample_line(lines, line)[k] == line
                || lines.contains(with_sample_line(lines, line)[k]),
    decreases lines.len(),
{
    broadcast use vstd::seq_lib::group_to_multiset_ensures;

    let placed = with_sample_line(lines, line);
    if lines.len() == 0 || !line_before(line, lines.last()) {
        assert(placed == lines.push(line));
        assert forall|k: int| 0 <= k < lines.len() implies lines.contains(
            #[trigger] placed[k],
        ) by {
            assert(placed[k] == lines[k]);
        }
        assert forall|i: int, j: int| 0 <= i < j < placed.len() implies !line_before(
            #[trigger] placed[j],
            #[trigger] placed[i],
        ) by {
            assert(placed[i] == lines[i]);
            if j < lines.len() {
                assert(placed[j] == lines[j]);
            } else if i < lines.len() - 1 {
                assert(!line_before(lines[lines.len() - 1], lines[i]));
                lemma_line_order(lines[i], lines.last(), line);
            }
        }
    } else {
        let rest = lines.drop_last();
        lemma_sample_line_placed(rest, line);
        let inner = with_sample_line(rest, line);
        assert(placed == inner.push(lines.last()));
        assert(lines =~= rest.push(lines.last()));
        assert(placed.to_multiset() =~= lines.to_multiset().insert(line));
        assert forall|k: int| 0 <= k <= lines.len() implies (#[trigger] placed[k] == line
            || lines.contains(placed[k])) by {
            if k < lines.len() {
                assert(placed[k] == inner[k]);
                if inner[k] != line {
                    let at = rest.index_of(inner[k]);
                    assert(lines[at] == inner[k]);
                }
            } else {
                assert(lines[lines.len() - 1] == placed[k]);
            }
        }
        assert forall|i: int, j: int| 0 <= i < j < placed.len() implies !line_before(
            #[trigger] placed[j],
            #[trigger] placed[i],
        ) by {
            assert(placed[i] == inner[i]);
            if j < inner.len() {
                assert(placed[j] == inner[j]);
            } else if inner[i] != line {
                let at = rest.index_of(inner[i]);
                assert(lines[at] == inner[i]);
                assert(!line_before(lines[lines.len() - 1], lines[at]));
            } else {
                crate::text::text_order(
                    line.head.duration@,
                    lines.last().head.duration@,
                    line.head.duration@,
                );
                crate::text::text_order(
                    line.head.asset@,
                    lines.last().head.asset@,
                    line.head.asset@,
                );
            }
        }
    }
}

proof fn lemma_in_line_order(rows: Seq<SameMarketRow>, count: int)
    requires
        0 <= count <= group_heads(rows).len(),
        ordered_lines(rows, count) is Some,
    ensures
        in_line_order(ordered_lines(rows, count)->0),
        ordered_lines(rows, count)->0.to_multiset() == Seq::new(
            count as nat,
            |k: int| sample_line(rows, group_heads(rows)[k])->0,
        ).to_multiset(),
    decreases count,
{
    broadcast use vstd::seq_lib::group_to_multiset_ensures;

    let lines = |n: nat| Seq::new(n, |k: int| sample_line(rows, group_heads(rows)[k])->0);
    if count > 0 {
        lemma_in_line_order(rows, count - 1);
        lemma_sample_line_placed(
            ordered_lines(rows, count - 1)->0,
            sample_line(rows, group_heads(rows)[count - 1])->0,
        );
        assert(lines(count as nat) =~= lines((count - 1) as nat).push(
            sample_line(rows, group_heads(rows)[count - 1])->0,
        ));
    } else {
        assert(lines(0) =~= Seq::empty());
        assert(ordered_lines(rows, count)->0 =~= Seq::empty());
    }
}

/// The statistics stand by duration and then by asset, and hold a line for every asset and
/// duration with an observation that counts and no other.
pub proof fn stats_are_ordered(rows: Seq<SameMarketRow>)
    requires
        stats_of(rows) is Some,
    ensures
        in_line_order(stats_of(rows)->0),
        stats_of(rows)->0.to_multiset() == Seq::new(
            group_heads(rows).len(),
            |k: int| sample_line(rows, group_heads(rows)[k])->0,
        ).to_multiset(),
{
    lemma_in_line_order(rows, group_heads(rows).len() as int);
}

/// The statistics stand by duration first and by asset within a duration.
pub proof fn statistics_stand_by_duration_and_asset(rows: Seq<SameMarketRow>, i: int, j: int)
    requires
        stats_of(rows) is Some,
        0 <= i < j < stats_of(rows)->0.len(),
    ensures
        ({
            let lines = stats_of(rows)->0;
            let (first, second) = (lines[i].head, lines[j].head);
            &&& !precedes(second.duration@, first.duration@)
            &&& first.duration@ == second.duration@ ==> !precedes(second.asset@, first.asset@)
        }),
{
    stats_are_ordered(rows);
    assert(!line_before(stats_of(rows)->0[j], stats_of(rows)->0[i]));
}

} // verus!
