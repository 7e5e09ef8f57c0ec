//! The state of the dashboard and how discoveries, scans and prices change it.
use vstd::prelude::*;

use crate::decimal::parsed_decimal;
use crate::cross::ShadowPlan;
use crate::pairs::{copy_pair, TrackedPair, TrackedPairView, TrackedView};
use crate::paper::{
    annotate_observation, annotated, checked_paper_trade, decide_trade, direction_decided,
    has_opportunity, internal_followed_up, internal_is_eligible, shows_opportunity, trade_of,
    trade_shown, DirectionActions, PaperState,
};
use crate::quotes::{
    difference_of, take_rtds_event, take_spot_price, took_event, ReferencePriceView,
    RtdsTwapEvent,
};
use crate::rules::{
    followed_up_purchases_leave_an_edge, held, opportunities_leave_an_edge, size_suffices,
};
use crate::scan::{ObservationView, ScanPairResult};
use crate::table::{KeyView, PairTable};
use crate::text::{copy_option, same, text_of};

verus! {

/// A pair with its latest observation, or what went wrong with it.
#[derive(Clone, Debug)]
pub struct PairSnapshot {
    pub pair: TrackedPairView,
    pub latest: Option<ObservationView>,
    pub error: Option<String>,
}

/// What the dashboard shows.
#[derive(Clone, Debug)]
pub struct DashboardState {
    pub mode: String,
    pub scanner_status: String,
    pub last_discovery_ms: Option<i64>,
    pub last_error: Option<String>,
    pub pairs: Vec<PairSnapshot>,
    pub observation_count: u64,
    pub opportunity_count: u64,
    /// The reference prices by asset, each asset at most once.
    pub reference_prices: Vec<(String, ReferencePriceView)>,
}

impl Default for DashboardState {
    fn default() -> (result: DashboardState)
        ensures
            result.mode@ == ""@,
            result.scanner_status@ == ""@,
            result.last_discovery_ms is None,
            result.last_error is None,
            result.pairs@.len() == 0,
            result.observation_count == 0,
            result.opportunity_count == 0,
            result.reference_prices@.len() == 0,
    {
        DashboardState {
            mode: "".to_owned(),
            scanner_status: "".to_owned(),
            last_discovery_ms: None,
            last_error: None,
            pairs: Vec::new(),
            observation_count: 0,
            opportunity_count: 0,
            reference_prices: Vec::new(),
        }
    }
}

/// The place of a slug among tracked pairs, from `start` on.
pub open spec fn tracked_from(pairs: Seq<TrackedPair>, slug: Seq<char>, start: int) -> Option<int>
    decreases pairs.len() - start,
{
    if start < 0 || start >= pairs.len() {
        None
    } else if pairs[start].view.slug@ == slug {
        Some(start)
    } else {
        tracked_from(pairs, slug, start + 1)
    }
}

/// Tracked pairs with one more, which replaces an earlier one under its slug.
pub open spec fn with_tracked(pairs: Seq<TrackedPair>, pair: TrackedPair) -> Seq<TrackedPair> {
    match tracked_from(pairs, pair.view.slug@, 0) {
        Some(place) => pairs.update(place, pair),
        None => pairs.push(pair),
    }
}

/// The pairs to track of those discovered: for every slug the last of its pairs.
pub open spec fn tracked_of(discovered: Seq<TrackedPair>) -> Seq<TrackedPair>
    decreases discovered.len(),
{
    if discovered.len() == 0 {
        Seq::empty()
    } else {
        with_tracked(tracked_of(discovered.drop_last()), discovered.last())
    }
}

/// The tracked pair under a slug.
pub fn find_tracked(pairs: &Vec<TrackedPair>, slug: &str) -> (result: Option<usize>)
    ensures
        match result {
            Some(place) => tracked_from(pairs@, slug@, 0) == Some(place as int) && place
                < pairs@.len(),
            None => tracked_from(pairs@, slug@, 0) is None,
        },
{
    let mut i: usize = 0;
    while i < pairs.len()
        invariant
            i <= pairs@.len(),
            tracked_from(pairs@, slug@, 0) == tracked_from(pairs@, slug@, i as int),
        decreases pairs@.len() - i,
    {
        if same(pairs[i].view.slug.as_str(), slug) {
            return Some(i);
        }
        i = i + 1;
    }
    None
}

/// The pairs to track of those discovered.
pub fn track(discovered: Vec<TrackedPair>) -> (result: Vec<TrackedPair>)
    ensures
        result@ == tracked_of(discovered@),
{
    let mut rest = discovered;
    let mut kept: Vec<TrackedPair> = Vec::new();
    let ghost all = discovered@;
    let ghost mut done: int = 0;
    proof {
        assert(all.take(0) =~= Seq::empty());
        assert(all.skip(0) =~= all);
    }
    while rest.len() > 0
        invariant
            0 <= done <= all.len(),
            rest@ == all.skip(done),
            kept@ == tracked_of(all.take(done)),
        decreases rest.len(),
    {
        proof {
            assert(all.skip(done)[0] == all[done]);
            assert(all.skip(done).remove(0) =~= all.skip(done + 1));
            assert(all.take(done + 1).drop_last() =~= all.take(done));
        }
        let pair = rest.remove(0);
        match find_tracked(&kept, pair.view.slug.as_str()) {
            Some(place) => {
                kept.set(place, pair);
            },
            None => {
                kept.push(pair);
            },
        }
        proof {
            done = done + 1;
        }
    }
    proof {
        assert(all.take(done) =~= all);
    }
    kept
}

/// Every slug is tracked once, and every slug that was discovered is tracked.
pub proof fn slugs_are_tracked_once(discovered: Seq<TrackedPair>)
    ensures
        forall|i: int, j: int|
            0 <= i < j < tracked_of(discovered).len() ==> (
            #[trigger] tracked_of(discovered)[i]).view.slug@ != (
            #[trigger] tracked_of(discovered)[j]).view.slug@,
        forall|i: int|
            0 <= i < discovered.len() ==> tracked_from(
                tracked_of(discovered),
                (#[trigger] discovered[i]).view.slug@,
                0,
            ) is Some,
    decreases discovered.len(),
{
    if discovered.len() > 0 {
        let rest = discovered.drop_last();
        slugs_are_tracked_once(rest);
        let kept = tracked_of(rest);
        let last = discovered.last();
        let all = tracked_of(discovered);
        lemma_tracked_found(kept, last.view.slug@, 0);
        assert forall|i: int, j: int| 0 <= i < j < all.len() implies (
        #[trigger] all[i]).view.slug@ != (#[trigger] all[j]).view.slug@ by {
            match tracked_from(kept, last.view.slug@, 0) {
                Some(place) => {
                    assert(i == place || all[i] == kept[i]);
                    assert(j == place || all[j] == kept[j]);
                    assert(kept[place].view.slug@ == last.view.slug@);
                },
                None => {
                    assert(all[i] == kept[i]);
                    assert(j == kept.len() || all[j] == kept[j]);
                },
            }
        }
        assert forall|i: int| 0 <= i < discovered.len() implies tracked_from(
            all,
            (#[trigger] discovered[i]).view.slug@,
            0,
        ) is Some by {
            let slug = discovered[i].view.slug@;
            if i < rest.len() {
                assert(discovered[i] == rest[i]);
                assert(tracked_from(kept, rest[i].view.slug@, 0) is Some);
                lemma_tracked_found(kept, slug, 0);
                let at = tracked_from(kept, slug, 0)->0;
                match tracked_from(kept, last.view.slug@, 0) {
                    Some(place) => {
                        assert(all[at].view.slug@ == slug);
                    },
                    None => {
                        assert(all[at] == kept[at]);
                    },
                }
                lemma_tracked_exists(all, slug, 0, at);
            } else {
                match tracked_from(kept, last.view.slug@, 0) {
                    Some(place) => {
                        lemma_tracked_exists(all, slug, 0, place);
                    },
                    None => {
                        lemma_tracked_exists(all, slug, 0, kept.len() as int);
                    },
                }
            }
        }
    }
}

proof fn lemma_tracked_found(pairs: Seq<TrackedPair>, slug: Seq<char>, start: int)
    requires
        0 <= start,
    ensures
        match tracked_from(pairs, slug, start) {
            Some(place) => start <= place < pairs.len() && pairs[place].view.slug@ == slug,
            None => forall|i: int|
                start <= i < pairs.len() ==> (#[trigger] pairs[i]).view.slug@ != slug,
        },
    decreases pairs.len() - start,
{
    if start < pairs.len() && pairs[start].view.slug@ != slug {
        lemma_tracked_found(pairs, slug, start + 1);
    }
}

proof fn lemma_tracked_exists(pairs: Seq<TrackedPair>, slug: Seq<char>, start: int, place: int)
    requires
        0 <= start <= place < pairs.len(),
        pairs[place].view.slug@ == slug,
    ensures
        tracked_from(pairs, slug, start) is Some,
    decreases pairs.len() - start,
{
    if pairs[start].view.slug@ != slug {
        lemma_tracked_exists(pairs, slug, start + 1, place);
    }
}

/// Pairs ordered by their end, with one more behind those that do not end later.
pub open spec fn with_pair(pairs: Seq<TrackedView>, pair: TrackedView) -> Seq<TrackedView>
    decreases pairs.len(),
{
    if pairs.len() == 0 || pairs.last().end_ms <= pair.end_ms {
        pairs.push(pair)
    } else {
        with_pair(pairs.drop_last(), pair).push(pairs.last())
    }
}

/// The first `count` tracked pairs, those that end first in front; pairs with the same end
/// keep their order.
pub open spec fn by_end(watched: Seq<TrackedPair>, count: int) -> Seq<TrackedView>
    decreases count,
{
    if count <= 0 {
        Seq::empty()
    } else {
        with_pair(by_end(watched, count - 1), watched[count - 1].view@)
    }
}

/// Fresh snapshots of pairs, without an observation or an error.
pub open spec fn fresh_snapshots(snapshots: Seq<PairSnapshot>, pairs: Seq<TrackedView>) -> bool {
    &&& snapshots.len() == pairs.len()
    &&& forall|k: int|
        0 <= k < snapshots.len() ==> {
            &&& (#[trigger] snapshots[k]).pair@ == pairs[k]
            &&& snapshots[k].latest is None
            &&& snapshots[k].error is None
        }
}

proof fn lemma_with_pair(pairs: Seq<TrackedView>, pair: TrackedView, place: int)
    requires
        0 <= place <= pairs.len(),
        place > 0 ==> pairs[place - 1].end_ms <= pair.end_ms,
        forall|k: int| place <= k < pairs.len() ==> (#[trigger] pairs[k]).end_ms > pair.end_ms,
    ensures
        with_pair(pairs, pair) == pairs.insert(place, pair),
    decreases pairs.len(),
{
    if place == pairs.len() {
        assert(pairs.insert(place, pair) =~= pairs.push(pair));
    } else {
        let rest = pairs.drop_last();
        lemma_with_pair(rest, pair, place);
        assert(rest.insert(place, pair).push(pairs.last()) =~= pairs.insert(place, pair));
    }
}

fn snapshots_by_end(watched: &Vec<TrackedPair>) -> (result: Vec<PairSnapshot>)
    ensures
        fresh_snapshots(result@, by_end(watched@, watched@.len() as int)),
{
    let mut snapshots: Vec<PairSnapshot> = Vec::new();
    let mut i: usize = 0;
    while i < watched.len()
        invariant
            i <= watched@.len(),
            fresh_snapshots(snapshots@, by_end(watched@, i as int)),
        decreases watched@.len() - i,
    {
        let pair = copy_pair(&watched[i].view);
        let ghost order = by_end(watched@, i as int);
        let mut place: usize = snapshots.len();
        while place > 0 && snapshots[place - 1].pair.end_ms > pair.end_ms
            invariant
                place <= snapshots@.len(),
                fresh_snapshots(snapshots@, order),
                forall|k: int|
                    place <= k < order.len() ==> (#[trigger] order[k]).end_ms > pair.end_ms,
            decreases place,
        {
            place = place - 1;
            assert(snapshots@[place as int].pair@ == order[place as int]);
        }
        proof {
            if place > 0 {
                assert(snapshots@[place - 1].pair@ == order[place - 1]);
            }
            lemma_with_pair(order, pair@, place as int);
        }
        snapshots.insert(place, PairSnapshot { pair, latest: None, error: None });
        i = i + 1;
    }
    snapshots
}

/// The place of a slug among the snapshots, from `start` on.
pub open spec fn snapshot_from(pairs: Seq<PairSnapshot>, slug: Seq<char>, start: int) -> Option<int>
    decreases pairs.len() - start,
{
    if start < 0 || start >= pairs.len() {
        None
    } else if pairs[start].pair.slug@ == slug {
        Some(start)
    } else {
        snapshot_from(pairs, slug, start + 1)
    }
}

/// The place of an asset among reference prices, from `start` on.
pub open spec fn reference_from(
    prices: Seq<(String, ReferencePriceView)>,
    asset: Seq<char>,
    start: int,
) -> Option<int>
    decreases prices.len() - start,
{
    if start < 0 || start >= prices.len() {
        None
    } else if prices[start].0@ == asset {
        Some(start)
    } else {
        reference_from(prices, asset, start + 1)
    }
}

/// The reference prices of an asset, where they are known.
pub open spec fn reference_of(prices: Seq<(String, ReferencePriceView)>, asset: Seq<char>) -> Option<
    ReferencePriceView,
> {
    match reference_from(prices, asset, 0) {
        Some(place) => Some(prices[place].1),
        None => None,
    }
}

/// What is remembered between the scans of a run.
#[derive(Debug)]
pub struct ScannerMemory {
    pub paper: PaperState,
    /// The markets whose purchases on Polymarket alone were followed up.
    pub internal: PairTable<bool>,
}

impl ScannerMemory {
    pub fn new() -> (result: ScannerMemory)
        ensures
            result.paper.signals@.dom() == Set::<KeyView>::empty(),
            result.paper.executed@.dom() == Set::<KeyView>::empty(),
            result.internal@ == Map::<KeyView, bool>::empty(),
    {
        ScannerMemory { paper: PaperState::new(), internal: PairTable::new() }
    }
}

/// What is to be done about an observation that was stored.
#[derive(Debug)]
pub struct ScanActions {
    pub direction_a: DirectionActions,
    pub direction_b: DirectionActions,
    /// The orders on Polymarket alone to follow up.
    pub internal: Option<ShadowPlan>,
}

/// The orders on Polymarket alone are followed up once per market, where they are worth it and
/// the pair is tracked.
pub open spec fn internal_decision(
    followed: Map<KeyView, bool>,
    slug: Seq<char>,
    scan: ScanPairResult,
    is_tracked: bool,
) -> Option<ShadowPlan> {
    if internal_followed_up(scan.observation.polymarket_internal) && !followed.contains_key(
        (slug, ""@),
    ) && is_tracked {
        scan.polymarket_internal_plan
    } else {
        None
    }
}

/// What the memory holds after both directions and the orders on Polymarket alone were decided.
pub open spec fn memory_decided(
    before: ScannerMemory,
    after: ScannerMemory,
    actions: ScanActions,
    pair: TrackedView,
    scan: ScanPairResult,
    is_tracked: bool,
) -> bool {
    &&& exists|between: PaperState|
        #![trigger direction_decided(
            before.paper,
            between,
            actions.direction_a,
            pair,
            scan.observation,
            "A"@,
            scan.direction_a_plan,
            trade_of(pair, scan.observation, "A"@)->0,
        )]
        {
            &&& direction_decided(
                before.paper,
                between,
                actions.direction_a,
                pair,
                scan.observation,
                "A"@,
                scan.direction_a_plan,
                trade_of(pair, scan.observation, "A"@)->0,
            )
            &&& direction_decided(
                between,
                after.paper,
                actions.direction_b,
                pair,
                scan.observation,
                "B"@,
                scan.direction_b_plan,
                trade_of(pair, scan.observation, "B"@)->0,
            )
        }
    &&& actions.internal == internal_decision(before.internal@, pair.slug, scan, is_tracked)
    &&& after.internal@ == (if actions.internal is Some {
        before.internal@.insert((pair.slug, ""@), true)
    } else {
        before.internal@
    })
}

/// Whether everything but the pairs and the counts stayed.
pub open spec fn rest_kept(before: DashboardState, after: DashboardState) -> bool {
    &&& after.mode == before.mode
    &&& after.scanner_status == before.scanner_status
    &&& after.last_discovery_ms == before.last_discovery_ms
    &&& after.last_error == before.last_error
    &&& after.reference_prices == before.reference_prices
}

/// The dashboard after an observation of a pair was stored: it is counted and shown.
pub open spec fn scan_shown(
    before: DashboardState,
    after: DashboardState,
    place: int,
    observation: ObservationView,
) -> bool {
    &&& rest_kept(before, after)
    &&& after.observation_count == before.observation_count + 1
    &&& after.opportunity_count == before.opportunity_count + (if shows_opportunity(
        before.pairs@[place].pair@,
        observation,
    ) {
        1int
    } else {
        0int
    })
    &&& after.pairs@ == before.pairs@.update(
        place,
        PairSnapshot {
            pair: before.pairs@[place].pair,
            latest: Some(observation),
            error: None,
        },
    )
}

impl DashboardState {
    /// Takes over the pairs to track: the scanner runs, and the pairs are shown by their end.
    pub fn take_discovery(&mut self, watched: &Vec<TrackedPair>, now_ms: i64)
        ensures
            final(self).mode == old(self).mode,
            final(self).scanner_status@ == "running"@,
            final(self).last_discovery_ms == Some(now_ms),
            final(self).last_error is None,
            fresh_snapshots(final(self).pairs@, by_end(watched@, watched@.len() as int)),
            final(self).observation_count == old(self).observation_count,
            final(self).opportunity_count == old(self).opportunity_count,
            final(self).reference_prices == old(self).reference_prices,
    {
        self.scanner_status = "running".to_owned();
        self.last_discovery_ms = Some(now_ms);
        self.last_error = None;
        self.pairs = snapshots_by_end(watched);
    }

    /// Notes that a discovery failed; the pairs stay as they were.
    pub fn discovery_failed(&mut self, error: String)
        ensures
            final(self).mode == old(self).mode,
            final(self).scanner_status@ == "degraded"@,
            final(self).last_discovery_ms == old(self).last_discovery_ms,
            final(self).last_error == Some(error),
            final(self).pairs == old(self).pairs,
            final(self).observation_count == old(self).observation_count,
            final(self).opportunity_count == old(self).opportunity_count,
            final(self).reference_prices == old(self).reference_prices,
    {
        self.scanner_status = "degraded".to_owned();
        self.last_error = Some(error);
    }

    /// The snapshot of a slug.
    pub fn find_pair(&self, slug: &str) -> (result: Option<usize>)
        ensures
            match result {
                Some(place) => snapshot_from(self.pairs@, slug@, 0) == Some(place as int) && place
                    < self.pairs@.len(),
                None => snapshot_from(self.pairs@, slug@, 0) is None,
            },
    {
        let mut i: usize = 0;
        while i < self.pairs.len()
            invariant
                i <= self.pairs@.len(),
                snapshot_from(self.pairs@, slug@, 0) == snapshot_from(
                    self.pairs@,
                    slug@,
                    i as int,
                ),
            decreases self.pairs@.len() - i,
        {
            if same(self.pairs[i].pair.slug.as_str(), slug) {
                return Some(i);
            }
            i = i + 1;
        }
        None
    }

    /// Shows what went wrong with a pair; its last observation stays.
    pub fn pair_failed(&mut self, place: usize, error: String)
        requires
            place < old(self).pairs@.len(),
        ensures
            rest_kept(*old(self), *final(self)),
            final(self).observation_count == old(self).observation_count,
            final(self).opportunity_count == old(self).opportunity_count,
            final(self).pairs@ == old(self).pairs@.update(
                place as int,
                PairSnapshot { error: Some(error), ..old(self).pairs@[place as int] },
            ),
    {
        self.pairs[place].error = Some(error);
    }

    /// Shows that an observation could not be stored.
    pub fn store_failed(&mut self, place: usize, error: &str)
        requires
            place < old(self).pairs@.len(),
        ensures
            rest_kept(*old(self), *final(self)),
            final(self).observation_count == old(self).observation_count,
            final(self).opportunity_count == old(self).opportunity_count,
            final(self).pairs@.len() == old(self).pairs@.len(),
            forall|k: int|
                0 <= k < old(self).pairs@.len() && k != place ==> final(self).pairs@[k]
                    == #[trigger] old(self).pairs@[k],
            final(self).pairs@[place as int].pair == old(self).pairs@[place as int].pair,
            final(self).pairs@[place as int].latest == old(self).pairs@[place as int].latest,
            text_of(final(self).pairs@[place as int].error) == Some("SQLite："@ + error@),
    {
        let words = "SQLite：".to_owned().concat(error);
        self.pair_failed(place, words);
    }

    /// The place of the reference prices of an asset.
    fn find_reference(&self, asset: &str) -> (result: Option<usize>)
        ensures
            match result {
                Some(place) => reference_from(self.reference_prices@, asset@, 0) == Some(
                    place as int,
                ) && place < self.reference_prices@.len(),
                None => reference_from(self.reference_prices@, asset@, 0) is None,
            },
    {
        let mut i: usize = 0;
        while i < self.reference_prices.len()
            invariant
                i <= self.reference_prices@.len(),
                reference_from(self.reference_prices@, asset@, 0) == reference_from(
                    self.reference_prices@,
                    asset@,
                    i as int,
                ),
            decreases self.reference_prices@.len() - i,
        {
            if same(self.reference_prices[i].0.as_str(), asset) {
                return Some(i);
            }
            i = i + 1;
        }
        None
    }

    /// The reference prices of an asset.
    pub fn reference_for(&self, asset: &str) -> (result: Option<ReferencePriceView>)
        ensures
            result == reference_of(self.reference_prices@, asset@),
    {
        match self.find_reference(asset) {
            Some(place) => {
                let known = &self.reference_prices[place].1;
                Some(
                    ReferencePriceView {
                        binance_spot_price: copy_option(&known.binance_spot_price),
                        binance_observed_at_ms: known.binance_observed_at_ms,
                        polymarket_twap_60s: copy_option(&known.polymarket_twap_60s),
                        polymarket_observed_at_ms: known.polymarket_observed_at_ms,
                        price_difference: copy_option(&known.price_difference),
                    },
                )
            },
            None => None,
        }
    }

    /// Adds to the observation of a pair what the dashboard knows: the reference prices of its
    /// asset and the reasons against trading it.
    pub fn annotate(&self, place: usize, observation: &mut ObservationView)
        requires
            place < self.pairs@.len(),
        ensures
            annotated(
                *final(observation),
                *old(observation),
                self.pairs@[place as int].pair@,
                reference_of(self.reference_prices@, self.pairs@[place as int].pair@.asset),
            ),
    {
        let reference = self.reference_for(self.pairs[place].pair.asset.as_str());
        annotate_observation(observation, &self.pairs[place].pair, &reference);
    }

    /// Takes over an observation that was stored: counts and shows it, and decides what is to be
    /// done about it. `None`, with nothing changed, on overflow.
    pub fn take_scan(
        &mut self,
        memory: &mut ScannerMemory,
        place: usize,
        scan: ScanPairResult,
        is_tracked: bool,
    ) -> (result: Option<ScanActions>)
        requires
            place < old(self).pairs@.len(),
        ensures
            result is None <==> {
                let pair = old(self).pairs@[place as int].pair@;
                ||| trade_of(pair, scan.observation, "A"@) is None
                ||| trade_of(pair, scan.observation, "B"@) is None
                ||| old(self).observation_count == u64::MAX
                ||| old(self).opportunity_count == u64::MAX && shows_opportunity(
                    pair,
                    scan.observation,
                )
            },
            result is None ==> *final(self) == *old(self) && *final(memory) == *old(memory),
            result matches Some(actions) ==> {
                &&& scan_shown(*old(self), *final(self), place as int, scan.observation)
                &&& memory_decided(
                    *old(memory),
                    *final(memory),
                    actions,
                    old(self).pairs@[place as int].pair@,
                    scan,
                    is_tracked,
                )
            },
    {
        let pair = &self.pairs[place].pair;
        let ghost view = pair@;
        let observation = &scan.observation;
        let trade_a = checked_paper_trade(pair, observation, "A")?;
        let trade_b = checked_paper_trade(pair, observation, "B")?;
        let opportunity = has_opportunity(pair, observation);
        if self.observation_count == u64::MAX || (opportunity && self.opportunity_count
            == u64::MAX) {
            return None;
        }
        proof {
            assert(trade_shown(
                trade_a,
                trade_of(view, *observation, "A"@)->0,
                view,
                *observation,
                "A"@,
            ));
            assert(trade_shown(
                trade_b,
                trade_of(view, *observation, "B"@)->0,
                view,
                *observation,
                "B"@,
            ));
        }
        let direction_a = decide_trade(
            &mut memory.paper,
            pair,
            observation,
            "A",
            scan.direction_a_plan,
            trade_a,
        );
        let ghost between = memory.paper;
        let direction_b = decide_trade(
            &mut memory.paper,
            pair,
            observation,
            "B",
            scan.direction_b_plan,
            trade_b,
        );
        let slug = pair.slug.as_str();
        let fresh = memory.internal.get(slug, "").is_none();
        let internal = if internal_is_eligible(observation) && fresh && is_tracked {
            scan.polymarket_internal_plan
        } else {
            None
        };
        if internal.is_some() {
            memory.internal.insert(slug, "", true);
        }
        self.observation_count = self.observation_count + 1;
        if opportunity {
            self.opportunity_count = self.opportunity_count + 1;
        }
        self.pairs[place].latest = Some(scan.observation);
        self.pairs[place].error = None;
        proof {
            assert(self.pairs@ =~= old(self).pairs@.update(
                place as int,
                PairSnapshot {
                    pair: old(self).pairs@[place as int].pair,
                    latest: Some(scan.observation),
                    error: None,
                },
            ));
            assert(scan_shown(*old(self), *self, place as int, scan.observation));
            assert(direction_decided(
                old(memory).paper,
                between,
                direction_a,
                view,
                scan.observation,
                "A"@,
                scan.direction_a_plan,
                trade_of(view, scan.observation, "A"@)->0,
            ));
        }
        Some(ScanActions { direction_a, direction_b, internal })
    }

    /// Puts the reference prices of an asset in place of those that were there.
    fn put_reference(&mut self, asset: &str, reference: ReferencePriceView)
        ensures
            prices_kept(*old(self), *final(self), asset@),
            reference_of(final(self).reference_prices@, asset@) == Some(reference),
    {
        let ghost before = self.reference_prices@;
        match self.find_reference(asset) {
            Some(place) => {
                let name = self.reference_prices[place].0.clone();
                self.reference_prices.set(place, (name, reference));
                proof {
                    lemma_reference_found(before, asset@, 0);
                    lemma_price_put(before, self.reference_prices@, asset@, place as int);
                }
            },
            None => {
                self.reference_prices.push((asset.to_owned(), reference));
                proof {
                    lemma_price_put(
                        before,
                        self.reference_prices@,
                        asset@,
                        before.len() as int,
                    );
                }
            },
        }
    }

    fn reference_or_default(&self, asset: &str) -> (result: ReferencePriceView)
        ensures
            result == known_or_unknown(self.reference_prices@, asset@),
    {
        match self.reference_for(asset) {
            Some(known) => known,
            None => ReferencePriceView::default(),
        }
    }

    /// Takes over a spot price of Binance for an asset; `None`, with nothing changed, on
    /// overflow.
    pub fn note_spot_price(&mut self, asset: &str, price: String, observed_at_ms: i64) -> (result:
        Option<()>)
        ensures
            ({
                let before = known_or_unknown(old(self).reference_prices@, asset@);
                let fresh = difference_of(Some(price@), text_of(before.polymarket_twap_60s));
                &&& result is None <==> fresh is None
                &&& result is None ==> *final(self) == *old(self)
                &&& result is Some ==> {
                    let after = reference_of(final(self).reference_prices@, asset@);
                    &&& after is Some
                    &&& after->0.binance_spot_price == Some(price)
                    &&& after->0.binance_observed_at_ms == Some(observed_at_ms)
                    &&& after->0.polymarket_twap_60s == before.polymarket_twap_60s
                    &&& after->0.polymarket_observed_at_ms == before.polymarket_observed_at_ms
                    &&& text_of(after->0.price_difference) == fresh->0
                    &&& prices_kept(*old(self), *final(self), asset@)
                }
            }),
    {
        let mut reference = self.reference_or_default(asset);
        take_spot_price(&mut reference, price, observed_at_ms)?;
        self.put_reference(asset, reference);
        Some(())
    }

    /// Takes over a message of the price feed for an asset, and says whether it was about it.
    /// Nothing changes where it was not; `None`, with nothing changed, on overflow.
    pub fn note_rtds_event(&mut self, asset: &str, event: &RtdsTwapEvent, symbol: &str) -> (result:
        Option<bool>)
        ensures
            result != Some(true) ==> *final(self) == *old(self),
            ({
                let before = known_or_unknown(old(self).reference_prices@, asset@);
                let after = known_or_unknown(final(self).reference_prices@, asset@);
                &&& took_event(before, after, *event, symbol@, result)
                &&& prices_kept(*old(self), *final(self), asset@)
            }),
    {
        let mut reference = self.reference_or_default(asset);
        let taken = take_rtds_event(&mut reference, event, symbol)?;
        if taken {
            self.put_reference(asset, reference);
        }
        Some(taken)
    }
}

/// The reference prices of an asset, with nothing known where there are none.
pub open spec fn known_or_unknown(
    prices: Seq<(String, ReferencePriceView)>,
    asset: Seq<char>,
) -> ReferencePriceView {
    match reference_of(prices, asset) {
        Some(reference) => reference,
        None => ReferencePriceView {
            binance_spot_price: None,
            binance_observed_at_ms: None,
            polymarket_twap_60s: None,
            polymarket_observed_at_ms: None,
            price_difference: None,
        },
    }
}

/// Whether everything but the reference prices of an asset stayed.
pub open spec fn prices_kept(before: DashboardState, after: DashboardState, asset: Seq<char>) -> bool {
    &&& after.mode == before.mode
    &&& after.scanner_status == before.scanner_status
    &&& after.last_discovery_ms == before.last_discovery_ms
    &&& after.last_error == before.last_error
    &&& after.pairs == before.pairs
    &&& after.observation_count == before.observation_count
    &&& after.opportunity_count == before.opportunity_count
    &&& forall|other: Seq<char>|
        other != asset ==> #[trigger] reference_of(after.reference_prices@, other) == reference_of(
            before.reference_prices@,
            other,
        )
}

proof fn lemma_reference_found(
    prices: Seq<(String, ReferencePriceView)>,
    asset: Seq<char>,
    start: int,
)
    requires
        0 <= start,
    ensures
        match reference_from(prices, asset, start) {
            Some(place) => {
                &&& start <= place < prices.len()
                &&& prices[place].0@ == asset
                &&& forall|i: int| start <= i < place ==> (#[trigger] prices[i]).0@ != asset
            },
            None => forall|i: int| start <= i < prices.len() ==> (#[trigger] prices[i]).0@ != asset,
        },
    decreases prices.len() - start,
{
    if start < prices.len() && prices[start].0@ != asset {
        lemma_reference_found(prices, asset, start + 1);
    }
}

proof fn lemma_reference_at(
    prices: Seq<(String, ReferencePriceView)>,
    asset: Seq<char>,
    start: int,
    place: int,
)
    requires
        0 <= start <= place < prices.len(),
        prices[place].0@ == asset,
        forall|i: int| start <= i < place ==> (#[trigger] prices[i]).0@ != asset,
    ensures
        reference_from(prices, asset, start) == Some(place),
    decreases place - start,
{
    if start < place {
        lemma_reference_at(prices, asset, start + 1, place);
    }
}

proof fn lemma_reference_absent(
    prices: Seq<(String, ReferencePriceView)>,
    asset: Seq<char>,
    start: int,
)
    requires
        0 <= start,
        forall|i: int| start <= i < prices.len() ==> (#[trigger] prices[i]).0@ != asset,
    ensures
        reference_from(prices, asset, start) is None,
    decreases prices.len() - start,
{
    if start < prices.len() {
        lemma_reference_absent(prices, asset, start + 1);
    }
}

/// Putting prices at the place of their asset, or behind all others where it has none, makes
/// them the prices of the asset and leaves those of the others.
proof fn lemma_price_put(
    before: Seq<(String, ReferencePriceView)>,
    after: Seq<(String, ReferencePriceView)>,
    asset: Seq<char>,
    place: int,
)
    requires
        reference_from(before, asset, 0) == (if place < before.len() {
            Some(place)
        } else {
            None
        }),
        0 <= place <= before.len(),
        after.len() == (if place < before.len() {
            before.len()
        } else {
            before.len() + 1
        }),
        after[place].0@ == asset,
        forall|k: int| 0 <= k < before.len() && k != place ==> after[k] == #[trigger] before[k],
    ensures
        reference_of(after, asset) == Some(after[place].1),
        forall|other: Seq<char>|
            other != asset ==> #[trigger] reference_of(after, other) == reference_of(
                before,
                other,
            ),
{
    lemma_reference_found(before, asset, 0);
    assert forall|i: int| 0 <= i < place implies (#[trigger] after[i]).0@ != asset by {
        assert(after[i] == before[i]);
    }
    lemma_reference_at(after, asset, 0, place);
    assert forall|other: Seq<char>| other != asset implies #[trigger] reference_of(after, other)
        == reference_of(before, other) by {
        lemma_reference_found(before, other, 0);
        match reference_from(before, other, 0) {
            Some(at) => {
                assert(at != place);
                assert(after[at] == before[at]);
                assert forall|i: int| 0 <= i < at implies (#[trigger] after[i]).0@ != other by {
                    if i != place {
                        assert(after[i] == before[i]);
                    }
                }
                lemma_reference_at(after, other, 0, at);
            },
            None => {
                assert forall|i: int| 0 <= i < after.len() implies (
                #[trigger] after[i]).0@ != other by {
                    if i != place {
                        assert(after[i] == before[i]);
                    }
                }
                lemma_reference_absent(after, other, 0);
            },
        }
    }
}

/// The dashboard never counts more opportunities than observations.
pub proof fn opportunities_are_observed(
    before: DashboardState,
    after: DashboardState,
    place: int,
    observation: ObservationView,
)
    requires
        scan_shown(before, after, place, observation),
        before.opportunity_count <= before.observation_count,
    ensures
        after.opportunity_count <= after.observation_count,
{
}

/// The orders on Polymarket alone are followed up at most once for a market.
pub proof fn internal_orders_are_followed_up_once(
    before: ScannerMemory,
    after: ScannerMemory,
    actions: ScanActions,
    pair: TrackedView,
    scan: ScanPairResult,
    is_tracked: bool,
)
    requires
        memory_decided(before, after, actions, pair, scan, is_tracked),
    ensures
        actions.internal is Some ==> after.internal@.contains_key((pair.slug, ""@)),
        before.internal@.contains_key((pair.slug, ""@)) ==> actions.internal is None
            && after.internal@.contains_key((pair.slug, ""@)),
{
}

/// Pairs in the order of their ends.
pub open spec fn ends_in_order(pairs: Seq<TrackedView>) -> bool {
    forall|i: int, j: int|
        0 <= i < j < pairs.len() ==> (#[trigger] pairs[i]).end_ms <= (#[trigger] pairs[j]).end_ms
}

proof fn lemma_pair_placed(pairs: Seq<TrackedView>, pair: TrackedView)
    requires
        ends_in_order(pairs),
    ensures
        ends_in_order(with_pair(pairs, pair)),
        with_pair(pairs, pair).to_multiset() == pairs.to_multiset().insert(pair),
        forall|k: int|
            0 <= k < with_pair(pairs, pair).len() ==> #[trigger] with_pair(pairs, pair)[k] == pair
                || pairs.contains(with_pair(pairs, pair)[k]),
    decreases pairs.len(),
{
    broadcast use vstd::seq_lib::group_to_multiset_ensures;

    let placed = with_pair(pairs, pair);
    if pairs.len() == 0 || pairs.last().end_ms <= pair.end_ms {
        assert forall|k: int| 0 <= k < placed.len() implies (#[trigger] placed[k] == pair
            || pairs.contains(placed[k])) by {
            if k < pairs.len() {
                assert(placed[k] == pairs[k]);
            }
        }
        assert forall|i: int, j: int| 0 <= i < j < placed.len() implies (
        #[trigger] placed[i]).end_ms <= (#[trigger] placed[j]).end_ms by {
            assert(placed[i] == pairs[i]);
            if j < pairs.len() {
                assert(placed[j] == pairs[j]);
            } else {
                assert(pairs[i].end_ms <= pairs[pairs.len() - 1].end_ms);
            }
        }
    } else {
        let rest = pairs.drop_last();
        lemma_pair_placed(rest, pair);
        let inner = with_pair(rest, pair);
        assert(pairs =~= rest.push(pairs.last()));
        assert(placed.to_multiset() =~= pairs.to_multiset().insert(pair));
        assert forall|k: int| 0 <= k < placed.len() implies (#[trigger] placed[k] == pair
            || pairs.contains(placed[k])) by {
            if k < inner.len() {
                assert(placed[k] == inner[k]);
                if inner[k] != pair {
                    let at = rest.index_of(inner[k]);
                    assert(pairs[at] == inner[k]);
                }
            } else {
                assert(pairs[pairs.len() - 1] == placed[k]);
            }
        }
        assert forall|i: int, j: int| 0 <= i < j < placed.len() implies (
        #[trigger] placed[i]).end_ms <= (#[trigger] placed[j]).end_ms by {
            assert(placed[i] == inner[i]);
            if j < inner.len() {
                assert(placed[j] == inner[j]);
            } else if inner[i] != pair {
                let at = rest.index_of(inner[i]);
                assert(pairs[at] == inner[i]);
                assert(pairs[at].end_ms <= pairs[pairs.len() - 1].end_ms);
            }
        }
    }
}

/// The pairs are shown in the order of their ends, each tracked pair once.
pub proof fn pairs_are_shown_by_end(watched: Seq<TrackedPair>, count: int)
    requires
        0 <= count <= watched.len(),
    ensures
        ends_in_order(by_end(watched, count)),
        by_end(watched, count).to_multiset() == Seq::new(
            count as nat,
            |k: int| watched[k].view@,
        ).to_multiset(),
    decreases count,
{
    broadcast use vstd::seq_lib::group_to_multiset_ensures;

    let views = |n: nat| Seq::new(n, |k: int| watched[k].view@);
    if count > 0 {
        pairs_are_shown_by_end(watched, count - 1);
        lemma_pair_placed(by_end(watched, count - 1), watched[count - 1].view@);
        assert(views(count as nat) =~= views((count - 1) as nat).push(watched[count - 1].view@));
    } else {
        assert(views(0) =~= Seq::empty());
        assert(by_end(watched, count) =~= Seq::empty());
    }
}

/// How many rows are answered: as many as are asked for, else the usual number, and never more
/// than `most`.
pub fn row_limit(requested: Option<usize>, usual: usize, most: usize) -> (result: usize)
    ensures
        ({
            let wanted = match requested {
                Some(wanted) => wanted,
                None => usual,
            };
            result == if wanted < most {
                wanted
            } else {
                most
            }
        }),
{
    let wanted: usize = match requested {
        Some(wanted) => wanted,
        None => usual,
    };
    if wanted < most {
        wanted
    } else {
        most
    }
}

/// A pair is the last one under its slug up to a place.
pub open spec fn is_last_under_its_slug(discovered: Seq<TrackedPair>, place: int) -> bool {
    &&& 0 <= place < discovered.len()
    &&& forall|i: int|
        place < i < discovered.len() ==> (#[trigger] discovered[i]).view.slug@
            != discovered[place].view.slug@
}

/// Of the pairs that were discovered under one slug the last is tracked, and nothing but
/// discovered pairs is.
pub proof fn the_last_pair_of_a_slug_is_tracked(discovered: Seq<TrackedPair>)
    ensures
        forall|place: int| #[trigger]
            is_last_under_its_slug(discovered, place) ==> tracked_of(discovered).contains(
                discovered[place],
            ),
        forall|k: int|
            0 <= k < tracked_of(discovered).len() ==> discovered.contains(
                #[trigger] tracked_of(discovered)[k],
            ),
    decreases discovered.len(),
{
    if discovered.len() > 0 {
        let rest = discovered.drop_last();
        let last = discovered.len() - 1;
        the_last_pair_of_a_slug_is_tracked(rest);
        let kept = tracked_of(rest);
        let all = tracked_of(discovered);
        let slug = discovered[last].view.slug@;
        lemma_tracked_found(kept, slug, 0);
        match tracked_from(kept, slug, 0) {
            Some(place) => {
                assert(all[place] == discovered[last]);
            },
            None => {
                assert(all[kept.len() as int] == discovered[last]);
            },
        }
        assert forall|place: int| #[trigger]
            is_last_under_its_slug(discovered, place) implies all.contains(discovered[place]) by {
            if place < last {
                assert(rest[place] == discovered[place]);
                assert forall|i: int| place < i < rest.len() implies (
                #[trigger] rest[i]).view.slug@ != rest[place].view.slug@ by {
                    assert(rest[i] == discovered[i]);
                }
                assert(is_last_under_its_slug(rest, place));
                assert(discovered[last].view.slug@ != discovered[place].view.slug@);
                let k = kept.index_of(discovered[place]);
                assert(kept[k] == discovered[place]);
                assert(all[k] == kept[k]);
            }
        }
        assert forall|k: int| 0 <= k < all.len() implies discovered.contains(
            #[trigger] all[k],
        ) by {
            if all[k] != discovered[last] {
                assert(k < kept.len() && all[k] == kept[k]);
                let i = rest.index_of(kept[k]);
                assert(discovered[i] == all[k]);
            }
        }
    }
}

/// A scan decides direction A by the figures of direction A and direction B by those of direction
/// B: a stored trade is named after its direction and follows its signal. The orders on
/// Polymarket alone are followed up exactly where nothing speaks against them, their edge is
/// above nothing, the market is tracked and was not followed up before; other markets are
/// left as they are.
pub proof fn scans_decide_each_direction_by_its_own(
    before: ScannerMemory,
    after: ScannerMemory,
    actions: ScanActions,
    pair: TrackedView,
    scan: ScanPairResult,
    is_tracked: bool,
    other: KeyView,
)
    requires
        memory_decided(before, after, actions, pair, scan, is_tracked),
        trade_of(pair, scan.observation, "A"@) is Some,
        trade_of(pair, scan.observation, "B"@) is Some,
    ensures
        actions.direction_a.store matches Some(trade) ==> trade.direction@ == "A"@
            && trade.slug@ == pair.slug && trade_of(pair, scan.observation, "A"@) matches Some(
            Some(_),
        ),
        actions.direction_b.store matches Some(trade) ==> trade.direction@ == "B"@
            && trade.slug@ == pair.slug && trade_of(pair, scan.observation, "B"@) matches Some(
            Some(_),
        ),
        actions.direction_a.follow_up is Some ==> actions.direction_a.follow_up
            == scan.direction_a_plan,
        actions.direction_b.follow_up is Some ==> actions.direction_b.follow_up
            == scan.direction_b_plan,
        actions.internal is Some <==> {
            &&& scan.observation.polymarket_internal is Some
            &&& scan.observation.polymarket_internal->0.rejections@.len() == 0
            &&& parsed_decimal(scan.observation.polymarket_internal->0.net_edge@) is Some
            &&& parsed_decimal(scan.observation.polymarket_internal->0.net_edge@)->0.units() > 0
            &&& !before.internal@.contains_key((pair.slug, ""@))
            &&& is_tracked
            &&& scan.polymarket_internal_plan is Some
        },
        actions.internal is Some ==> actions.internal == scan.polymarket_internal_plan,
        other != (pair.slug, ""@) ==> (after.internal@.contains_key(other)
            <==> before.internal@.contains_key(other)),
        after.paper.executed@ == before.paper.executed@,
{
    followed_up_purchases_leave_an_edge(scan.observation);
}

/// One more observation is counted and shown for its own pair only, and as an opportunity exactly
/// where it shows one; what else the dashboard holds stays.
pub proof fn scans_show_their_own_pair(
    before: DashboardState,
    after: DashboardState,
    place: int,
    observation: ObservationView,
    other: int,
)
    requires
        scan_shown(before, after, place, observation),
        0 <= place < before.pairs@.len(),
        0 <= other < before.pairs@.len(),
    ensures
        after.pairs@.len() == before.pairs@.len(),
        after.pairs@[place].latest == Some(observation),
        after.pairs@[place].error is None,
        after.pairs@[place].pair == before.pairs@[place].pair,
        other != place ==> after.pairs@[other] == before.pairs@[other],
        after.observation_count == before.observation_count + 1,
        after.opportunity_count - before.opportunity_count == held(
            (before.pairs@[place].pair.classification@ == "exact"@
                || before.pairs@[place].pair.classification@ == "basis"@) && (size_suffices(
                text_of(observation.direction_a_net_edge),
            ) || size_suffices(text_of(observation.direction_b_net_edge))),
        ),
        after.last_error == before.last_error,
        after.reference_prices == before.reference_prices,
{
    opportunities_leave_an_edge(before.pairs@[place].pair@, observation);
}

/// The reference prices of an asset are the first that are kept under its name.
pub proof fn references_are_found_by_asset(
    prices: Seq<(String, ReferencePriceView)>,
    asset: Seq<char>,
)
    ensures
        match reference_of(prices, asset) {
            Some(found) => exists|place: int|
                0 <= place < prices.len() && (#[trigger] prices[place]).0@ == asset
                    && prices[place].1 == found && forall|i: int|
                    0 <= i < place ==> (#[trigger] prices[i]).0@ != asset,
            None => forall|i: int| 0 <= i < prices.len() ==> (#[trigger] prices[i]).0@ != asset,
        },
{
    lemma_reference_is_first(prices, asset, 0);
    if let Some(place) = reference_from(prices, asset, 0) {
        assert(prices[place].0@ == asset);
    }
}

proof fn lemma_reference_is_first(
    prices: Seq<(String, ReferencePriceView)>,
    asset: Seq<char>,
    start: int,
)
    requires
        0 <= start <= prices.len(),
    ensures
        match reference_from(prices, asset, start) {
            Some(place) => {
                &&& start <= place < prices.len()
                &&& prices[place].0@ == asset
                &&& forall|i: int| start <= i < place ==> (#[trigger] prices[i]).0@ != asset
            },
            None => forall|i: int| start <= i < prices.len() ==> (#[trigger] prices[i]).0@ != asset,
        },
    decreases prices.len() - start,
{
    if start < prices.len() {
        lemma_reference_is_first(prices, asset, start + 1);
    }
}

} // verus!
