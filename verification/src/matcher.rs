//! Which markets of two venues are about the same event, and how their rules differ.
use vstd::prelude::*;

use crate::domain::{
    EventIdentity, Market, PairAssessment, PairClassification, ResolutionSpec, ResolutionView,
};
use crate::text::{
    ascii_upper, contrast, contrast_text, is_ascii_text, lists_hold_together, note_if,
    note_is_held, push_note, same, same_option, text_of, texts_of, upper_text, uppercase,
};

verus! {

#[derive(Clone, Copy, Debug, PartialEq, Eq, Structural)]
pub enum SettlementMismatch {
    Oracle,
    TimeWindow,
    ReferencePrice,
    Rule,
    Unknown,
}

impl SettlementMismatch {
    pub open spec fn message_text(self) -> Seq<char> {
        match self {
            SettlementMismatch::Oracle => "oracle 不一致"@,
            SettlementMismatch::TimeWindow => "时间窗口不一致"@,
            SettlementMismatch::ReferencePrice => "参考价格规则不一致"@,
            SettlementMismatch::Rule => "结算规则不一致"@,
            SettlementMismatch::Unknown => "未知结算信息"@,
        }
    }

    /// The mismatch in words.
    pub fn message(&self) -> (result: String)
        ensures
            result@ == self.message_text(),
    {
        match self {
            SettlementMismatch::Oracle => "oracle 不一致".to_owned(),
            SettlementMismatch::TimeWindow => "时间窗口不一致".to_owned(),
            SettlementMismatch::ReferencePrice => "参考价格规则不一致".to_owned(),
            SettlementMismatch::Rule => "结算规则不一致".to_owned(),
            SettlementMismatch::Unknown => "未知结算信息".to_owned(),
        }
    }
}

/// A market on bitcoin, whatever the case of its symbol.
pub open spec fn is_bitcoin(market: Market) -> bool {
    upper_text(market.symbol@) == "BTC"@
}

/// Whether two markets settle on the same event by the same source and rule.
pub open spec fn settlement_verdict(a: Market, b: Market) -> Result<(), SettlementMismatch> {
    if !a.settlement_known() || !b.settlement_known() {
        Err(SettlementMismatch::Unknown)
    } else if !is_bitcoin(a) || !is_bitcoin(b) {
        Err(SettlementMismatch::Unknown)
    } else if a.start_time != b.start_time || a.end_time != b.end_time {
        Err(SettlementMismatch::TimeWindow)
    } else if text_of(a.settlement_source) != text_of(b.settlement_source) {
        Err(SettlementMismatch::Oracle)
    } else if text_of(a.settlement_rule) != text_of(b.settlement_rule) {
        Err(SettlementMismatch::Rule)
    } else {
        Ok(())
    }
}

/// The event that an identity stands for is that of the market.
pub open spec fn identifies(identity: EventIdentity, market: Market) -> bool {
    &&& identity.asset@ == market.symbol@
    &&& identity.start_time == market.start_time
    &&& identity.end_time == market.end_time
    &&& Some(identity.settlement_source@) == text_of(market.settlement_source)
    &&& Some(identity.settlement_rule@) == text_of(market.settlement_rule)
}

/// The common event of two markets that settle alike, or the first thing in which they differ.
pub fn validate_settlement_compatibility(a: &Market, b: &Market) -> (result: Result<
    EventIdentity,
    SettlementMismatch,
>)
    ensures
        match result {
            Ok(identity) => settlement_verdict(*a, *b) is Ok && identifies(identity, *a),
            Err(mismatch) => settlement_verdict(*a, *b) == Err::<(), SettlementMismatch>(mismatch),
        },
        result matches Err(SettlementMismatch::Unknown) && is_ascii_text(a.symbol@)
            && is_ascii_text(b.symbol@) ==> !a.settlement_known() || !b.settlement_known()
            || ascii_upper(a.symbol@) != "BTC"@ || ascii_upper(b.symbol@) != "BTC"@,
{
    let ia = match a.identity() {
        Some(identity) => identity,
        None => return Err(SettlementMismatch::Unknown),
    };
    let ib = match b.identity() {
        Some(identity) => identity,
        None => return Err(SettlementMismatch::Unknown),
    };
    let asset_a = uppercase(ia.asset.as_str());
    let asset_b = uppercase(ib.asset.as_str());
    if !same(asset_a.as_str(), "BTC") || !same(asset_b.as_str(), "BTC") {
        return Err(SettlementMismatch::Unknown);
    }
    if ia.start_time != ib.start_time || ia.end_time != ib.end_time {
        return Err(SettlementMismatch::TimeWindow);
    }
    if ia.settlement_source != ib.settlement_source {
        return Err(SettlementMismatch::Oracle);
    }
    if ia.settlement_rule != ib.settlement_rule {
        return Err(SettlementMismatch::Rule);
    }
    Ok(ia)
}

/// A market without a known settlement source or rule is never accepted.
pub proof fn unknown_settlement_is_refused(a: Market, b: Market)
    requires
        !a.settlement_known() || !b.settlement_known(),
    ensures
        settlement_verdict(a, b) == Err::<(), SettlementMismatch>(SettlementMismatch::Unknown),
{
}

/// The verdict does not depend on the order of the markets, and accepted markets agree on
/// their window, settlement source and settlement rule.
pub proof fn settlement_verdict_is_symmetric(a: Market, b: Market)
    ensures
        settlement_verdict(a, b) == settlement_verdict(b, a),
        settlement_verdict(a, b) is Ok ==> {
            &&& a.start_time == b.start_time
            &&& a.end_time == b.end_time
            &&& text_of(a.settlement_source) == text_of(b.settlement_source)
            &&& text_of(a.settlement_rule) == text_of(b.settlement_rule)
            &&& a.settlement_known()
            &&& is_bitcoin(a) && is_bitcoin(b)
        },
{
}

/// One contrast where the values differ, nothing where they are the same.
pub open spec fn contrast_if(prefix: Seq<char>, left: Seq<char>, right: Seq<char>) -> Seq<
    Seq<char>,
> {
    if left != right {
        seq![contrast(prefix, left, right)]
    } else {
        Seq::empty()
    }
}

/// In what the events themselves differ.
pub open spec fn event_differences(
    start_matches: bool,
    end_matches: bool,
    left: ResolutionView,
    right: ResolutionView,
) -> Seq<Seq<char>> {
    contrast_if("标的不同："@, left.asset, right.asset) + note_if(
        !start_matches || !end_matches,
        "事件时间窗口不同"@,
    )
}

/// In what the resolution rules differ.
pub open spec fn rule_differences(left: ResolutionView, right: ResolutionView) -> Seq<Seq<char>> {
    contrast_if("报价币种不同："@, left.quote_currency, right.quote_currency)
        + contrast_if(
        "价格源提供方不同："@,
        left.price_feed_provider,
        right.price_feed_provider,
    ) + note_if(
        left.price_feed_id != right.price_feed_id,
        "价格源 Feed 不同"@,
    ) + contrast_if("价格计算不同："@, left.calculation, right.calculation)
        + contrast_if("上涨边界不同："@, left.up_comparison, right.up_comparison)
        + contrast_if("相等价格处理不同："@, left.equal_rule, right.equal_rule)
        + note_if(
        left.fallback_rule != right.fallback_rule,
        "价格源故障回退规则不同"@,
    ) + contrast_if("抵押/兑付币种不同："@, left.collateral, right.collateral)
}

/// How a pair is classified, with the differences that say why.
pub open spec fn assessment_of(
    start_matches: bool,
    end_matches: bool,
    left: ResolutionView,
    right: ResolutionView,
) -> (PairClassification, Seq<Seq<char>>) {
    let events = event_differences(start_matches, end_matches, left, right);
    let rules = rule_differences(left, right);
    if events.len() > 0 {
        (PairClassification::Incompatible, events)
    } else if rules.len() > 0 {
        (PairClassification::Basis, rules)
    } else {
        (PairClassification::Exact, rules)
    }
}

fn push_contrast(differences: &mut Vec<String>, prefix: &str, left: &str, right: &str)
    ensures
        texts_of(final(differences)@) == texts_of(old(differences)@) + contrast_if(
            prefix@,
            left@,
            right@,
        ),
{
    if !same(left, right) {
        differences.push(contrast_text(prefix, left, right));
    }
    proof {
        assert(texts_of(differences@) =~= texts_of(old(differences)@) + contrast_if(
            prefix@,
            left@,
            right@,
        ));
    }
}

/// Classifies two markets: incompatible where they are about different events, basis where
/// only their rules differ, exact where nothing does.
pub fn classify_candidate_pair(
    start_matches: bool,
    end_matches: bool,
    left: &ResolutionSpec,
    right: &ResolutionSpec,
) -> (result: PairAssessment)
    ensures
        (result.classification, texts_of(result.differences@)) == assessment_of(
            start_matches,
            end_matches,
            left@,
            right@,
        ),
{
    let mut differences: Vec<String> = Vec::new();
    proof {
        assert(texts_of(differences@) =~= Seq::<Seq<char>>::empty());
    }
    push_contrast(&mut differences, "标的不同：", left.asset.as_str(), right.asset.as_str());
    push_note(&mut differences, !start_matches || !end_matches, "事件时间窗口不同");
    proof {
        assert(texts_of(differences@) =~= event_differences(
            start_matches,
            end_matches,
            left@,
            right@,
        ));
    }
    if differences.len() > 0 {
        return PairAssessment { classification: PairClassification::Incompatible, differences };
    }
    push_contrast(
        &mut differences,
        "报价币种不同：",
        left.quote_currency.as_str(),
        right.quote_currency.as_str(),
    );
    push_contrast(
        &mut differences,
        "价格源提供方不同：",
        left.price_feed_provider.as_str(),
        right.price_feed_provider.as_str(),
    );
    push_note(
        &mut differences,
        !same_option(&left.price_feed_id, &right.price_feed_id),
        "价格源 Feed 不同",
    );
    push_contrast(
        &mut differences,
        "价格计算不同：",
        left.calculation.as_str(),
        right.calculation.as_str(),
    );
    push_contrast(
        &mut differences,
        "上涨边界不同：",
        left.up_comparison.as_str(),
        right.up_comparison.as_str(),
    );
    push_contrast(
        &mut differences,
        "相等价格处理不同：",
        left.equal_rule.as_str(),
        right.equal_rule.as_str(),
    );
    push_note(
        &mut differences,
        !same_option(&left.fallback_rule, &right.fallback_rule),
        "价格源故障回退规则不同",
    );
    push_contrast(
        &mut differences,
        "抵押/兑付币种不同：",
        left.collateral.as_str(),
        right.collateral.as_str(),
    );
    proof {
        assert(texts_of(differences@) =~= rule_differences(left@, right@));
    }
    let classification = if differences.len() == 0 {
        PairClassification::Exact
    } else {
        PairClassification::Basis
    };
    PairAssessment { classification, differences }
}

/// Two resolution specs name the same rules; the asset is not one of them.
pub open spec fn same_rules(left: ResolutionView, right: ResolutionView) -> bool {
    &&& left.quote_currency == right.quote_currency
    &&& left.price_feed_provider == right.price_feed_provider
    &&& left.price_feed_id == right.price_feed_id
    &&& left.calculation == right.calculation
    &&& left.up_comparison == right.up_comparison
    &&& left.equal_rule == right.equal_rule
    &&& left.fallback_rule == right.fallback_rule
    &&& left.collateral == right.collateral
}

/// A pair is incompatible exactly where the asset or the window differs, exact exactly where
/// nothing differs, and basis otherwise; differences are listed exactly where it is not exact.
pub proof fn classification_is_exhaustive(
    start_matches: bool,
    end_matches: bool,
    left: ResolutionView,
    right: ResolutionView,
)
    ensures
        ({
            let (classification, differences) = assessment_of(
                start_matches,
                end_matches,
                left,
                right,
            );
            let same_event = left.asset == right.asset && start_matches && end_matches;
            &&& classification == PairClassification::Incompatible <==> !same_event
            &&& classification == PairClassification::Exact <==> same_event && same_rules(
                left,
                right,
            )
            &&& classification == PairClassification::Basis <==> same_event && !same_rules(
                left,
                right,
            )
            &&& classification == PairClassification::Exact <==> differences.len() == 0
        }),
{
}

/// The classification does not depend on which market is named first.
pub proof fn classification_is_symmetric(
    start_matches: bool,
    end_matches: bool,
    left: ResolutionView,
    right: ResolutionView,
)
    ensures
        assessment_of(start_matches, end_matches, left, right).0 == assessment_of(
            start_matches,
            end_matches,
            right,
            left,
        ).0,
        assessment_of(start_matches, end_matches, left, right).1.len() == assessment_of(
            start_matches,
            end_matches,
            right,
            left,
        ).1.len(),
{
}

/// The first character of a listed difference is that of its label.
proof fn lemma_labels()
    ensures
        ({
            let collateral = "抵押/兑付币种不同"@;
            &&& collateral.len() == 9
            &&& collateral[0] == '抵'
            &&& "抵押/兑付币种不同："@.len() == 10
            &&& forall|i: int| 0 <= i < 9 ==> "抵押/兑付币种不同："@[i] == #[trigger] collateral[i]
            &&& "标的不同："@.len() > 0 && "标的不同："@[0] != '抵'
            &&& "事件时间窗口不同"@.len() > 0 && "事件时间窗口不同"@[0] != '抵'
            &&& "报价币种不同："@.len() > 0 && "报价币种不同："@[0] != '抵'
            &&& "价格源提供方不同："@.len() > 0 && "价格源提供方不同："@[0] != '抵'
            &&& "价格源 Feed 不同"@.len() > 0 && "价格源 Feed 不同"@[0] != '抵'
            &&& "价格计算不同："@.len() > 0 && "价格计算不同："@[0] != '抵'
            &&& "上涨边界不同："@.len() > 0 && "上涨边界不同："@[0] != '抵'
            &&& "相等价格处理不同："@.len() > 0 && "相等价格处理不同："@[0] != '抵'
            &&& "价格源故障回退规则不同"@.len() > 0 && "价格源故障回退规则不同"@[0] != '抵'
        }),
{
    reveal_strlit("抵押/兑付币种不同");
    reveal_strlit("抵押/兑付币种不同：");
    reveal_strlit("标的不同：");
    reveal_strlit("事件时间窗口不同");
    reveal_strlit("报价币种不同：");
    reveal_strlit("价格源提供方不同：");
    reveal_strlit("价格源 Feed 不同");
    reveal_strlit("价格计算不同：");
    reveal_strlit("上涨边界不同：");
    reveal_strlit("相等价格处理不同：");
    reveal_strlit("价格源故障回退规则不同");
}

pub open spec fn is_collateral_note(difference: Seq<char>) -> bool {
    ("抵押/兑付币种不同"@).is_prefix_of(difference)
}

proof fn lemma_other_contrast(prefix: Seq<char>, left: Seq<char>, right: Seq<char>)
    requires
        prefix.len() > 0,
        prefix[0] != '抵',
    ensures
        forall|i: int|
            0 <= i < contrast_if(prefix, left, right).len() ==> !is_collateral_note(
                #[trigger] contrast_if(prefix, left, right)[i],
            ),
{
    lemma_labels();
    let whole = contrast(prefix, left, right);
    assert(whole[0] == prefix[0]);
    if is_collateral_note(whole) {
        assert(whole.subrange(0, "抵押/兑付币种不同"@.len() as int)[0] == whole[0]);
    }
}

proof fn lemma_other_note(applies: bool, note: Seq<char>)
    requires
        note.len() > 0,
        note[0] != '抵',
    ensures
        forall|i: int|
            0 <= i < note_if(applies, note).len() ==> !is_collateral_note(
                #[trigger] note_if(applies, note)[i],
            ),
{
    lemma_labels();
    if is_collateral_note(note) {
        assert(note.subrange(0, "抵押/兑付币种不同"@.len() as int)[0] == note[0]);
    }
}

/// All notes of a list are about the collateral.
pub open spec fn only_collateral(differences: Seq<Seq<char>>) -> bool {
    forall|i: int|
        0 <= i < differences.len() ==> is_collateral_note(#[trigger] differences[i])
}

proof fn lemma_joined(first: Seq<Seq<char>>, second: Seq<Seq<char>>)
    ensures
        only_collateral(first + second) <==> only_collateral(first) && only_collateral(second),
{
    if only_collateral(first + second) {
        assert forall|i: int| 0 <= i < first.len() implies is_collateral_note(
            #[trigger] first[i],
        ) by {
            assert((first + second)[i] == first[i]);
        }
        assert forall|i: int| 0 <= i < second.len() implies is_collateral_note(
            #[trigger] second[i],
        ) by {
            assert((first + second)[first.len() + i] == second[i]);
        }
    }
}

proof fn lemma_collateral_contrast(left: Seq<char>, right: Seq<char>)
    ensures
        only_collateral(contrast_if("抵押/兑付币种不同："@, left, right)),
{
    lemma_labels();
    let whole = contrast("抵押/兑付币种不同："@, left, right);
    assert(whole.subrange(0, "抵押/兑付币种不同"@.len() as int) =~= "抵押/兑付币种不同"@) by {
        assert forall|i: int| 0 <= i < 9 implies whole[i] == "抵押/兑付币种不同"@[i] by {}
    }
}

/// Of all differences that can be listed, exactly those of the collateral are notes about it.
pub proof fn collateral_notes_stand_apart(
    start_matches: bool,
    end_matches: bool,
    left: ResolutionView,
    right: ResolutionView,
)
    ensures
        ({
            let (classification, differences) = assessment_of(
                start_matches,
                end_matches,
                left,
                right,
            );
            only_collateral(differences) <==> {
                &&& left.asset == right.asset
                &&& start_matches && end_matches
                &&& left.quote_currency == right.quote_currency
                &&& left.price_feed_provider == right.price_feed_provider
                &&& left.price_feed_id == right.price_feed_id
                &&& left.calculation == right.calculation
                &&& left.up_comparison == right.up_comparison
                &&& left.equal_rule == right.equal_rule
                &&& left.fallback_rule == right.fallback_rule
            }
        }),
{
    lemma_labels();
    let asset = contrast_if("标的不同："@, left.asset, right.asset);
    let window = note_if(!start_matches || !end_matches, "事件时间窗口不同"@);
    let quote = contrast_if("报价币种不同："@, left.quote_currency, right.quote_currency);
    let provider = contrast_if(
        "价格源提供方不同："@,
        left.price_feed_provider,
        right.price_feed_provider,
    );
    let feed = note_if(left.price_feed_id != right.price_feed_id, "价格源 Feed 不同"@);
    let calculation = contrast_if("价格计算不同："@, left.calculation, right.calculation);
    let boundary = contrast_if("上涨边界不同："@, left.up_comparison, right.up_comparison);
    let equal = contrast_if("相等价格处理不同："@, left.equal_rule, right.equal_rule);
    let fallback = note_if(
        left.fallback_rule != right.fallback_rule,
        "价格源故障回退规则不同"@,
    );
    let collateral = contrast_if("抵押/兑付币种不同："@, left.collateral, right.collateral);
    lemma_other_contrast("标的不同："@, left.asset, right.asset);
    lemma_other_note(!start_matches || !end_matches, "事件时间窗口不同"@);
    lemma_other_contrast("报价币种不同："@, left.quote_currency, right.quote_currency);
    lemma_other_contrast(
        "价格源提供方不同："@,
        left.price_feed_provider,
        right.price_feed_provider,
    );
    lemma_other_note(left.price_feed_id != right.price_feed_id, "价格源 Feed 不同"@);
    lemma_other_contrast("价格计算不同："@, left.calculation, right.calculation);
    lemma_other_contrast("上涨边界不同："@, left.up_comparison, right.up_comparison);
    lemma_other_contrast("相等价格处理不同："@, left.equal_rule, right.equal_rule);
    lemma_other_note(left.fallback_rule != right.fallback_rule, "价格源故障回退规则不同"@);
    lemma_collateral_contrast(left.collateral, right.collateral);
    lemma_joined(asset, window);
    lemma_joined(quote, provider);
    lemma_joined(quote + provider, feed);
    lemma_joined(quote + provider + feed, calculation);
    lemma_joined(quote + provider + feed + calculation, boundary);
    lemma_joined(quote + provider + feed + calculation + boundary, equal);
    lemma_joined(quote + provider + feed + calculation + boundary + equal, fallback);
    lemma_joined(
        quote + provider + feed + calculation + boundary + equal + fallback,
        collateral,
    );
    assert(only_collateral(asset) <==> left.asset == right.asset) by {
        if left.asset != right.asset {
            assert(!is_collateral_note(asset[0]));
        }
    }
    assert(only_collateral(window) <==> start_matches && end_matches) by {
        if !start_matches || !end_matches {
            assert(!is_collateral_note(window[0]));
        }
    }
    assert(only_collateral(quote) <==> left.quote_currency == right.quote_currency) by {
        if left.quote_currency != right.quote_currency {
            assert(!is_collateral_note(quote[0]));
        }
    }
    assert(only_collateral(provider) <==> left.price_feed_provider == right.price_feed_provider) by {
        if left.price_feed_provider != right.price_feed_provider {
            assert(!is_collateral_note(provider[0]));
        }
    }
    assert(only_collateral(feed) <==> left.price_feed_id == right.price_feed_id) by {
        if left.price_feed_id != right.price_feed_id {
            assert(!is_collateral_note(feed[0]));
        }
    }
    assert(only_collateral(calculation) <==> left.calculation == right.calculation) by {
        if left.calculation != right.calculation {
            assert(!is_collateral_note(calculation[0]));
        }
    }
    assert(only_collateral(boundary) <==> left.up_comparison == right.up_comparison) by {
        if left.up_comparison != right.up_comparison {
            assert(!is_collateral_note(boundary[0]));
        }
    }
    assert(only_collateral(equal) <==> left.equal_rule == right.equal_rule) by {
        if left.equal_rule != right.equal_rule {
            assert(!is_collateral_note(equal[0]));
        }
    }
    assert(only_collateral(fallback) <==> left.fallback_rule == right.fallback_rule) by {
        if left.fallback_rule != right.fallback_rule {
            assert(!is_collateral_note(fallback[0]));
        }
    }
}

/// Two markets are accepted exactly where both name a settlement source and rule, both are on
/// bitcoin, and they agree in window, source and rule. A window that differs is told before a
/// source that does, and that before a rule.
pub proof fn settlements_are_compared_rule_by_rule(a: Market, b: Market)
    ensures
        ({
            let verdict = settlement_verdict(a, b);
            let known = a.settlement_source is Some && a.settlement_rule is Some
                && b.settlement_source is Some && b.settlement_rule is Some && upper_text(
                a.symbol@,
            ) == "BTC"@ && upper_text(b.symbol@) == "BTC"@;
            let window = a.start_time == b.start_time && a.end_time == b.end_time;
            let source = text_of(a.settlement_source) == text_of(b.settlement_source);
            let rule = text_of(a.settlement_rule) == text_of(b.settlement_rule);
            &&& verdict is Ok <==> known && window && source && rule
            &&& !known <==> verdict == Err::<(), SettlementMismatch>(SettlementMismatch::Unknown)
            &&& known && !window <==> verdict == Err::<(), SettlementMismatch>(
                SettlementMismatch::TimeWindow,
            )
            &&& known && window && !source <==> verdict == Err::<(), SettlementMismatch>(
                SettlementMismatch::Oracle,
            )
            &&& known && window && source && !rule <==> verdict == Err::<(), SettlementMismatch>(
                SettlementMismatch::Rule,
            )
        }),
{
}

proof fn lemma_contrast_is_held(
    prefix: Seq<char>,
    left: Seq<char>,
    right: Seq<char>,
    text: Seq<char>,
)
    ensures
        contrast_if(prefix, left, right).contains(text) <==> left != right && text == prefix + left
            + " / "@ + right,
{
    if left != right {
        assert(contrast_if(prefix, left, right)[0] == contrast(prefix, left, right));
    }
}

/// Each difference of two events is listed exactly where they differ in it, with both values
/// behind its own label.
pub proof fn event_differences_name_what_differs(
    start_matches: bool,
    end_matches: bool,
    left: ResolutionView,
    right: ResolutionView,
    text: Seq<char>,
)
    ensures
        event_differences(start_matches, end_matches, left, right).contains(text) <==> {
            ||| left.asset != right.asset && text == "标的不同："@ + left.asset + " / "@
                + right.asset
            ||| !(start_matches && end_matches) && text == "事件时间窗口不同"@
        },
{
    let window = !start_matches || !end_matches;
    lemma_contrast_is_held("标的不同："@, left.asset, right.asset, text);
    note_is_held(window, "事件时间窗口不同"@, text);
    lists_hold_together(
        contrast_if("标的不同："@, left.asset, right.asset),
        note_if(window, "事件时间窗口不同"@),
        text,
    );
}

/// Each difference of two rules is listed exactly where they differ in it, with both values
/// behind its own label.
pub proof fn rule_differences_name_what_differs(
    left: ResolutionView,
    right: ResolutionView,
    text: Seq<char>,
)
    ensures
        rule_differences(left, right).contains(text) <==> {
            ||| left.quote_currency != right.quote_currency && text == "报价币种不同："@
                + left.quote_currency + " / "@ + right.quote_currency
            ||| left.price_feed_provider != right.price_feed_provider && text
                == "价格源提供方不同："@ + left.price_feed_provider + " / "@
                + right.price_feed_provider
            ||| left.price_feed_id != right.price_feed_id && text == "价格源 Feed 不同"@
            ||| left.calculation != right.calculation && text == "价格计算不同："@
                + left.calculation + " / "@ + right.calculation
            ||| left.up_comparison != right.up_comparison && text == "上涨边界不同："@
                + left.up_comparison + " / "@ + right.up_comparison
            ||| left.equal_rule != right.equal_rule && text == "相等价格处理不同："@
                + left.equal_rule + " / "@ + right.equal_rule
            ||| left.fallback_rule != right.fallback_rule && text
                == "价格源故障回退规则不同"@
            ||| left.collateral != right.collateral && text == "抵押/兑付币种不同："@
                + left.collateral + " / "@ + right.collateral
        },
{
    let a = contrast_if("报价币种不同："@, left.quote_currency, right.quote_currency);
    let b = contrast_if(
        "价格源提供方不同："@,
        left.price_feed_provider,
        right.price_feed_provider,
    );
    let c = note_if(left.price_feed_id != right.price_feed_id, "价格源 Feed 不同"@);
    let d = contrast_if("价格计算不同："@, left.calculation, right.calculation);
    let e = contrast_if("上涨边界不同："@, left.up_comparison, right.up_comparison);
    let f = contrast_if("相等价格处理不同："@, left.equal_rule, right.equal_rule);
    let g = note_if(left.fallback_rule != right.fallback_rule, "价格源故障回退规则不同"@);
    let h = contrast_if("抵押/兑付币种不同："@, left.collateral, right.collateral);
    lemma_contrast_is_held(
        "报价币种不同："@,
        left.quote_currency,
        right.quote_currency,
        text,
    );
    lemma_contrast_is_held(
        "价格源提供方不同："@,
        left.price_feed_provider,
        right.price_feed_provider,
        text,
    );
    note_is_held(left.price_feed_id != right.price_feed_id, "价格源 Feed 不同"@, text);
    lemma_contrast_is_held("价格计算不同："@, left.calculation, right.calculation, text);
    lemma_contrast_is_held("上涨边界不同："@, left.up_comparison, right.up_comparison, text);
    lemma_contrast_is_held("相等价格处理不同："@, left.equal_rule, right.equal_rule, text);
    note_is_held(left.fallback_rule != right.fallback_rule, "价格源故障回退规则不同"@, text);
    lemma_contrast_is_held("抵押/兑付币种不同："@, left.collateral, right.collateral, text);
    lists_hold_together(a, b, text);
    lists_hold_together(a + b, c, text);
    lists_hold_together(a + b + c, d, text);
    lists_hold_together(a + b + c + d, e, text);
    lists_hold_together(a + b + c + d + e, f, text);
    lists_hold_together(a + b + c + d + e + f, g, text);
    lists_hold_together(a + b + c + d + e + f + g, h, text);
    assert(rule_differences(left, right) == a + b + c + d + e + f + g + h);
}

} // verus!
