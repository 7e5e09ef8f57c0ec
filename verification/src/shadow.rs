//! Simulated executions of planned orders against later books.
use vstd::prelude::*;

use crate::cross::{ShadowPlan, PAPER_MAX_QUANTITY};
use crate::decimal::{decimal_text, view_of, whole, whole_units, Decimal, DecimalView};
use crate::domain::{ladder_view, OrderStatus, PriceLevel};
use crate::execution::{
    budget_quantity_at_step, checked_preflight_pair_fok, checked_quantity_for_budget_at_step,
    exposure_of, fok, pair_reasons, pair_report, preflight_decides_the_hedge, FillView, FokOrderRequest,
    PairFokReport, PairView, RequestView, SimulatedExecutor,
};
use crate::ladder::LevelView;
use crate::pairs::{is_paper_settlement_aligned, settlement_aligned, TrackedPairView, TrackedView};
use crate::scan::{levels_view, LevelsOutcome};
use crate::text::{join, joined, same, text_of, texts_of};

verus! {

/// The name of an order status.
pub open spec fn status_text(status: OrderStatus) -> Seq<char> {
    match status {
        OrderStatus::Detected => "detected"@,
        OrderStatus::Preparing => "preparing"@,
        OrderStatus::Submitting => "submitting"@,
        OrderStatus::PartiallyFilled => "partially_filled"@,
        OrderStatus::FullyFilled => "fully_filled"@,
        OrderStatus::Cancelled => "cancelled"@,
        OrderStatus::Rejected => "rejected"@,
        OrderStatus::Hedged => "hedged"@,
        OrderStatus::Failed => "failed"@,
        OrderStatus::Unhedged => "unhedged"@,
        OrderStatus::Settled => "settled"@,
        OrderStatus::Redeemed => "redeemed"@,
    }
}

/// The name of an order status.
pub fn order_status_name(status: OrderStatus) -> (result: String)
    ensures
        result@ == status_text(status),
{
    match status {
        OrderStatus::Detected => "detected".to_owned(),
        OrderStatus::Preparing => "preparing".to_owned(),
        OrderStatus::Submitting => "submitting".to_owned(),
        OrderStatus::PartiallyFilled => "partially_filled".to_owned(),
        OrderStatus::FullyFilled => "fully_filled".to_owned(),
        OrderStatus::Cancelled => "cancelled".to_owned(),
        OrderStatus::Rejected => "rejected".to_owned(),
        OrderStatus::Hedged => "hedged".to_owned(),
        OrderStatus::Failed => "failed".to_owned(),
        OrderStatus::Unhedged => "unhedged".to_owned(),
        OrderStatus::Settled => "settled".to_owned(),
        OrderStatus::Redeemed => "redeemed".to_owned(),
    }
}

/// The record of a simulated execution, with every number in decimal notation.
#[derive(Clone, Debug)]
pub struct ShadowExecutionView {
    pub id: Option<i64>,
    pub slug: String,
    pub asset: String,
    pub direction: String,
    pub quoted_at_ms: i64,
    pub executed_at_ms: i64,
    pub requested_quantity: String,
    pub first_limit_price: String,
    pub second_limit_price: String,
    pub first_status: String,
    pub first_filled_quantity: String,
    pub first_average_price: Option<String>,
    pub first_total_cost: String,
    pub second_status: String,
    pub second_filled_quantity: String,
    pub second_average_price: Option<String>,
    pub second_total_cost: String,
    pub unhedged_quantity: String,
    pub status: String,
    pub trigger_source: String,
    pub error: Option<String>,
}

/// The reasons that the legs of a pair give, in their order.
pub open spec fn fill_reasons(first: FillView, second: FillView) -> Seq<Seq<char>> {
    let head = match first.reason {
        Some(reason) => seq![reason],
        None => Seq::empty(),
    };
    let tail = match second.reason {
        Some(reason) => seq![reason],
        None => Seq::empty(),
    };
    head + tail
}

/// The reasons of a report in one text, if there are any.
pub open spec fn report_error(report: PairView) -> Option<Seq<char>> {
    let text = joined(fill_reasons(report.first, report.second), "；"@);
    if text.len() > 0 {
        Some(text)
    } else {
        None
    }
}

pub open spec fn optional_text(value: Option<DecimalView>) -> Option<Seq<char>> {
    match value {
        Some(number) => Some(decimal_text(number)),
        None => None,
    }
}

/// A record shows what an execution came to: a report, or why there was none.
pub open spec fn shows_execution(
    record: ShadowExecutionView,
    outcome: Result<PairView, Seq<char>>,
) -> bool {
    match outcome {
        Ok(report) => {
            &&& record.first_status@ == status_text(report.first.status)
            &&& record.first_filled_quantity@ == decimal_text(report.first.filled_quantity)
            &&& text_of(record.first_average_price) == optional_text(report.first.average_price)
            &&& record.first_total_cost@ == decimal_text(report.first.total_cost)
            &&& record.second_status@ == status_text(report.second.status)
            &&& record.second_filled_quantity@ == decimal_text(report.second.filled_quantity)
            &&& text_of(record.second_average_price) == optional_text(report.second.average_price)
            &&& record.second_total_cost@ == decimal_text(report.second.total_cost)
            &&& record.unhedged_quantity@ == decimal_text(report.exposure)
            &&& record.status@ == status_text(report.status)
            &&& text_of(record.error) == report_error(report)
        },
        Err(words) => {
            &&& record.first_status@ == "not_submitted"@
            &&& record.first_filled_quantity@ == "0"@
            &&& record.first_average_price is None
            &&& record.first_total_cost@ == "0"@
            &&& record.second_status@ == "not_submitted"@
            &&& record.second_filled_quantity@ == "0"@
            &&& record.second_average_price is None
            &&& record.second_total_cost@ == "0"@
            &&& record.unhedged_quantity@ == "0"@
            &&& record.status@ == "error"@
            &&& text_of(record.error) == Some(words)
        },
    }
}

/// A record names the orders that were executed, and when.
pub open spec fn execution_of(
    record: ShadowExecutionView,
    pair: TrackedView,
    direction: Seq<char>,
    quoted_at_ms: i64,
    executed_at_ms: i64,
    plan: ShadowPlan,
    trigger_source: Seq<char>,
) -> bool {
    &&& record.id is None
    &&& record.slug@ == pair.slug
    &&& record.asset@ == pair.asset
    &&& record.direction@ == direction
    &&& record.quoted_at_ms == quoted_at_ms
    &&& record.executed_at_ms == executed_at_ms
    &&& record.requested_quantity@ == decimal_text(plan.first_request@.quantity)
    &&& record.first_limit_price@ == decimal_text(plan.first_request@.limit_price)
    &&& record.second_limit_price@ == decimal_text(plan.second_request@.limit_price)
    &&& record.trigger_source@ == trigger_source
}

/// What orders come to on two ladders, or why there are none; the outer `None` is an overflow.
pub open spec fn execution_outcome(plan: ShadowPlan, levels: LevelsOutcome) -> Option<
    Result<PairView, Seq<char>>,
> {
    match levels {
        Err(words) => Some(Err(words)),
        Ok((first, second)) => match pair_report(
            plan.first_request@,
            first,
            plan.second_request@,
            second,
        ) {
            None => None,
            Some(report) => Some(Ok(report)),
        },
    }
}

fn text_option(value: Option<Decimal>) -> (result: Option<String>)
    ensures
        text_of(result) == optional_text(view_of(value)),
{
    match value {
        Some(number) => Some(number.text()),
        None => None,
    }
}

/// The reasons of a report in one text, if there are any.
fn error_text(report: &PairFokReport) -> (result: Option<String>)
    ensures
        text_of(result) == report_error(report@),
{
    let mut reasons: Vec<String> = Vec::new();
    if let Some(reason) = &report.first.reason {
        reasons.push(reason.clone());
    }
    if let Some(reason) = &report.second.reason {
        reasons.push(reason.clone());
    }
    proof {
        assert(texts_of(reasons@) =~= fill_reasons(report@.first, report@.second));
    }
    let text = join(&reasons, "；");
    if text.as_str().unicode_len() > 0 {
        Some(text)
    } else {
        None
    }
}

/// The record of executing orders on two ladders; `None` on overflow.
pub fn shadow_record(
    pair: &TrackedPairView,
    direction: &str,
    quoted_at_ms: i64,
    executed_at_ms: i64,
    plan: ShadowPlan,
    levels: Result<(Vec<PriceLevel>, Vec<PriceLevel>), String>,
    trigger_source: &str,
) -> (result: Option<ShadowExecutionView>)
    ensures
        match execution_outcome(plan, levels_view(levels)) {
            None => result is None,
            Some(outcome) => result matches Some(record) && execution_of(
                record,
                pair@,
                direction@,
                quoted_at_ms,
                executed_at_ms,
                plan,
                trigger_source@,
            ) && shows_execution(record, outcome),
        },
{
    match levels {
        Ok((first_levels, second_levels)) => {
            let mut executor = SimulatedExecutor::default();
            let report = executor.checked_execute_pair_fok(
                plan.first_request,
                first_levels.as_slice(),
                plan.second_request,
                second_levels.as_slice(),
            )?;
            Some(
                ShadowExecutionView {
                    id: None,
                    slug: pair.slug.clone(),
                    asset: pair.asset.clone(),
                    direction: direction.to_owned(),
                    quoted_at_ms,
                    executed_at_ms,
                    requested_quantity: plan.first_request.quantity.text(),
                    first_limit_price: plan.first_request.limit_price.text(),
                    second_limit_price: plan.second_request.limit_price.text(),
                    first_status: order_status_name(report.first.status),
                    first_filled_quantity: report.first.filled_quantity.text(),
                    first_average_price: text_option(report.first.average_price),
                    first_total_cost: report.first.total_cost.text(),
                    second_status: order_status_name(report.second.status),
                    second_filled_quantity: report.second.filled_quantity.text(),
                    second_average_price: text_option(report.second.average_price),
                    second_total_cost: report.second.total_cost.text(),
                    unhedged_quantity: report.hedge.exposure.text(),
                    status: order_status_name(report.status),
                    trigger_source: trigger_source.to_owned(),
                    error: error_text(&report),
                },
            )
        },
        Err(error) => Some(
            ShadowExecutionView {
                id: None,
                slug: pair.slug.clone(),
                asset: pair.asset.clone(),
                direction: direction.to_owned(),
                quoted_at_ms,
                executed_at_ms,
                requested_quantity: plan.first_request.quantity.text(),
                first_limit_price: plan.first_request.limit_price.text(),
                second_limit_price: plan.second_request.limit_price.text(),
                first_status: "not_submitted".to_owned(),
                first_filled_quantity: "0".to_owned(),
                first_average_price: None,
                first_total_cost: "0".to_owned(),
                second_status: "not_submitted".to_owned(),
                second_filled_quantity: "0".to_owned(),
                second_average_price: None,
                second_total_cost: "0".to_owned(),
                unhedged_quantity: "0".to_owned(),
                status: "error".to_owned(),
                trigger_source: trigger_source.to_owned(),
                error: Some(error),
            },
        ),
    }
}

/// What a follow-up executes on: the ladders that came with a time, or why none came.
pub open spec fn loaded_levels(
    loaded: Result<(Vec<PriceLevel>, Vec<PriceLevel>, i64), String>,
) -> LevelsOutcome {
    match loaded {
        Ok((first, second, _)) => Ok((ladder_view(first@), ladder_view(second@))),
        Err(words) => Err(words@),
    }
}

/// When a follow-up executes: when its ladders came, or when it began if none came.
pub open spec fn execution_time(
    loaded: Result<(Vec<PriceLevel>, Vec<PriceLevel>, i64), String>,
    started_at_ms: i64,
) -> i64 {
    match loaded {
        Ok((_, _, observed_at_ms)) => observed_at_ms,
        Err(_) => started_at_ms,
    }
}

/// The record of following up orders of a direction on both venues; `None` on overflow.
pub fn automatic_shadow(
    pair: &TrackedPairView,
    direction: &str,
    quoted_at_ms: i64,
    started_at_ms: i64,
    plan: ShadowPlan,
    loaded: Result<(Vec<PriceLevel>, Vec<PriceLevel>, i64), String>,
) -> (result: Option<ShadowExecutionView>)
    ensures
        match execution_outcome(plan, loaded_levels(loaded)) {
            None => result is None,
            Some(outcome) => result matches Some(record) && execution_of(
                record,
                pair@,
                direction@,
                quoted_at_ms,
                execution_time(loaded, started_at_ms),
                plan,
                "automatic"@,
            ) && shows_execution(record, outcome),
        },
{
    match loaded {
        Ok((first, second, observed_at_ms)) => shadow_record(
            pair,
            direction,
            quoted_at_ms,
            observed_at_ms,
            plan,
            Ok((first, second)),
            "automatic",
        ),
        Err(error) => shadow_record(
            pair,
            direction,
            quoted_at_ms,
            started_at_ms,
            plan,
            Err(error),
            "automatic",
        ),
    }
}

/// The record of following up orders for both outcomes on Polymarket; `None` on overflow.
pub fn automatic_internal_shadow(
    pair: &TrackedPairView,
    quoted_at_ms: i64,
    started_at_ms: i64,
    plan: ShadowPlan,
    loaded: Result<(Vec<PriceLevel>, Vec<PriceLevel>, i64), String>,
) -> (result: Option<ShadowExecutionView>)
    ensures
        match execution_outcome(plan, loaded_levels(loaded)) {
            None => result is None,
            Some(outcome) => result matches Some(record) && execution_of(
                record,
                pair@,
                "PM_INTERNAL"@,
                quoted_at_ms,
                execution_time(loaded, started_at_ms),
                plan,
                "automatic_polymarket_internal_250ms"@,
            ) && shows_execution(record, outcome),
        },
{
    match loaded {
        Ok((first, second, observed_at_ms)) => shadow_record(
            pair,
            "PM_INTERNAL",
            quoted_at_ms,
            observed_at_ms,
            plan,
            Ok((first, second)),
            "automatic_polymarket_internal_250ms",
        ),
        Err(error) => shadow_record(
            pair,
            "PM_INTERNAL",
            quoted_at_ms,
            started_at_ms,
            plan,
            Err(error),
            "automatic_polymarket_internal_250ms",
        ),
    }
}

/// A simulated execution on live books.
#[derive(Clone, Debug)]
pub struct LiveFokSimulation {
    pub slug: String,
    pub direction: String,
    pub quoted_at_ms: i64,
    pub executed_at_ms: i64,
    pub first_request: FokOrderRequest,
    pub second_request: FokOrderRequest,
    pub report: PairFokReport,
}

/// Whether a simulation can be asked for: not both a quantity and a budget, in a direction that
/// exists.
pub open spec fn request_outcome(
    direction: Seq<char>,
    has_quantity: bool,
    has_budget: bool,
) -> Result<(), Seq<char>> {
    if has_quantity && has_budget {
        Err("份数和预算只能指定一个"@)
    } else if direction != "A"@ && direction != "B"@ {
        Err("方向只能是 A 或 B"@)
    } else {
        Ok(())
    }
}

/// Whether a simulation can be asked for.
pub fn check_simulation_request(
    direction: &str,
    quantity: Option<Decimal>,
    budget: Option<Decimal>,
) -> (result: Result<(), String>)
    ensures
        match result {
            Ok(_) => request_outcome(direction@, quantity is Some, budget is Some) == Ok::<
                (),
                Seq<char>,
            >(()),
            Err(error) => request_outcome(direction@, quantity is Some, budget is Some) == Err::<
                (),
                Seq<char>,
            >(error@),
        },
{
    if quantity.is_some() && budget.is_some() {
        return Err("份数和预算只能指定一个".to_owned());
    }
    if !same(direction, "A") && !same(direction, "B") {
        return Err("方向只能是 A 或 B".to_owned());
    }
    Ok(())
}

/// Whether a pair can be simulated: it must settle alike.
pub fn check_simulated_pair(pair: &Option<TrackedPairView>, asset: &str) -> (result: Result<
    (),
    String,
>)
    ensures
        match result {
            Ok(_) => *pair matches Some(view) && settlement_aligned(view@),
            Err(error) => !(*pair matches Some(view) && settlement_aligned(view@)) && error@
                == "当前 "@ + asset@ + " 1h 市场的结算规则未对齐"@,
        },
{
    let aligned = match pair {
        Some(view) => is_paper_settlement_aligned(view),
        None => false,
    };
    if aligned {
        Ok(())
    } else {
        Err("当前 ".to_owned().concat(asset).concat(" 1h 市场的结算规则未对齐"))
    }
}

/// The limit price of a leg: as it is given, else the best ask.
pub open spec fn limit_of(given: Option<DecimalView>, asks: Seq<LevelView>) -> Option<DecimalView> {
    match given {
        Some(limit) => Some(limit),
        None => if asks.len() > 0 {
            Some(asks[0].price)
        } else {
            None
        },
    }
}

/// The quantity of both legs: as it is given, else what the budget buys, else the largest
/// quantity that is simulated. The outer `None` is an overflow.
pub open spec fn quantity_of(
    quantity: Option<DecimalView>,
    budget: Option<DecimalView>,
    first_limit: DecimalView,
    second_limit: DecimalView,
    step: DecimalView,
) -> Option<Option<DecimalView>> {
    match (quantity, budget) {
        (Some(quantity), _) => Some(Some(quantity)),
        (None, Some(budget)) => budget_quantity_at_step(budget, first_limit, second_limit, step),
        (None, None) => Some(Some(whole(PAPER_MAX_QUANTITY as int))),
    }
}

/// The orders of a simulation on the quoted books, once they pass the preflight there. The
/// outer `None` is an overflow.
pub open spec fn simulation_plan(
    first_asks: Seq<LevelView>,
    second_asks: Seq<LevelView>,
    quantity: Option<DecimalView>,
    budget: Option<DecimalView>,
    first_limit: Option<DecimalView>,
    second_limit: Option<DecimalView>,
    step: DecimalView,
) -> Option<Result<(RequestView, RequestView), Seq<char>>> {
    match (limit_of(first_limit, first_asks), limit_of(second_limit, second_asks)) {
        (None, _) => Some(Err("第一腿没有卖盘"@)),
        (_, None) => Some(Err("第二腿没有卖盘"@)),
        (Some(first_limit), Some(second_limit)) => match quantity_of(
            quantity,
            budget,
            first_limit,
            second_limit,
            step,
        ) {
            None => None,
            Some(None) => Some(Err("预算、限价或数量步长无效"@)),
            Some(Some(quantity)) => {
                let first = RequestView { quantity, limit_price: first_limit };
                let second = RequestView { quantity, limit_price: second_limit };
                match pair_reasons(first, first_asks, second, second_asks) {
                    None => None,
                    Some(reasons) => if reasons.len() > 0 {
                        Some(Err("提交前预检拒绝："@ + joined(reasons, "；"@)))
                    } else {
                        Some(Ok((first, second)))
                    },
                }
            },
        },
    }
}

fn limit_for(given: Option<Decimal>, asks: &Vec<PriceLevel>) -> (result: Option<Decimal>)
    ensures
        view_of(result) == limit_of(view_of(given), ladder_view(asks@)),
{
    match given {
        Some(limit) => Some(limit),
        None => {
            if asks.len() > 0 {
                proof {
                    assert(ladder_view(asks@)[0].price == asks@[0].price@);
                }
                Some(asks[0].price)
            } else {
                None
            }
        },
    }
}

/// The orders of a simulation on the quoted books; the outer `None` is an overflow.
pub fn plan_simulation(
    quoted_first: &Vec<PriceLevel>,
    quoted_second: &Vec<PriceLevel>,
    quantity: Option<Decimal>,
    budget: Option<Decimal>,
    first_limit: Option<Decimal>,
    second_limit: Option<Decimal>,
    quantity_step: Decimal,
) -> (result: Option<Result<ShadowPlan, String>>)
    ensures
        match simulation_plan(
            ladder_view(quoted_first@),
            ladder_view(quoted_second@),
            view_of(quantity),
            view_of(budget),
            view_of(first_limit),
            view_of(second_limit),
            quantity_step@,
        ) {
            None => result is None,
            Some(Err(words)) => result matches Some(Err(error)) && error@ == words,
            Some(Ok((first, second))) => result matches Some(Ok(plan)) && plan.first_request@
                == first && plan.second_request@ == second,
        },
{
    let first_limit = match limit_for(first_limit, quoted_first) {
        Some(limit) => limit,
        None => return Some(Err("第一腿没有卖盘".to_owned())),
    };
    let second_limit = match limit_for(second_limit, quoted_second) {
        Some(limit) => limit,
        None => return Some(Err("第二腿没有卖盘".to_owned())),
    };
    let quantity = match (quantity, budget) {
        (Some(quantity), _) => quantity,
        (None, Some(budget)) => {
            match checked_quantity_for_budget_at_step(
                budget,
                first_limit,
                second_limit,
                quantity_step,
            )? {
                Some(quantity) => quantity,
                None => return Some(Err("预算、限价或数量步长无效".to_owned())),
            }
        },
        (None, None) => Decimal::from_i64(PAPER_MAX_QUANTITY),
    };
    let first_request = FokOrderRequest { quantity, limit_price: first_limit };
    let second_request = FokOrderRequest { quantity, limit_price: second_limit };
    match checked_preflight_pair_fok(
        first_request,
        quoted_first.as_slice(),
        second_request,
        quoted_second.as_slice(),
    )? {
        Ok(_) => Some(Ok(ShadowPlan { first_request, second_request })),
        Err(reasons) => Some(
            Err("提交前预检拒绝：".to_owned().concat(join(&reasons, "；").as_str())),
        ),
    }
}

/// What a simulation comes to on the books at execution; `None` on overflow.
pub fn finish_simulation(
    slug: &str,
    direction: &str,
    quoted_at_ms: i64,
    executed_at_ms: i64,
    plan: ShadowPlan,
    execution_first: &Vec<PriceLevel>,
    execution_second: &Vec<PriceLevel>,
) -> (result: Option<LiveFokSimulation>)
    ensures
        match pair_report(
            plan.first_request@,
            ladder_view(execution_first@),
            plan.second_request@,
            ladder_view(execution_second@),
        ) {
            None => result is None,
            Some(report) => result matches Some(simulation) && {
                &&& simulation.report@ == report
                &&& simulation.slug@ == slug@
                &&& simulation.direction@ == direction@
                &&& simulation.quoted_at_ms == quoted_at_ms
                &&& simulation.executed_at_ms == executed_at_ms
                &&& simulation.first_request == plan.first_request
                &&& simulation.second_request == plan.second_request
            },
        },
{
    let mut executor = SimulatedExecutor::default();
    let report = executor.checked_execute_pair_fok(
        plan.first_request,
        execution_first.as_slice(),
        plan.second_request,
        execution_second.as_slice(),
    )?;
    Some(
        LiveFokSimulation {
            slug: slug.to_owned(),
            direction: direction.to_owned(),
            quoted_at_ms,
            executed_at_ms,
            first_request: plan.first_request,
            second_request: plan.second_request,
            report,
        },
    )
}

/// Both orders of a simulation are for the same quantity, and on the quoted books they would
/// both be filled.
pub proof fn planned_orders_fill_as_quoted(
    first_asks: Seq<LevelView>,
    second_asks: Seq<LevelView>,
    quantity: Option<DecimalView>,
    budget: Option<DecimalView>,
    first_limit: Option<DecimalView>,
    second_limit: Option<DecimalView>,
    step: DecimalView,
    first: RequestView,
    second: RequestView,
)
    requires
        simulation_plan(
            first_asks,
            second_asks,
            quantity,
            budget,
            first_limit,
            second_limit,
            step,
        ) == Some(Ok::<(RequestView, RequestView), Seq<char>>((first, second))),
        first.quantity.valid(),
    ensures
        first.quantity == second.quantity,
        pair_report(first, first_asks, second, second_asks) matches Some(report) && report.status
            == OrderStatus::Hedged,
{
    let reasons = pair_reasons(first, first_asks, second, second_asks)->0;
    preflight_decides_the_hedge(first, first_asks, second, second_asks, reasons);
}

/// The orders of a simulation are for the quantity that is given, else for what the budget buys,
/// else for ten; each at the limit that is given for its leg, else at the first ask of its leg.
pub proof fn planned_orders_are_as_asked_for(
    first_asks: Seq<LevelView>,
    second_asks: Seq<LevelView>,
    quantity: Option<DecimalView>,
    budget: Option<DecimalView>,
    first_limit: Option<DecimalView>,
    second_limit: Option<DecimalView>,
    step: DecimalView,
    first: RequestView,
    second: RequestView,
)
    requires
        simulation_plan(
            first_asks,
            second_asks,
            quantity,
            budget,
            first_limit,
            second_limit,
            step,
        ) == Some(Ok::<(RequestView, RequestView), Seq<char>>((first, second))),
    ensures
        first.quantity == second.quantity,
        first_limit matches Some(limit) ==> first.limit_price == limit,
        second_limit matches Some(limit) ==> second.limit_price == limit,
        first_limit is None ==> first_asks.len() > 0 && first.limit_price == first_asks[0].price,
        second_limit is None ==> second_asks.len() > 0 && second.limit_price
            == second_asks[0].price,
        quantity matches Some(given) ==> first.quantity == given,
        quantity is None && budget is Some ==> budget_quantity_at_step(
            budget->0,
            first.limit_price,
            second.limit_price,
            step,
        ) == Some(Some(first.quantity)),
        quantity is None && budget is None ==> first.quantity.units() == 10 * whole(1).units(),
{
    whole_units(10);
}

/// A simulation can be asked for exactly in direction A or B and not with both a quantity and a
/// budget.
pub proof fn simulations_need_one_size_and_a_direction(
    direction: Seq<char>,
    has_quantity: bool,
    has_budget: bool,
)
    ensures
        request_outcome(direction, has_quantity, has_budget) is Ok <==> (direction == "A"@
            || direction == "B"@) && !(has_quantity && has_budget),
{
}

/// An execution that had no books bought nothing and says why; one that had books shows both
/// fills as they came, each under its own leg.
pub proof fn executions_show_their_fills(
    record: ShadowExecutionView,
    plan: ShadowPlan,
    levels: LevelsOutcome,
    outcome: Result<PairView, Seq<char>>,
)
    requires
        execution_outcome(plan, levels) == Some(outcome),
        shows_execution(record, outcome),
    ensures
        levels matches Err(words) ==> record.status@ == "error"@ && text_of(record.error) == Some(
            words,
        ) && record.first_filled_quantity@ == "0"@ && record.second_filled_quantity@ == "0"@
            && record.first_total_cost@ == "0"@ && record.second_total_cost@ == "0"@,
        levels matches Ok((first_asks, second_asks)) ==> {
            let first = fok(plan.first_request@, first_asks);
            let second = fok(plan.second_request@, second_asks);
            &&& first is Some && second is Some
            &&& record.first_status@ == status_text(first->0.status)
            &&& record.second_status@ == status_text(second->0.status)
            &&& record.first_filled_quantity@ == decimal_text(first->0.filled_quantity)
            &&& record.second_filled_quantity@ == decimal_text(second->0.filled_quantity)
            &&& record.first_total_cost@ == decimal_text(first->0.total_cost)
            &&& record.second_total_cost@ == decimal_text(second->0.total_cost)
            &&& text_of(record.first_average_price) == optional_text(first->0.average_price)
            &&& text_of(record.second_average_price) == optional_text(second->0.average_price)
            &&& exists|exposure: DecimalView|
                record.unhedged_quantity@ == #[trigger] decimal_text(exposure) && exposure_of(
                    first->0.filled_quantity,
                    second->0.filled_quantity,
                ) == Some(exposure)
            &&& first->0.reason is None && second->0.reason is None ==> record.error is None
        },
{
    if let Ok((first_asks, second_asks)) = levels {
        let report = outcome->Ok_0;
        let first = fok(plan.first_request@, first_asks)->0;
        let second = fok(plan.second_request@, second_asks)->0;
        assert(record.unhedged_quantity@ == decimal_text(report.exposure));
        if first.reason is None && second.reason is None {
            assert(fill_reasons(first, second) =~= Seq::<Seq<char>>::empty());
            assert(joined(fill_reasons(first, second), "；"@).len() == 0);
        }
    }
}

/// A record is of the moment the books were seen, or of the start where they could not be had; it
/// shows the quantity that both legs were asked for and each leg's own limit.
pub proof fn executions_show_their_orders(
    record: ShadowExecutionView,
    pair: TrackedView,
    direction: Seq<char>,
    quoted_at_ms: i64,
    started_at_ms: i64,
    loaded: Result<(Vec<PriceLevel>, Vec<PriceLevel>, i64), String>,
    plan: ShadowPlan,
    trigger_source: Seq<char>,
)
    requires
        execution_of(
            record,
            pair,
            direction,
            quoted_at_ms,
            execution_time(loaded, started_at_ms),
            plan,
            trigger_source,
        ),
    ensures
        loaded matches Ok((_, _, seen_at_ms)) ==> record.executed_at_ms == seen_at_ms,
        loaded is Err ==> record.executed_at_ms == started_at_ms,
        loaded matches Ok((first, second, _)) ==> loaded_levels(loaded) == Ok::<
            (Seq<LevelView>, Seq<LevelView>),
            Seq<char>,
        >((ladder_view(first@), ladder_view(second@))),
        record.quoted_at_ms == quoted_at_ms,
        record.slug@ == pair.slug,
        record.asset@ == pair.asset,
        record.direction@ == direction,
        record.trigger_source@ == trigger_source,
        record.requested_quantity@ == decimal_text(plan.first_request@.quantity),
        record.first_limit_price@ == decimal_text(plan.first_request@.limit_price),
        record.second_limit_price@ == decimal_text(plan.second_request@.limit_price),
{
}

} // verus!
