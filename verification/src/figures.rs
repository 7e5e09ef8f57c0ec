//! The figures of positions and purchases as equations between amounts, up to the rounding of
//! each step.
use vstd::prelude::*;

use crate::basis::{
    basis_points_of, capacity, consumed, entry_figures, funded, perpetual_basis, shows_basis,
    BasisFigures, BinanceBasisView, EntryFigures,
};
use crate::cross::{
    capital_cost, costed_quantity_fills, cross, cross_purchase_is_that_of_its_orders, fok_cost,
    internal, polymarket_fee, purchase_size, shows_internal, shows_purchase, tradable_price,
    BinanceInternalView, CrossCalculation, PurchaseFigures,
};
use crate::decimal::{
    decimal_text, difference, difference_miss, has_quotient, is_quotient, minus, over,
    plain_notation, positive_units, pow10, product, product_miss, quotient, quotient_miss,
    quotients_are_close, size_of_number, sum, sum_miss, times, whole, whole_units, within_rounding,
    DecimalView, MANTISSA_LIMIT,
};
use crate::delivery::{
    delivery_basis, held_to_delivery, shows_delivery, BinanceDeliveryBasisView, DeliveryFigures,
};
use crate::domain::OrderStatus;
use crate::execution::{fok, whole_steps, RequestView};
use crate::ladder::{depth, LevelView};
use crate::text::texts_of;

verus! {

/// Two amounts differ by at most `slack`.
pub open spec fn close(x: int, y: int, slack: int) -> bool {
    -slack <= x - y <= slack
}

/// A value in units of units, which is what products and quotients are compared in.
pub open spec fn fine(value: DecimalView) -> int {
    value.units() * whole(1).units()
}

proof fn lemma_close_times(x: int, y: int, slack: int, factor: int)
    requires
        close(x, y, slack),
        factor >= 0,
    ensures
        close(x * factor, y * factor, slack * factor),
{
    assert(close(x * factor, y * factor, slack * factor)) by (nonlinear_arith)
        requires
            -slack <= x - y <= slack,
            factor >= 0,
    ;
}

proof fn lemma_fine_sum(a: DecimalView, b: DecimalView, total: DecimalView)
    requires
        sum(a, b) == Some(total),
    ensures
        close(fine(total), fine(a) + fine(b), sum_miss(a, b) * whole(1).units()),
{
    whole_units(1);
    let (t, x, y, k) = (total.units(), a.units(), b.units(), whole(1).units());
    lemma_close_times(t, x + y, sum_miss(a, b), k);
    assert((x + y) * k == x * k + y * k) by (nonlinear_arith);
}

proof fn lemma_fine_difference(a: DecimalView, b: DecimalView, rest: DecimalView)
    requires
        difference(a, b) == Some(rest),
    ensures
        close(fine(rest), fine(a) - fine(b), difference_miss(a, b) * whole(1).units()),
{
    whole_units(1);
    let (t, x, y, k) = (rest.units(), a.units(), b.units(), whole(1).units());
    lemma_close_times(t, x - y, difference_miss(a, b), k);
    assert((x - y) * k == x * k - y * k) by (nonlinear_arith);
}

proof fn lemma_fine_multiple(a: DecimalView, count: int, result: DecimalView)
    requires
        product(a, whole(count)) == Some(result),
    ensures
        close(fine(result), count * fine(a), product_miss(a, whole(count))),
{
    whole_units(count);
    let (x, k) = (a.units(), whole(1).units());
    assert(x * (count * k) == count * (x * k)) by (nonlinear_arith);
}

proof fn lemma_fine_share(a: DecimalView, count: int, result: DecimalView)
    requires
        quotient(a, whole(count)) == Some(result),
    ensures
        close(count * fine(result), fine(a), quotient_miss(a, whole(count))),
        within_rounding(quotient_miss(a, whole(count)), whole(count), result),
{
    whole_units(count);
    quotients_are_close(a, whole(count), result);
    let (x, k) = (result.units(), whole(1).units());
    assert(x * (count * k) == count * (x * k)) by (nonlinear_arith);
}

/// By how much a number of basis points of an amount is rounded.
pub open spec fn points_miss(amount: DecimalView, points: int) -> int {
    product_miss(amount, whole(points)) + quotient_miss(
        product(amount, whole(points))->0,
        whole(10_000),
    )
}

/// Ten thousand times what some basis points of an amount come to is that many times the amount.
pub proof fn basis_points_are_ten_thousandths(
    amount: DecimalView,
    points: int,
    value: DecimalView,
)
    requires
        basis_points_of(Some(amount), points) == Some(value),
    ensures
        close(10_000 * fine(value), points * fine(amount), points_miss(amount, points)),
{
    let multiple = product(amount, whole(points))->0;
    lemma_fine_multiple(amount, points, multiple);
    lemma_fine_share(multiple, 10_000, value);
}

/// By how much the fees of an entry are rounded.
pub open spec fn fees_miss(spot_cost: DecimalView, proceeds: DecimalView) -> int {
    let spot_part = product(spot_cost, whole(20))->0;
    let contract_part = product(proceeds, whole(10))->0;
    product_miss(spot_cost, whole(20)) + product_miss(proceeds, whole(10)) + sum_miss(
        spot_part,
        contract_part,
    ) * whole(1).units() + quotient_miss(sum(spot_part, contract_part)->0, whole(10_000))
}

/// By how much the slippage of an entry is rounded.
pub open spec fn slippage_miss(spot_cost: DecimalView, proceeds: DecimalView) -> int {
    10 * (sum_miss(spot_cost, proceeds) * whole(1).units()) + points_miss(
        sum(spot_cost, proceeds)->0,
        10,
    )
}

/// What an entry is made of: the basis is what the contract brings less what the spot costs, and
/// the rate of the basis is its part of that cost; the average prices are those at which the
/// quantity costs and brings what it does; the fees of both ways are 20 basis points of the
/// spot side and 10 of the contract side, the slippage 10 basis points of both.
pub proof fn entries_add_up(
    quantity: DecimalView,
    spot_cost: DecimalView,
    proceeds: DecimalView,
    entry: EntryFigures,
)
    requires
        entry_figures(quantity, spot_cost, proceeds) == Some(entry),
    ensures
        entry.quantity == quantity,
        entry.spot_cost == spot_cost,
        entry.proceeds == proceeds,
        close(
            entry.basis.units(),
            proceeds.units() - spot_cost.units(),
            difference_miss(proceeds, spot_cost),
        ),
        close(
            entry.basis_rate.units() * spot_cost.units(),
            fine(entry.basis),
            quotient_miss(entry.basis, spot_cost),
        ),
        within_rounding(quotient_miss(entry.basis, spot_cost), spot_cost, entry.basis_rate),
        close(
            entry.spot_vwap.units() * quantity.units(),
            fine(spot_cost),
            quotient_miss(spot_cost, quantity),
        ),
        within_rounding(quotient_miss(spot_cost, quantity), quantity, entry.spot_vwap),
        close(
            entry.proceeds_vwap.units() * quantity.units(),
            fine(proceeds),
            quotient_miss(proceeds, quantity),
        ),
        within_rounding(quotient_miss(proceeds, quantity), quantity, entry.proceeds_vwap),
        close(
            10_000 * fine(entry.fees),
            20 * fine(spot_cost) + 10 * fine(proceeds),
            fees_miss(spot_cost, proceeds),
        ),
        close(
            10_000 * fine(entry.slippage),
            10 * (fine(spot_cost) + fine(proceeds)),
            slippage_miss(spot_cost, proceeds),
        ),
{
    quotients_are_close(entry.basis, spot_cost, entry.basis_rate);
    quotients_are_close(spot_cost, quantity, entry.spot_vwap);
    quotients_are_close(proceeds, quantity, entry.proceeds_vwap);
    let spot_part = product(spot_cost, whole(20))->0;
    let contract_part = product(proceeds, whole(10))->0;
    let both = sum(spot_part, contract_part)->0;
    lemma_fine_multiple(spot_cost, 20, spot_part);
    lemma_fine_multiple(proceeds, 10, contract_part);
    lemma_fine_sum(spot_part, contract_part, both);
    lemma_fine_share(both, 10_000, entry.fees);
    let traded = sum(spot_cost, proceeds)->0;
    lemma_fine_sum(spot_cost, proceeds, traded);
    basis_points_are_ten_thousandths(traded, 10, entry.slippage);
}

/// What is left of the basis of an entry after fees and slippage, in units of units.
pub open spec fn base_of(entry: EntryFigures) -> int {
    fine(entry.basis) - fine(entry.fees) - fine(entry.slippage)
}

/// By how much that is rounded.
pub open spec fn base_miss(entry: EntryFigures) -> int {
    (difference_miss(entry.basis, entry.fees) + difference_miss(
        difference(entry.basis, entry.fees)->0,
        entry.slippage,
    )) * whole(1).units()
}

/// By how much the income of a day is rounded at one funding every `hours` hours.
pub open spec fn daily_miss(income: DecimalView, hours: int) -> int {
    product_miss(income, quotient(whole(24), whole(hours))->0)
}

/// By how much the projection over a day is rounded.
pub open spec fn day_projection_miss(
    entry: EntryFigures,
    income: DecimalView,
    hours: int,
) -> int {
    let base = minus(difference(entry.basis, entry.fees), Some(entry.slippage))->0;
    let daily = product(income, quotient(whole(24), whole(hours))->0)->0;
    base_miss(entry) + daily_miss(income, hours) + sum_miss(base, daily) * whole(1).units()
}

/// By how much the projection over a week is rounded.
pub open spec fn week_projection_miss(
    entry: EntryFigures,
    income: DecimalView,
    hours: int,
) -> int {
    let base = minus(difference(entry.basis, entry.fees), Some(entry.slippage))->0;
    let daily = product(income, quotient(whole(24), whole(hours))->0)->0;
    base_miss(entry) + 7 * daily_miss(income, hours) + product_miss(daily, whole(7)) + sum_miss(
        base,
        product(daily, whole(7))->0,
    ) * whole(1).units()
}

/// By how much the yearly funding rate is rounded.
pub open spec fn funding_apr_miss(funding_rate: DecimalView, hours: int) -> int {
    let per_day = quotient(whole(24), whole(hours))->0;
    365 * product_miss(funding_rate, per_day) + product_miss(
        product(funding_rate, per_day)->0,
        whole(365),
    )
}

/// Where the hours divide the day, the fundings of a day times the hours between them come to
/// exactly 24.
proof fn lemma_fundings_of_a_day(hours: int, per_day: DecimalView)
    requires
        0 < hours,
        24int % hours == 0,
        quotient(whole(24), whole(hours)) == Some(per_day),
    ensures
        per_day.units() * hours == 24 * whole(1).units(),
{
    whole_units(24);
    whole_units(hours);
    quotients_are_close(whole(24), whole(hours), per_day);
    let count = 24int / hours;
    assert(count * hours == 24 && 0 <= count <= 24) by (nonlinear_arith)
        requires
            count == 24int / hours,
            24int % hours == 0,
            hours > 0,
    ;
    whole_units(count);
    let k = whole(1).units();
    assert((count * k) * (hours * k) == (count * hours) * k * k) by (nonlinear_arith);
    assert(is_quotient(whole(24), whole(hours), whole(count)));
    assert(has_quotient(whole(24), whole(hours)));
    let p = per_day.units();
    assert(p * hours == 24 * k) by (nonlinear_arith)
        requires
            p * (hours * k) == (24 * k) * k,
            k > 0,
    ;
}

proof fn lemma_daily(value: DecimalView, hours: int, per_day: DecimalView, daily: DecimalView)
    requires
        0 < hours,
        24int % hours == 0,
        quotient(whole(24), whole(hours)) == Some(per_day),
        product(value, per_day) == Some(daily),
    ensures
        close(fine(daily) * hours, 24 * fine(value), product_miss(value, per_day) * hours),
{
    lemma_fundings_of_a_day(hours, per_day);
    let (v, p, k) = (value.units(), per_day.units(), whole(1).units());
    lemma_close_times(fine(daily), v * p, product_miss(value, per_day), hours);
    assert(v * p * hours == 24 * (v * k)) by (nonlinear_arith)
        requires
            p * hours == 24 * k,
    ;
}

/// Fundings per day times the hours between them come to 24: beyond the basis less fees and
/// slippage, the projection over a day holds the income of 24 / hours fundings and the one over
/// seven days seven times as much, and the yearly rate times the hours is the funding rate times
/// 24 times 365. All up to the rounding of each step.
pub proof fn fundings_fill_the_day(
    entry: EntryFigures,
    income: DecimalView,
    funding_rate: DecimalView,
    hours: int,
    figures: BasisFigures,
)
    requires
        0 < hours,
        24int % hours == 0,
        funded(entry, income, funding_rate, hours) == Some(figures),
    ensures
        figures.entry == entry,
        figures.funding_income == income,
        close(
            (fine(figures.projected_net_24h) - base_of(entry)) * hours,
            24 * fine(income),
            day_projection_miss(entry, income, hours) * hours,
        ),
        close(
            (fine(figures.projected_net_7d) - base_of(entry)) * hours,
            7 * (24 * fine(income)),
            week_projection_miss(entry, income, hours) * hours,
        ),
        close(
            fine(figures.funding_apr) * hours,
            365 * (24 * fine(funding_rate)),
            funding_apr_miss(funding_rate, hours) * hours,
        ),
{
    let per_day = quotient(whole(24), whole(hours))->0;
    let first = difference(entry.basis, entry.fees)->0;
    let base = difference(first, entry.slippage)->0;
    let daily = product(income, per_day)->0;
    let weekly = product(daily, whole(7))->0;
    let rate = product(funding_rate, per_day)->0;
    lemma_fine_difference(entry.basis, entry.fees, first);
    lemma_fine_difference(first, entry.slippage, base);
    let k = whole(1).units();
    let (m1, m2) = (
        difference_miss(entry.basis, entry.fees),
        difference_miss(first, entry.slippage),
    );
    assert((m1 + m2) * k == m1 * k + m2 * k) by (nonlinear_arith);
    assert(close(fine(base), base_of(entry), base_miss(entry)));
    lemma_daily(income, hours, per_day, daily);
    lemma_daily(funding_rate, hours, per_day, rate);
    lemma_fine_sum(base, daily, figures.projected_net_24h);
    lemma_fine_multiple(daily, 7, weekly);
    lemma_fine_sum(base, weekly, figures.projected_net_7d);
    lemma_fine_multiple(rate, 365, figures.funding_apr);
    let own = day_projection_miss(entry, income, hours) - daily_miss(income, hours);
    lemma_close_times(
        fine(figures.projected_net_24h) - base_of(entry),
        fine(daily),
        own,
        hours,
    );
    let (d, h) = (daily_miss(income, hours), hours);
    assert((own + d) * h == own * h + d * h) by (nonlinear_arith);
    let own_week = week_projection_miss(entry, income, hours) - 7 * d;
    lemma_close_times(
        fine(figures.projected_net_7d) - base_of(entry),
        7 * fine(daily),
        own_week,
        hours,
    );
    let f = fine(daily);
    assert((7 * f) * h == 7 * (f * h)) by (nonlinear_arith);
    assert((own_week + 7 * d) * h == own_week * h + 7 * (d * h)) by (nonlinear_arith);
    let own_rate = product_miss(rate, whole(365));
    lemma_close_times(fine(figures.funding_apr), 365 * fine(rate), own_rate, hours);
    let (g, e) = (fine(rate), product_miss(funding_rate, per_day));
    assert((365 * g) * h == 365 * (g * h)) by (nonlinear_arith);
    assert((365 * e + own_rate) * h == 365 * (e * h) + own_rate * h) by (nonlinear_arith);
}

/// At the same positive rate and income a longer funding interval never earns more, where
/// nothing is rounded.
pub proof fn longer_intervals_earn_no_more(
    entry: EntryFigures,
    income: DecimalView,
    funding_rate: DecimalView,
    hours: int,
    longer: int,
    figures: BasisFigures,
    slower: BasisFigures,
)
    requires
        0 < hours <= longer,
        24int % hours == 0,
        24int % longer == 0,
        funding_rate.is_positive(),
        income.is_positive(),
        funded(entry, income, funding_rate, hours) == Some(figures),
        funded(entry, income, funding_rate, longer) == Some(slower),
        day_projection_miss(entry, income, hours) == 0,
        day_projection_miss(entry, income, longer) == 0,
        week_projection_miss(entry, income, hours) == 0,
        week_projection_miss(entry, income, longer) == 0,
        funding_apr_miss(funding_rate, hours) == 0,
        funding_apr_miss(funding_rate, longer) == 0,
    ensures
        slower.projected_net_24h.units() <= figures.projected_net_24h.units(),
        slower.projected_net_7d.units() <= figures.projected_net_7d.units(),
        slower.funding_apr.units() <= figures.funding_apr.units(),
        hours < longer ==> slower.funding_apr.units() < figures.funding_apr.units(),
{
    fundings_fill_the_day(entry, income, funding_rate, hours, figures);
    fundings_fill_the_day(entry, income, funding_rate, longer, slower);
    positive_units(funding_rate);
    positive_units(income);
    whole_units(1);
    let k = whole(1).units();
    lemma_shared(income.units(), k, 24, hours, longer, fine(figures.projected_net_24h) - base_of(entry), fine(slower.projected_net_24h) - base_of(entry));
    lemma_shared(income.units(), k, 168, hours, longer, fine(figures.projected_net_7d) - base_of(entry), fine(slower.projected_net_7d) - base_of(entry));
    lemma_shared(funding_rate.units(), k, 8_760, hours, longer, fine(figures.funding_apr), fine(slower.funding_apr));
    lemma_unscaled(slower.projected_net_24h, figures.projected_net_24h);
    lemma_unscaled(slower.projected_net_7d, figures.projected_net_7d);
    lemma_unscaled(slower.funding_apr, figures.funding_apr);
    lemma_unscaled(figures.funding_apr, slower.funding_apr);
}

proof fn lemma_unscaled(a: DecimalView, b: DecimalView)
    ensures
        fine(a) <= fine(b) ==> a.units() <= b.units(),
{
    whole_units(1);
    let (x, y, k) = (a.units(), b.units(), whole(1).units());
    assert(x * k <= y * k ==> x <= y) by (nonlinear_arith)
        requires
            k > 0,
    ;
}

/// What is shared out among more is less for each.
proof fn lemma_shared(amount: int, k: int, times: int, few: int, many: int, more: int, less: int)
    requires
        amount > 0,
        k > 0,
        times > 0,
        0 < few <= many,
        more * few == times * (amount * k),
        less * many == times * (amount * k),
    ensures
        less <= more,
        few < many ==> less < more,
{
    assert(times * (amount * k) > 0) by (nonlinear_arith)
        requires
            amount > 0,
            k > 0,
            times > 0,
    ;
    assert(more > 0) by (nonlinear_arith)
        requires
            more * few > 0,
            few > 0,
    ;
    assert(more * few <= more * many && (few < many ==> more * few < more * many)) by (nonlinear_arith)
        requires
            more > 0,
            0 < few <= many,
    ;
    assert(less <= more && (few < many ==> less < more)) by (nonlinear_arith)
        requires
            less * many == more * few,
            more * few <= more * many,
            few < many ==> more * few < more * many,
            many > 0,
    ;
}

/// By how much ten percent a year of an amount is rounded over `duration_ms` milliseconds.
pub open spec fn accrual_miss(amount: DecimalView, duration_ms: int) -> int {
    let yearly = basis_points_of(Some(amount), 1_000)->0;
    10_000 * (quotient_miss(product(yearly, whole(duration_ms))->0, whole(31_536_000_000))
        + product_miss(yearly, whole(duration_ms))) + duration_ms * points_miss(amount, 1_000)
}

proof fn lemma_accrued(amount: DecimalView, duration_ms: int, cost: DecimalView)
    requires
        duration_ms >= 0,
        over(
            times(basis_points_of(Some(amount), 1_000), Some(whole(duration_ms))),
            Some(whole(31_536_000_000)),
        ) == Some(cost),
    ensures
        close(
            10_000 * (31_536_000_000 * fine(cost)),
            1_000 * (duration_ms * fine(amount)),
            accrual_miss(amount, duration_ms),
        ),
{
    let yearly = basis_points_of(Some(amount), 1_000)->0;
    let bound = product(yearly, whole(duration_ms))->0;
    basis_points_are_ten_thousandths(amount, 1_000, yearly);
    lemma_fine_multiple(yearly, duration_ms, bound);
    lemma_fine_share(bound, 31_536_000_000, cost);
    let (y, a, d, m) = (fine(yearly), fine(amount), duration_ms, points_miss(amount, 1_000));
    lemma_close_times(10_000 * y, 1_000 * a, m, d);
    assert((10_000 * y) * d == 10_000 * (d * y)) by (nonlinear_arith);
    assert((1_000 * a) * d == 1_000 * (d * a)) by (nonlinear_arith);
    assert(m * d == d * m) by (nonlinear_arith);
}

/// By how much what is left of an entry before the cost of capital is rounded.
pub open spec fn pre_capital_miss(entry: EntryFigures, settlement_buffer: DecimalView) -> int {
    base_miss(entry) + difference_miss(
        minus(difference(entry.basis, entry.fees), Some(entry.slippage))->0,
        settlement_buffer,
    ) * whole(1).units()
}

/// What is left at delivery: the time that remains in days; two basis points of what the
/// contract brings as a buffer for the settlement; ten percent a year on what the spot costs, for
/// the time that remains, as the cost of capital; and the basis less fees, slippage and buffer,
/// before and after that cost. The return is the profit's part of what the spot costs.
pub proof fn deliveries_add_up(entry: EntryFigures, remaining_ms: int, figures: DeliveryFigures)
    requires
        remaining_ms > 0,
        held_to_delivery(entry, remaining_ms) == Some(figures),
    ensures
        figures.entry == entry,
        close(
            86_400_000 * fine(figures.remaining_days),
            remaining_ms * fine(whole(1)),
            quotient_miss(whole(remaining_ms), whole(86_400_000)),
        ),
        close(
            10_000 * fine(figures.settlement_buffer),
            2 * fine(entry.proceeds),
            points_miss(entry.proceeds, 2),
        ),
        close(
            10_000 * (31_536_000_000 * fine(figures.capital_cost)),
            1_000 * (remaining_ms * fine(entry.spot_cost)),
            accrual_miss(entry.spot_cost, remaining_ms),
        ),
        close(
            fine(figures.pre_capital_net_profit),
            base_of(entry) - fine(figures.settlement_buffer),
            pre_capital_miss(entry, figures.settlement_buffer),
        ),
        close(
            fine(figures.net_profit),
            fine(figures.pre_capital_net_profit) - fine(figures.capital_cost),
            difference_miss(figures.pre_capital_net_profit, figures.capital_cost) * whole(
                1,
            ).units(),
        ),
        close(
            figures.net_return.units() * entry.spot_cost.units(),
            fine(figures.net_profit),
            quotient_miss(figures.net_profit, entry.spot_cost),
        ),
        within_rounding(
            quotient_miss(figures.net_profit, entry.spot_cost),
            entry.spot_cost,
            figures.net_return,
        ),
{
    lemma_fine_share(whole(remaining_ms), 86_400_000, figures.remaining_days);
    whole_units(remaining_ms);
    let k = whole(1).units();
    assert((remaining_ms * k) * k == remaining_ms * (k * k)) by (nonlinear_arith);
    basis_points_are_ten_thousandths(entry.proceeds, 2, figures.settlement_buffer);
    lemma_accrued(entry.spot_cost, remaining_ms, figures.capital_cost);
    let first = difference(entry.basis, entry.fees)->0;
    let base = difference(first, entry.slippage)->0;
    lemma_fine_difference(entry.basis, entry.fees, first);
    lemma_fine_difference(first, entry.slippage, base);
    let (m1, m2) = (
        difference_miss(entry.basis, entry.fees),
        difference_miss(first, entry.slippage),
    );
    assert((m1 + m2) * k == m1 * k + m2 * k) by (nonlinear_arith);
    lemma_fine_difference(base, figures.settlement_buffer, figures.pre_capital_net_profit);
    lemma_fine_difference(
        figures.pre_capital_net_profit,
        figures.capital_cost,
        figures.net_profit,
    );
    quotients_are_close(figures.net_profit, entry.spot_cost, figures.net_return);
}

/// Earning the yearly rate for the time that remains gives the return: the rate times the
/// milliseconds that remain is the return times the milliseconds of a year, up to the rounding
/// of their product and quotient. So, without rounding the product, a positive return within
/// less than a year has a yearly rate that is no lower, and a return over exactly a year is its
/// own yearly rate.
pub proof fn yearly_rates_earn_the_return(
    entry: EntryFigures,
    remaining_ms: int,
    figures: DeliveryFigures,
)
    requires
        0 < remaining_ms <= i64::MAX,
        held_to_delivery(entry, remaining_ms) == Some(figures),
    ensures
        ({
            let year = 365 * 24 * 60 * 60 * 1_000int;
            let scaled = product(figures.net_return, whole(year));
            let off = quotient_miss(scaled->0, whole(remaining_ms));
            &&& scaled is Some
            &&& close(
                remaining_ms * fine(figures.net_apr),
                year * fine(figures.net_return),
                product_miss(figures.net_return, whole(year)) + off,
            )
            &&& within_rounding(off, whole(remaining_ms), figures.net_apr)
            &&& figures.net_return.is_positive() && remaining_ms < year && product_miss(
                figures.net_return,
                whole(year),
            ) == 0 ==> figures.net_return.units() <= figures.net_apr.units()
            &&& remaining_ms == year && product_miss(figures.net_return, whole(year)) == 0
                && figures.net_return.valid() ==> figures.net_apr.units()
                == figures.net_return.units()
        }),
{
    let year = 365 * 24 * 60 * 60 * 1_000int;
    assert(year == 31_536_000_000);
    let (earned, rate) = (figures.net_return, figures.net_apr);
    let scaled = product(earned, whole(year))->0;
    lemma_fine_multiple(earned, year, scaled);
    lemma_fine_share(scaled, remaining_ms, rate);
    whole_units(remaining_ms);
    whole_units(year);
    positive_units(earned);
    let (k, m, off) = (
        whole(1).units(),
        remaining_ms,
        quotient_miss(scaled, whole(remaining_ms)),
    );
    let (r, a) = (earned.units(), rate.units());
    if product_miss(earned, whole(year)) == 0 {
        if earned.is_positive() && m < year {
            lemma_rate_is_no_lower(r, a, m, year, k, off);
        }
        if m == year && earned.valid() {
            assert(scaled.units() * k == r * (year * k));
            assert(is_quotient(scaled, whole(m), earned)) by {
                assert(r * (m * k) == scaled.units() * k);
            }
            assert(has_quotient(scaled, whole(m)));
            quotients_are_close(scaled, whole(m), rate);
            assert(a == r) by (nonlinear_arith)
                requires
                    a * (m * k) == r * (m * k),
                    m > 0,
                    k > 0,
            ;
        }
    }
}

/// A quotient within its rounding is not below what it would be for a longer time.
proof fn lemma_rate_is_no_lower(r: int, a: int, m: int, year: int, k: int, off: int)
    requires
        0 < r,
        0 < m < year,
        m <= i64::MAX,
        k == whole(1).units(),
        close(m * (a * k), year * (r * k), off),
        2 * off <= size_of_number(m * k) || off * (MANTISSA_LIMIT - 10) <= 5
            * size_of_number(m * k) * size_of_number(a),
    ensures
        r <= a,
{
    whole_units(1);
    assert(m * k > 0) by (nonlinear_arith)
        requires
            m > 0,
            k > 0,
    ;
    if a < r {
        lemma_gap_exceeds_rounding(r, a, m, year, k, off);
    }
}

/// Where the rate is below the return, the gap is more than rounding.
proof fn lemma_gap_exceeds_rounding(r: int, a: int, m: int, year: int, k: int, off: int)
    requires
        0 < r,
        a < r,
        0 < m < year,
        m <= i64::MAX,
        k == whole(1).units(),
        close(m * (a * k), year * (r * k), off),
    ensures
        2 * off > m * k,
        off * (MANTISSA_LIMIT - 10) > 5 * (m * k) * size_of_number(a),
{
    whole_units(1);
    assert(m * k > 0) by (nonlinear_arith)
        requires
            m > 0,
            k > 0,
    ;
    assert(year * (r * k) - m * (a * k) >= m * k + r * k) by (nonlinear_arith)
        requires
            a + 1 <= r,
            r > 0,
            m + 1 <= year,
            m > 0,
            k > 0,
    ;
    assert(r * k > 0) by (nonlinear_arith)
        requires
            r > 0,
            k > 0,
    ;
    let l = MANTISSA_LIMIT - 10;
    if a >= 0 {
        assert(5 * (m * k) * a <= 5 * m * (r * k)) by (nonlinear_arith)
            requires
                0 <= a <= r,
                m > 0,
                k > 0,
        ;
        assert(off * l >= (r * k) * l) by (nonlinear_arith)
            requires
                off >= r * k,
                l > 0,
        ;
        assert(5 * m * (r * k) < (r * k) * l) by (nonlinear_arith)
            requires
                5 * m < l,
                r * k > 0,
        ;
    } else {
        let b = -a;
        assert(m * (a * k) == -(m * (b * k))) by (nonlinear_arith)
            requires
                a == -b,
        ;
        assert(year * (r * k) > 0) by (nonlinear_arith)
            requires
                year > 0,
                r * k > 0,
        ;
        assert(off >= m * (b * k));
        assert(5 * (m * k) * b == 5 * (m * (b * k))) by (nonlinear_arith);
        let g = m * (b * k);
        assert(g > 0) by (nonlinear_arith)
            requires
                g == m * (b * k),
                m > 0,
                b > 0,
                k > 0,
        ;
        assert(off * l > 5 * g) by (nonlinear_arith)
            requires
                off >= g,
                g > 0,
                l > 5,
        ;
    }
}

/// A position holds the least of three quantities: what 1000 buy at the best ask, and what
/// either ladder offers.
pub proof fn capacity_is_the_least(
    spot: Seq<LevelView>,
    contract: Seq<LevelView>,
    quantity: DecimalView,
)
    requires
        capacity(spot, contract) == Some(quantity),
    ensures
        depth(spot) is Some,
        depth(contract) is Some,
        quotient(whole(1_000), spot[0].price) is Some,
        ({
            let affordable = quotient(whole(1_000), spot[0].price)->0;
            let off = quotient_miss(whole(1_000), spot[0].price);
            let (held, a, b) = (quantity.units(), depth(spot)->0.units(), depth(contract)->0.units());
            &&& held <= a && held <= b && held <= affordable.units()
            &&& held == a || held == b || held == affordable.units()
            &&& close(
                affordable.units() * spot[0].price.units(),
                1_000 * fine(whole(1)),
                off,
            )
            &&& within_rounding(off, spot[0].price, affordable)
        }),
{
    let affordable = quotient(whole(1_000), spot[0].price)->0;
    quotients_are_close(whole(1_000), spot[0].price, affordable);
    whole_units(1_000);
    let k = whole(1).units();
    assert((1_000 * k) * k == 1_000 * (k * k)) by (nonlinear_arith);
}

/// By how much the income of one funding is rounded, in units of units of units.
pub open spec fn income_miss(
    mark_price: DecimalView,
    quantity: DecimalView,
    funding_rate: DecimalView,
) -> int {
    product_miss(mark_price, quantity) * size_of_number(funding_rate.units()) + product_miss(
        product(mark_price, quantity)->0,
        funding_rate,
    ) * whole(1).units()
}

proof fn lemma_income(
    mark_price: DecimalView,
    quantity: DecimalView,
    funding_rate: DecimalView,
    income: DecimalView,
)
    requires
        times(product(mark_price, quantity), Some(funding_rate)) == Some(income),
    ensures
        close(
            fine(income) * whole(1).units(),
            mark_price.units() * quantity.units() * funding_rate.units(),
            income_miss(mark_price, quantity, funding_rate),
        ),
{
    whole_units(1);
    let value = product(mark_price, quantity)->0;
    let (k, r, v, w) = (
        whole(1).units(),
        funding_rate.units(),
        value.units(),
        mark_price.units() * quantity.units(),
    );
    lemma_close_times(fine(income), v * r, product_miss(value, funding_rate), k);
    assert((v * r) * k == (v * k) * r) by (nonlinear_arith);
    let m = product_miss(mark_price, quantity);
    if r >= 0 {
        lemma_close_times(v * k, w, m, r);
    } else {
        lemma_close_times(v * k, w, m, -r);
        assert((v * k) * (-r) == -((v * k) * r)) by (nonlinear_arith);
        assert(w * (-r) == -(w * r)) by (nonlinear_arith);
    }
}

/// The basis of a perpetual is that of spot bought from the asks and of the contract sold to the
/// bids, both of the capacity of the two ladders, at a positive ask and mark price and at
/// fundings that divide the day. One funding earns the mark price times the quantity times the
/// funding rate.
pub proof fn perpetual_positions_follow_the_books(
    spot: Seq<LevelView>,
    perp: Seq<LevelView>,
    mark_price: DecimalView,
    funding_rate: DecimalView,
    hours: int,
    figures: BasisFigures,
)
    requires
        perpetual_basis(spot, perp, mark_price, funding_rate, hours) == Some(Some(figures)),
    ensures
        spot.len() > 0,
        spot[0].price.units() > 0,
        mark_price.units() > 0,
        0 < hours,
        24int % hours == 0,
        capacity(spot, perp) == Some(figures.entry.quantity),
        figures.entry.quantity.units() > 0,
        consumed(spot, figures.entry.quantity) == Some(Some(figures.entry.spot_cost)),
        consumed(perp, figures.entry.quantity) == Some(Some(figures.entry.proceeds)),
        entry_figures(
            figures.entry.quantity,
            figures.entry.spot_cost,
            figures.entry.proceeds,
        ) == Some(figures.entry),
        close(
            fine(figures.funding_income) * whole(1).units(),
            mark_price.units() * figures.entry.quantity.units() * funding_rate.units(),
            income_miss(mark_price, figures.entry.quantity, funding_rate),
        ),
        funded(figures.entry, figures.funding_income, funding_rate, hours) == Some(figures),
{
    positive_units(spot[0].price);
    positive_units(mark_price);
    positive_units(figures.entry.quantity);
    lemma_income(mark_price, figures.entry.quantity, funding_rate, figures.funding_income);
}

/// There is no basis of a perpetual only where there is no ask, a price is not positive, there is
/// no capacity, a ladder is not deep enough or the fundings do not divide the day.
pub proof fn perpetual_positions_are_missed_for_a_reason(
    spot: Seq<LevelView>,
    perp: Seq<LevelView>,
    mark_price: DecimalView,
    funding_rate: DecimalView,
    hours: int,
    quantity: DecimalView,
)
    requires
        perpetual_basis(spot, perp, mark_price, funding_rate, hours) == Some(None::<BasisFigures>),
        spot.len() > 0,
        spot[0].price.units() > 0,
        mark_price.units() > 0,
        0 < hours,
        24int % hours == 0,
        capacity(spot, perp) == Some(quantity),
        quantity.units() > 0,
    ensures
        consumed(spot, quantity) == Some(None::<DecimalView>) || consumed(perp, quantity) == Some(
            None::<DecimalView>,
        ),
{
    positive_units(spot[0].price);
    positive_units(mark_price);
    positive_units(quantity);
}

/// The basis of a delivery contract is that of spot bought from the asks and of the contract sold
/// to the bids, both of the same number of whole steps, held from the observation to the
/// delivery.
pub proof fn delivery_positions_follow_the_books(
    delivery_time_ms: int,
    observed_at_ms: int,
    quantity_step: DecimalView,
    minimum_quantity: DecimalView,
    spot: Seq<LevelView>,
    delivery: Seq<LevelView>,
    figures: DeliveryFigures,
)
    requires
        delivery_basis(
            delivery_time_ms,
            observed_at_ms,
            quantity_step,
            minimum_quantity,
            spot,
            delivery,
        ) == Some(Some(figures)),
    ensures
        0 < delivery_time_ms - observed_at_ms <= i64::MAX,
        quantity_step.units() > 0,
        minimum_quantity.units() <= figures.entry.quantity.units(),
        consumed(spot, figures.entry.quantity) == Some(Some(figures.entry.spot_cost)),
        consumed(delivery, figures.entry.quantity) == Some(Some(figures.entry.proceeds)),
        entry_figures(
            figures.entry.quantity,
            figures.entry.spot_cost,
            figures.entry.proceeds,
        ) == Some(figures.entry),
        held_to_delivery(figures.entry, delivery_time_ms - observed_at_ms) == Some(figures),
{
    positive_units(quantity_step);
}

/// There is no basis of a delivery contract only where the contract has expired, there is no
/// ask, the step is not positive, the steps come to less than the least quantity, or a ladder
/// is not deep enough.
pub proof fn delivery_positions_are_missed_for_a_reason(
    delivery_time_ms: int,
    observed_at_ms: int,
    quantity_step: DecimalView,
    minimum_quantity: DecimalView,
    spot: Seq<LevelView>,
    delivery: Seq<LevelView>,
    quantity: DecimalView,
)
    requires
        delivery_basis(
            delivery_time_ms,
            observed_at_ms,
            quantity_step,
            minimum_quantity,
            spot,
            delivery,
        ) == Some(None::<DeliveryFigures>),
        0 < delivery_time_ms - observed_at_ms <= i64::MAX,
        spot.len() > 0,
        quantity_step.units() > 0,
        capacity(spot, delivery) is Some,
        whole_steps(capacity(spot, delivery)->0, quantity_step) == Some(quantity),
        minimum_quantity.units() <= quantity.units(),
    ensures
        consumed(spot, quantity) == Some(None::<DecimalView>) || consumed(delivery, quantity)
            == Some(None::<DecimalView>),
{
    positive_units(quantity_step);
}

/// The time that is left until a settlement, none once it is past.
pub open spec fn time_left(remaining_ms: int) -> int {
    if remaining_ms > 0 {
        remaining_ms
    } else {
        0
    }
}

/// By how much the buffers of a purchase on one venue are rounded.
pub open spec fn internal_buffers_miss(cost: DecimalView, remaining_ms: int) -> int {
    let slippage = basis_points_of(Some(cost), 20)->0;
    let capital = capital_cost(cost, remaining_ms)->0;
    31_536_000_000 * points_miss(cost, 20) + accrual_miss(cost, time_left(remaining_ms)) + 10_000
        * (31_536_000_000 * (sum_miss(slippage, capital) * whole(1).units()))
}

/// By how much the buffers of a purchase across venues are rounded.
pub open spec fn cross_buffers_miss(
    cost: DecimalView,
    size: DecimalView,
    remaining_ms: int,
) -> int {
    let slippage = basis_points_of(Some(cost), 20)->0;
    let conversion = basis_points_of(Some(size), 10)->0;
    let both = sum(slippage, conversion)->0;
    let capital = capital_cost(cost, remaining_ms)->0;
    31_536_000_000 * (points_miss(cost, 20) + points_miss(size, 10)) + accrual_miss(
        cost,
        time_left(remaining_ms),
    ) + 10_000 * (31_536_000_000 * ((sum_miss(slippage, conversion) * whole(1).units()) + (
    sum_miss(both, capital) * whole(1).units())))
}

/// The buffers of a purchase across venues are 20 basis points of what it costs, 10 basis points
/// of what it pays, and ten percent a year of what it costs until the settlement. Its fees are
/// the Binance rate on what the Binance leg costs, and the fee on the Polymarket leg.
pub proof fn cross_charges_add_up(
    binance: Seq<LevelView>,
    polymarket: Seq<LevelView>,
    binance_rate: DecimalView,
    polymarket_rate: DecimalView,
    remaining_ms: int,
    figures: PurchaseFigures,
)
    requires
        cross(binance, polymarket, binance_rate, polymarket_rate, remaining_ms) == Some(
            Some(figures),
        ),
    ensures
        binance_rate.units() >= 0,
        polymarket_rate.units() >= 0,
        close(
            10_000 * (31_536_000_000 * fine(figures.total_buffers)),
            31_536_000_000 * (20 * fine(figures.total_cost) + 10 * fine(figures.size)) + 1_000 * (
            time_left(remaining_ms) * fine(figures.total_cost)),
            cross_buffers_miss(figures.total_cost, figures.size, remaining_ms),
        ),
        ({
            let first = fok(
                RequestView { quantity: figures.size, limit_price: figures.first_limit },
                binance,
            )->0;
            let second_fee = polymarket_fee(polymarket, figures.size, polymarket_rate);
            let first_fee = product(first.total_cost, binance_rate);
            &&& second_fee matches Some(Some(_))
            &&& first_fee is Some
            &&& close(
                fine(figures.total_fees),
                first.total_cost.units() * binance_rate.units() + fine(second_fee->0->0),
                product_miss(first.total_cost, binance_rate) + sum_miss(
                    first_fee->0,
                    second_fee->0->0,
                ) * whole(1).units(),
            )
        }),
{
    positive_units(binance_rate);
    positive_units(polymarket_rate);
    let size = figures.size;
    let cost = figures.total_cost;
    let (binance_cost, binance_limit) = fok_cost(binance, size)->0->0;
    costed_quantity_fills(binance, size, binance_cost, binance_limit);
    let second_fee = polymarket_fee(polymarket, size, polymarket_rate)->0->0;
    lemma_fine_sum(product(binance_cost, binance_rate)->0, second_fee, figures.total_fees);
    let slippage = basis_points_of(Some(cost), 20)->0;
    let conversion = basis_points_of(Some(size), 10)->0;
    let both = sum(slippage, conversion)->0;
    let capital = capital_cost(cost, remaining_ms)->0;
    basis_points_are_ten_thousandths(cost, 20, slippage);
    basis_points_are_ten_thousandths(size, 10, conversion);
    lemma_accrued(cost, time_left(remaining_ms), capital);
    lemma_fine_sum(slippage, conversion, both);
    lemma_fine_sum(both, capital, figures.total_buffers);
}

/// The buffers of a purchase on one venue are 20 basis points of what it costs, and ten percent a
/// year of what it costs until the settlement. Its fee is the rate on what both legs cost on
/// Binance, and the fees on the two legs on Polymarket.
pub proof fn internal_charges_add_up(
    up: Seq<LevelView>,
    down: Seq<LevelView>,
    rate: DecimalView,
    remaining_ms: int,
    on_binance: bool,
    figures: PurchaseFigures,
)
    requires
        internal(up, down, rate, remaining_ms, on_binance) == Some(Some(figures)),
    ensures
        rate.units() >= 0,
        close(
            10_000 * (31_536_000_000 * fine(figures.total_buffers)),
            31_536_000_000 * (20 * fine(figures.total_cost)) + 1_000 * (time_left(remaining_ms)
                * fine(figures.total_cost)),
            internal_buffers_miss(figures.total_cost, remaining_ms),
        ),
        on_binance ==> close(
            fine(figures.total_fees),
            figures.total_cost.units() * rate.units(),
            product_miss(figures.total_cost, rate),
        ),
        !on_binance ==> ({
            let up_fee = polymarket_fee(up, figures.size, rate);
            let down_fee = polymarket_fee(down, figures.size, rate);
            &&& up_fee matches Some(Some(_))
            &&& down_fee matches Some(Some(_))
            &&& close(
                fine(figures.total_fees),
                fine(up_fee->0->0) + fine(down_fee->0->0),
                sum_miss(up_fee->0->0, down_fee->0->0) * whole(1).units(),
            )
        }),
{
    positive_units(rate);
    let size = figures.size;
    let cost = figures.total_cost;
    let slippage = basis_points_of(Some(cost), 20)->0;
    let capital = capital_cost(cost, remaining_ms)->0;
    basis_points_are_ten_thousandths(cost, 20, slippage);
    lemma_accrued(cost, time_left(remaining_ms), capital);
    lemma_fine_sum(slippage, capital, figures.total_buffers);
    if !on_binance {
        lemma_fine_sum(
            polymarket_fee(up, size, rate)->0->0,
            polymarket_fee(down, size, rate)->0->0,
            figures.total_fees,
        );
    }
}

/// A purchase on one venue is as large as both books and ten shares allow, and costs what its
/// two orders cost.
pub proof fn internal_purchase_is_that_of_its_orders(
    up: Seq<LevelView>,
    down: Seq<LevelView>,
    rate: DecimalView,
    remaining_ms: int,
    on_binance: bool,
    figures: PurchaseFigures,
)
    requires
        internal(up, down, rate, remaining_ms, on_binance) == Some(Some(figures)),
    ensures
        purchase_size(up, down) == Some(figures.size),
        figures.size.is_positive(),
        fok(
            RequestView { quantity: figures.size, limit_price: figures.first_limit },
            up,
        ) matches Some(first) && fok(
            RequestView { quantity: figures.size, limit_price: figures.second_limit },
            down,
        ) matches Some(second) && first.status == OrderStatus::FullyFilled && second.status
            == OrderStatus::FullyFilled && sum(first.total_cost, second.total_cost) == Some(
            figures.total_cost,
        ),
{
    let size = figures.size;
    let (up_cost, up_limit) = fok_cost(up, size)->0->0;
    let (down_cost, down_limit) = fok_cost(down, size)->0->0;
    costed_quantity_fills(up, size, up_cost, up_limit);
    costed_quantity_fills(down, size, down_cost, down_limit);
}

/// A purchase is of the least of three quantities: what either book offers, and ten.
pub proof fn purchase_size_is_the_least(
    first: Seq<LevelView>,
    second: Seq<LevelView>,
    size: DecimalView,
)
    requires
        purchase_size(first, second) == Some(size),
    ensures
        depth(first) is Some,
        depth(second) is Some,
        ({
            let (bought, a, b, ten) = (
                size.units(),
                depth(first)->0.units(),
                depth(second)->0.units(),
                10 * whole(1).units(),
            );
            &&& bought <= a && bought <= b && bought <= ten
            &&& bought == a || bought == b || bought == ten
        }),
{
    whole_units(10);
}

/// A price is traded exactly from five to ninety-five hundredths.
pub proof fn tradable_prices_lie_between(price: DecimalView)
    ensures
        tradable_price(price) <==> 5 * whole(1).units() <= 100 * price.units() <= 95 * whole(
            1,
        ).units(),
{
    assert(pow10(26) == 100_000_000_000_000_000_000_000_000) by {
        reveal_with_fuel(pow10, 27);
    }
    whole_units(1);
}

/// A text shows a number of which something holds.
pub open spec fn shows(text: Seq<char>, holds: spec_fn(DecimalView) -> bool) -> bool {
    exists|number: DecimalView| #[trigger] plain_notation(number) == text && holds(number)
}

/// What the shown sides of an entry are: bought on one ladder, sold on the other, and what
/// follows from the two.
pub open spec fn shows_entry(
    quantity_text: Seq<char>,
    cost_text: Seq<char>,
    proceeds_text: Seq<char>,
    spot_vwap_text: Seq<char>,
    proceeds_vwap_text: Seq<char>,
    basis_text: Seq<char>,
    basis_rate_text: Seq<char>,
    fees_text: Seq<char>,
    slippage_text: Seq<char>,
    spot: Seq<LevelView>,
    contract: Seq<LevelView>,
    quantity: DecimalView,
    cost: DecimalView,
    proceeds: DecimalView,
    basis: DecimalView,
) -> bool {
    &&& quantity_text == plain_notation(quantity)
    &&& cost_text == plain_notation(cost)
    &&& proceeds_text == plain_notation(proceeds)
    &&& basis_text == plain_notation(basis)
    &&& consumed(spot, quantity) == Some(Some(cost))
    &&& consumed(contract, quantity) == Some(Some(proceeds))
    &&& close(
        basis.units(),
        proceeds.units() - cost.units(),
        difference_miss(proceeds, cost),
    )
    &&& shows(
        spot_vwap_text,
        |n: DecimalView|
            close(n.units() * quantity.units(), fine(cost), quotient_miss(cost, quantity)),
    )
    &&& shows(
        proceeds_vwap_text,
        |n: DecimalView|
            close(n.units() * quantity.units(), fine(proceeds), quotient_miss(proceeds, quantity)),
    )
    &&& shows(
        basis_rate_text,
        |n: DecimalView| close(n.units() * cost.units(), fine(basis), quotient_miss(basis, cost)),
    )
    &&& shows(
        fees_text,
        |n: DecimalView|
            close(10_000 * fine(n), 20 * fine(cost) + 10 * fine(proceeds), fees_miss(cost, proceeds)),
    )
    &&& shows(
        slippage_text,
        |n: DecimalView|
            close(
                10_000 * fine(n),
                10 * (fine(cost) + fine(proceeds)),
                slippage_miss(cost, proceeds),
            ),
    )
}

proof fn lemma_shows_entry(
    spot: Seq<LevelView>,
    contract: Seq<LevelView>,
    entry: EntryFigures,
)
    requires
        consumed(spot, entry.quantity) == Some(Some(entry.spot_cost)),
        consumed(contract, entry.quantity) == Some(Some(entry.proceeds)),
        entry_figures(entry.quantity, entry.spot_cost, entry.proceeds) == Some(entry),
    ensures
        shows_entry(
            plain_notation(entry.quantity),
            plain_notation(entry.spot_cost),
            plain_notation(entry.proceeds),
            plain_notation(entry.spot_vwap),
            plain_notation(entry.proceeds_vwap),
            plain_notation(entry.basis),
            plain_notation(entry.basis_rate),
            plain_notation(entry.fees),
            plain_notation(entry.slippage),
            spot,
            contract,
            entry.quantity,
            entry.spot_cost,
            entry.proceeds,
            entry.basis,
        ),
{
    entries_add_up(entry.quantity, entry.spot_cost, entry.proceeds, entry);
}

/// The view of a perpetual basis shows each figure under its own name.
pub proof fn basis_views_show_their_figures(
    spot: Seq<LevelView>,
    perp: Seq<LevelView>,
    mark_price: DecimalView,
    funding_rate: DecimalView,
    hours: int,
    figures: BasisFigures,
    view: BinanceBasisView,
)
    requires
        perpetual_basis(spot, perp, mark_price, funding_rate, hours) == Some(Some(figures)),
        shows_basis(view, figures, funding_rate),
    ensures
        exists|cost: DecimalView, proceeds: DecimalView, basis: DecimalView|
            #![trigger difference_miss(proceeds, cost), plain_notation(basis)]
            shows_entry(
                view.quantity@,
                view.spot_cost@,
                view.perp_proceeds@,
                view.spot_vwap_ask@,
                view.perp_vwap_bid@,
                view.entry_basis@,
                view.entry_basis_rate@,
                view.estimated_round_trip_fees@,
                view.slippage_buffer@,
                spot,
                perp,
                capacity(spot, perp)->0,
                cost,
                proceeds,
                basis,
            ),
        view.funding_rate@ == plain_notation(funding_rate),
        shows(
            view.funding_income_per_round@,
            |n: DecimalView|
                close(
                    fine(n) * whole(1).units(),
                    mark_price.units() * capacity(spot, perp)->0.units() * funding_rate.units(),
                    income_miss(mark_price, capacity(spot, perp)->0, funding_rate),
                ),
        ),
        ({
            let (entry, income) = (figures.entry, figures.funding_income);
            &&& shows(
                view.projected_net_24h@,
                |n: DecimalView|
                    close(
                        (fine(n) - base_of(entry)) * hours,
                        24 * fine(income),
                        day_projection_miss(entry, income, hours) * hours,
                    ),
            )
            &&& shows(
                view.projected_net_7d@,
                |n: DecimalView|
                    close(
                        (fine(n) - base_of(entry)) * hours,
                        7 * (24 * fine(income)),
                        week_projection_miss(entry, income, hours) * hours,
                    ),
            )
            &&& shows(
                view.funding_apr@,
                |n: DecimalView|
                    close(
                        fine(n) * hours,
                        365 * (24 * fine(funding_rate)),
                        funding_apr_miss(funding_rate, hours) * hours,
                    ),
            )
        }),
{
    perpetual_positions_follow_the_books(
        spot,
        perp,
        mark_price,
        funding_rate,
        hours,
        figures,
    );
    let entry = figures.entry;
    fundings_fill_the_day(entry, figures.funding_income, funding_rate, hours, figures);
    lemma_shows_entry(spot, perp, entry);
    assert(difference_miss(entry.proceeds, entry.spot_cost) >= 0);
}

/// The view of a delivery basis shows each figure under its own name.
pub proof fn delivery_views_show_their_figures(
    delivery_time_ms: int,
    observed_at_ms: int,
    quantity_step: DecimalView,
    minimum_quantity: DecimalView,
    spot: Seq<LevelView>,
    delivery: Seq<LevelView>,
    figures: DeliveryFigures,
    view: BinanceDeliveryBasisView,
)
    requires
        delivery_basis(
            delivery_time_ms,
            observed_at_ms,
            quantity_step,
            minimum_quantity,
            spot,
            delivery,
        ) == Some(Some(figures)),
        shows_delivery(view, figures),
    ensures
        exists|quantity: DecimalView, cost: DecimalView, proceeds: DecimalView, basis: DecimalView|
            #![trigger difference_miss(proceeds, cost), plain_notation(basis), quotient_miss(cost, quantity)]
            shows_entry(
                view.quantity@,
                view.spot_cost@,
                view.delivery_proceeds@,
                view.spot_vwap_ask@,
                view.delivery_vwap_bid@,
                view.gross_basis@,
                view.gross_basis_rate@,
                view.estimated_round_trip_fees@,
                view.slippage_buffer@,
                spot,
                delivery,
                quantity,
                cost,
                proceeds,
                basis,
            ),
        ({
            let entry = figures.entry;
            let remaining_ms = delivery_time_ms - observed_at_ms;
            let (buffer, before, after, capital, earned) = (
                figures.settlement_buffer,
                figures.pre_capital_net_profit,
                figures.net_profit,
                figures.capital_cost,
                figures.net_return,
            );
            &&& shows(
                view.remaining_days@,
                |n: DecimalView|
                    close(
                        86_400_000 * fine(n),
                        remaining_ms * fine(whole(1)),
                        quotient_miss(whole(remaining_ms), whole(86_400_000)),
                    ),
            )
            &&& shows(
                view.settlement_buffer@,
                |n: DecimalView|
                    close(10_000 * fine(n), 2 * fine(entry.proceeds), points_miss(entry.proceeds, 2)),
            )
            &&& shows(
                view.capital_cost@,
                |n: DecimalView|
                    close(
                        10_000 * (31_536_000_000 * fine(n)),
                        1_000 * (remaining_ms * fine(entry.spot_cost)),
                        accrual_miss(entry.spot_cost, remaining_ms),
                    ),
            )
            &&& shows(
                view.pre_capital_net_profit@,
                |n: DecimalView|
                    close(
                        fine(n),
                        base_of(entry) - fine(buffer),
                        pre_capital_miss(entry, buffer),
                    ),
            )
            &&& shows(
                view.net_profit_at_delivery@,
                |n: DecimalView|
                    close(
                        fine(n),
                        fine(before) - fine(capital),
                        difference_miss(before, capital) * whole(1).units(),
                    ),
            )
            &&& shows(
                view.net_return@,
                |n: DecimalView|
                    close(
                        n.units() * entry.spot_cost.units(),
                        fine(after),
                        quotient_miss(after, entry.spot_cost),
                    ),
            )
            &&& shows(
                view.net_apr@,
                |n: DecimalView|
                    close(
                        remaining_ms * fine(n),
                        31_536_000_000 * fine(earned),
                        product_miss(earned, whole(31_536_000_000)) + quotient_miss(
                            product(earned, whole(31_536_000_000))->0,
                            whole(remaining_ms),
                        ),
                    ),
            )
        }),
{
    delivery_positions_follow_the_books(
        delivery_time_ms,
        observed_at_ms,
        quantity_step,
        minimum_quantity,
        spot,
        delivery,
        figures,
    );
    let entry = figures.entry;
    let remaining_ms = delivery_time_ms - observed_at_ms;
    deliveries_add_up(entry, remaining_ms, figures);
    yearly_rates_earn_the_return(entry, remaining_ms, figures);
    lemma_shows_entry(spot, delivery, entry);
    assert(difference_miss(entry.proceeds, entry.spot_cost) >= 0);
    assert(quotient_miss(entry.spot_cost, entry.quantity) >= 0);
}

/// A figure is the share of an amount that falls on one of `size`.
pub open spec fn is_share(figure: DecimalView, amount: DecimalView, size: DecimalView) -> bool {
    close(figure.units() * size.units(), fine(amount), quotient_miss(amount, size))
}

/// What a purchase says of one share is its total cost, its total fees, its total buffers and its
/// profit, each divided among the shares.
pub open spec fn says_it_by_share(figures: PurchaseFigures) -> bool {
    &&& is_share(figures.cost, figures.total_cost, figures.size)
    &&& is_share(figures.fees, figures.total_fees, figures.size)
    &&& is_share(figures.risk_buffers, figures.total_buffers, figures.size)
    &&& is_share(figures.net_edge, figures.net, figures.size)
}

/// A calculation across venues gives each figure by share, and orders the size of the purchase on
/// both venues at limits that fill it for the total cost.
pub proof fn cross_calculations_are_by_share(
    binance: Seq<LevelView>,
    polymarket: Seq<LevelView>,
    binance_rate: DecimalView,
    polymarket_rate: DecimalView,
    remaining_ms: int,
    figures: PurchaseFigures,
    calculation: CrossCalculation,
)
    requires
        cross(binance, polymarket, binance_rate, polymarket_rate, remaining_ms) == Some(
            Some(figures),
        ),
        shows_purchase(calculation, figures),
    ensures
        is_share(calculation.cost@, figures.total_cost, calculation.size@),
        is_share(calculation.fees@, figures.total_fees, calculation.size@),
        is_share(calculation.risk_buffers@, figures.total_buffers, calculation.size@),
        is_share(calculation.net_edge@, figures.net, calculation.size@),
        purchase_size(binance, polymarket) == Some(calculation.size@),
        calculation.plan.first_request@.quantity == calculation.size@,
        calculation.plan.second_request@.quantity == calculation.size@,
        fok(calculation.plan.first_request@, binance) matches Some(first) && fok(
            calculation.plan.second_request@,
            polymarket,
        ) matches Some(second) && first.status == OrderStatus::FullyFilled && second.status
            == OrderStatus::FullyFilled && sum(first.total_cost, second.total_cost) == Some(
            figures.total_cost,
        ),
{
    cross_purchase_is_that_of_its_orders(
        binance,
        polymarket,
        binance_rate,
        polymarket_rate,
        remaining_ms,
        figures,
    );
}

/// A calculation on one venue gives each figure by share, under its own name.
pub proof fn internal_calculations_are_by_share(
    up: Seq<LevelView>,
    down: Seq<LevelView>,
    rate: DecimalView,
    remaining_ms: int,
    on_binance: bool,
    figures: PurchaseFigures,
    rejections: Seq<Seq<char>>,
    view: BinanceInternalView,
)
    requires
        internal(up, down, rate, remaining_ms, on_binance) == Some(Some(figures)),
        shows_internal(view, figures, rejections),
    ensures
        says_it_by_share(figures),
        view.cost@ == decimal_text(figures.cost),
        view.fees@ == decimal_text(figures.fees),
        view.risk_buffers@ == decimal_text(figures.risk_buffers),
        view.net_edge@ == decimal_text(figures.net_edge),
        view.size@ == decimal_text(figures.size),
        texts_of(view.rejections@) == rejections,
{
}

} // verus!
