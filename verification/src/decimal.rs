//! Fixed-precision decimals.
//!
//! A [`Decimal`] is `mantissa / 10^scale` with a mantissa of at most 96 bits and a
//! scale of at most 28. Arithmetic is carried out by the `rust_decimal` crate; the
//! contracts below say exactly which results are exact and name the rounded rest.
use vstd::prelude::*;

verus! {

/// The mantissa of a decimal stays strictly below this bound in magnitude.
pub const MANTISSA_LIMIT: i128 = 79_228_162_514_264_337_593_543_950_336;

/// The largest scale a decimal can carry.
pub const MAX_SCALE: u32 = 28;

/// `10^n`.
pub open spec fn pow10(n: nat) -> nat
    decreases n,
{
    if n == 0 {
        1
    } else {
        10 * pow10((n - 1) as nat)
    }
}

/// The mathematical value of a decimal together with its scale.
#[verifier::ext_equal]
pub struct DecimalView {
    pub mantissa: int,
    pub scale: nat,
}

impl DecimalView {
    /// The range of representable decimals.
    pub open spec fn valid(self) -> bool {
        -MANTISSA_LIMIT < self.mantissa < MANTISSA_LIMIT && self.scale <= MAX_SCALE
    }

    /// The value in units of `10^-28`: every valid decimal is a whole number of them.
    pub open spec fn units(self) -> int {
        self.mantissa * pow10((MAX_SCALE - self.scale) as nat)
    }

    /// The mantissa this value has at a larger scale.
    pub open spec fn mantissa_at(self, scale: nat) -> int {
        self.mantissa * pow10((scale - self.scale) as nat)
    }

    pub open spec fn lt(self, other: DecimalView) -> bool {
        self.units() < other.units()
    }

    pub open spec fn le(self, other: DecimalView) -> bool {
        self.units() <= other.units()
    }

    /// Numeric equality; the scales may differ.
    pub open spec fn same(self, other: DecimalView) -> bool {
        self.units() == other.units()
    }

    pub open spec fn is_positive(self) -> bool {
        self.mantissa > 0
    }

    pub open spec fn negated(self) -> DecimalView {
        DecimalView { mantissa: -self.mantissa, scale: self.scale }
    }

    pub open spec fn smaller(self, other: DecimalView) -> DecimalView {
        if other.lt(self) {
            other
        } else {
            self
        }
    }

    pub open spec fn larger(self, other: DecimalView) -> DecimalView {
        if self.lt(other) {
            other
        } else {
            self
        }
    }

    pub open spec fn absolute(self) -> DecimalView {
        DecimalView {
            mantissa: if self.mantissa < 0 {
                -self.mantissa
            } else {
                self.mantissa
            },
            scale: self.scale,
        }
    }

    /// The largest whole number not above the value, with scale zero.
    pub open spec fn floored(self) -> DecimalView {
        DecimalView { mantissa: self.mantissa / (pow10(self.scale) as int), scale: 0 }
    }

    /// The smallest whole number not below the value, with scale zero.
    pub open spec fn ceiled(self) -> DecimalView {
        DecimalView { mantissa: -((-self.mantissa) / (pow10(self.scale) as int)), scale: 0 }
    }

    /// The same value with all trailing zeros of the fraction removed.
    pub open spec fn normalized(self) -> DecimalView
        decreases self.scale,
    {
        if self.mantissa == 0 {
            zero()
        } else if self.scale > 0 && self.mantissa % 10 == 0 {
            DecimalView { mantissa: self.mantissa / 10, scale: (self.scale - 1) as nat }.normalized()
        } else {
            self
        }
    }

    /// The value rounded to at most `places` decimal places, ties to the even neighbour.
    pub open spec fn rounded(self, places: nat) -> DecimalView {
        if self.scale <= places {
            self
        } else {
            let divisor = pow10((self.scale - places) as nat) as int;
            let size = self.absolute().mantissa;
            let kept = size / divisor;
            let rest = 2 * (size % divisor);
            let size_rounded = if rest > divisor || (rest == divisor && kept % 2 == 1) {
                kept + 1
            } else {
                kept
            };
            DecimalView {
                mantissa: if self.mantissa < 0 {
                    -size_rounded
                } else {
                    size_rounded
                },
                scale: places,
            }
        }
    }
}

/// At its own scale a value has its own mantissa.
pub proof fn mantissa_at_own_scale(value: DecimalView)
    ensures
        value.mantissa_at(value.scale) == value.mantissa,
{
    let factor = pow10((value.scale - value.scale) as nat);
    assert(factor == 1);
    assert(value.mantissa * factor == value.mantissa) by (nonlinear_arith)
        requires
            factor == 1,
    ;
}

pub proof fn pow10_positive(n: nat)
    ensures
        pow10(n) > 0,
    decreases n,
{
    if n > 0 {
        pow10_positive((n - 1) as nat);
    }
}

/// The number of units has the sign of the mantissa.
pub proof fn positive_units(value: DecimalView)
    ensures
        value.units() > 0 <==> value.mantissa > 0,
        value.units() == 0 <==> value.mantissa == 0,
{
    let factor = pow10((MAX_SCALE - value.scale) as nat) as int;
    pow10_positive((MAX_SCALE - value.scale) as nat);
    assert(value.mantissa * factor > 0 <==> value.mantissa > 0) by (nonlinear_arith)
        requires
            factor > 0,
    ;
    assert(value.mantissa * factor == 0 <==> value.mantissa == 0) by (nonlinear_arith)
        requires
            factor > 0,
    ;
}

pub proof fn zero_units()
    ensures
        zero().units() == 0,
{
    positive_units(zero());
}

pub proof fn pow10_adds(a: nat, b: nat)
    ensures
        pow10(a + b) == pow10(a) * pow10(b),
    decreases a,
{
    if a == 0 {
        assert(1 * pow10(b) == pow10(b));
    } else {
        let smaller = pow10((a - 1) as nat);
        pow10_adds((a - 1) as nat, b);
        assert((a + b - 1) as nat == (a - 1) as nat + b);
        assert(10 * (smaller * pow10(b)) == (10 * smaller) * pow10(b)) by (nonlinear_arith);
    }
}

pub proof fn negated_units(value: DecimalView)
    ensures
        value.negated().units() == -value.units(),
{
    let factor = pow10((MAX_SCALE - value.scale) as nat) as int;
    assert((-value.mantissa) * factor == -(value.mantissa * factor)) by (nonlinear_arith);
}

/// A value at a larger scale counts the same units.
proof fn lemma_units_at(value: DecimalView, scale: nat)
    requires
        value.scale <= scale <= MAX_SCALE,
    ensures
        value.mantissa_at(scale) * pow10((MAX_SCALE - scale) as nat) == value.units(),
{
    let up = (scale - value.scale) as nat;
    let rest = (MAX_SCALE - scale) as nat;
    pow10_adds(up, rest);
    assert(up + rest == (MAX_SCALE - value.scale) as nat);
    let (mantissa, x, y) = (value.mantissa, pow10(up) as int, pow10(rest) as int);
    assert((mantissa * x) * y == mantissa * (x * y)) by (nonlinear_arith);
}

/// A sum that is not rounded is the sum of the numbers.
pub proof fn exact_sums_add_up(a: DecimalView, b: DecimalView, total: DecimalView)
    requires
        a.scale <= MAX_SCALE,
        b.scale <= MAX_SCALE,
        exact_sum(a, b) == Some(total),
    ensures
        total.units() == a.units() + b.units(),
        total.scale <= MAX_SCALE,
{
    positive_units(a);
    positive_units(b);
    if a.mantissa != 0 && b.mantissa != 0 {
        let scale = max_scale_of(a, b);
        lemma_units_at(a, scale);
        lemma_units_at(b, scale);
        let factor = pow10((MAX_SCALE - scale) as nat) as int;
        let (x, y) = (a.mantissa_at(scale), b.mantissa_at(scale));
        assert((x + y) * factor == x * factor + y * factor) by (nonlinear_arith);
    }
}

/// A product that is not rounded is the product of the numbers.
pub proof fn exact_products_multiply(a: DecimalView, b: DecimalView, result: DecimalView)
    requires
        a.scale <= MAX_SCALE,
        b.scale <= MAX_SCALE,
        exact_product(a, b) == Some(result),
    ensures
        result.units() * whole(1).units() == a.units() * b.units(),
        result.scale <= MAX_SCALE,
{
    positive_units(a);
    positive_units(b);
    if a.mantissa == 0 || b.mantissa == 0 {
        zero_units();
        let (x, y) = (a.units(), b.units());
        assert(x * y == 0) by (nonlinear_arith)
            requires
                x == 0 || y == 0,
        ;
    } else {
        let rest = (MAX_SCALE - (a.scale + b.scale)) as nat;
        pow10_adds(rest, b.scale);
        pow10_adds(rest, a.scale);
        pow10_adds(rest + b.scale, rest + a.scale);
        pow10_adds(rest, MAX_SCALE as nat);
        assert(rest + b.scale == (MAX_SCALE - a.scale) as nat);
        assert(rest + a.scale == (MAX_SCALE - b.scale) as nat);
        assert((rest + b.scale) + (rest + a.scale) == rest + MAX_SCALE as nat);
        let (m, n) = (a.mantissa, b.mantissa);
        let (x, y) = (pow10(rest + b.scale) as int, pow10(rest + a.scale) as int);
        let (z, one) = (pow10(rest) as int, pow10(MAX_SCALE as nat) as int);
        assert(((m * n) * z) * one == (m * x) * (n * y)) by (nonlinear_arith)
            requires
                x * y == z * one,
        ;
        assert(whole(1).units() == one);
    }
}

pub open spec fn zero() -> DecimalView {
    DecimalView { mantissa: 0, scale: 0 }
}

pub open spec fn whole(value: int) -> DecimalView {
    DecimalView { mantissa: value, scale: 0 }
}

pub open spec fn in_range(mantissa: int) -> bool {
    -MANTISSA_LIMIT < mantissa < MANTISSA_LIMIT
}

pub open spec fn max_scale_of(a: DecimalView, b: DecimalView) -> nat {
    if a.scale >= b.scale {
        a.scale
    } else {
        b.scale
    }
}

/// The sum where no rounding can be involved: a zero operand leaves the other one as it
/// is; otherwise both operands, and their sum, fit at the larger of the two scales.
pub open spec fn exact_sum(a: DecimalView, b: DecimalView) -> Option<DecimalView> {
    let scale = max_scale_of(a, b);
    let total = a.mantissa_at(scale) + b.mantissa_at(scale);
    if a.mantissa == 0 {
        Some(b)
    } else if b.mantissa == 0 {
        Some(a)
    } else if in_range(a.mantissa_at(scale)) && in_range(b.mantissa_at(scale)) && in_range(total) {
        Some(DecimalView { mantissa: total, scale })
    } else {
        None
    }
}

/// The product where no rounding can be involved.
pub open spec fn exact_product(a: DecimalView, b: DecimalView) -> Option<DecimalView> {
    if a.mantissa == 0 || b.mantissa == 0 {
        Some(zero())
    } else if a.scale + b.scale <= MAX_SCALE && in_range(a.mantissa * b.mantissa) {
        Some(DecimalView { mantissa: a.mantissa * b.mantissa, scale: a.scale + b.scale })
    } else {
        None
    }
}

/// What `rust_decimal` returns for a sum that is not exact; `None` on overflow.
pub uninterp spec fn rounded_sum(a: DecimalView, b: DecimalView) -> Option<DecimalView>;

/// What `rust_decimal` returns for a difference that is not exact; `None` on overflow.
pub uninterp spec fn rounded_difference(a: DecimalView, b: DecimalView) -> Option<DecimalView>;

/// What `rust_decimal` returns for a product that is not exact; `None` on overflow.
pub uninterp spec fn rounded_product(a: DecimalView, b: DecimalView) -> Option<DecimalView>;

/// What `rust_decimal` returns for a quotient of two nonzero values; `None` on overflow.
pub uninterp spec fn rounded_quotient(a: DecimalView, b: DecimalView) -> Option<DecimalView>;

/// The value `rust_decimal` reads from a text; `None` where it rejects the text.
pub uninterp spec fn parsed_decimal(text: Seq<char>) -> Option<DecimalView>;

pub open spec fn sum(a: DecimalView, b: DecimalView) -> Option<DecimalView> {
    match exact_sum(a, b) {
        Some(total) => Some(total),
        None => rounded_sum(a, b),
    }
}

pub open spec fn difference(a: DecimalView, b: DecimalView) -> Option<DecimalView> {
    match exact_sum(a, b.negated()) {
        Some(rest) => Some(rest),
        None => rounded_difference(a, b),
    }
}

pub open spec fn product(a: DecimalView, b: DecimalView) -> Option<DecimalView> {
    match exact_product(a, b) {
        Some(value) => Some(value),
        None => rounded_product(a, b),
    }
}

/// A decimal is the quotient of two numbers, without rounding.
pub open spec fn is_quotient(a: DecimalView, b: DecimalView, value: DecimalView) -> bool {
    value.valid() && value.units() * b.units() == a.units() * whole(1).units()
}

/// The quotient of two numbers can be represented.
pub open spec fn has_quotient(a: DecimalView, b: DecimalView) -> bool {
    exists|value: DecimalView| is_quotient(a, b, value)
}

/// The size of a number.
pub open spec fn size_of_number(number: int) -> int {
    if number < 0 {
        -number
    } else {
        number
    }
}

/// How far a decimal times the divisor lies from the dividend, in units of units.
pub open spec fn miss(a: DecimalView, b: DecimalView, value: DecimalView) -> int {
    size_of_number(value.units() * b.units() - a.units() * whole(1).units())
}

/// An amount, in units of units, is no more than the rounding of a quotient by `b` to `value`:
/// half of the smallest decimal, or half of the last digit where the mantissa is full.
pub open spec fn within_rounding(amount: int, b: DecimalView, value: DecimalView) -> bool {
    ||| 2 * amount <= size_of_number(b.units())
    ||| amount * (MANTISSA_LIMIT - 10) <= 5 * size_of_number(b.units()) * size_of_number(
        value.units(),
    )
}

/// A quotient is not negative where its operands have the same sign, and not positive otherwise.
pub open spec fn has_quotient_sign(a: DecimalView, b: DecimalView, value: DecimalView) -> bool {
    if (a.mantissa >= 0) == (b.mantissa > 0) {
        value.mantissa >= 0
    } else {
        value.mantissa <= 0
    }
}

/// A decimal is the quotient of two numbers up to rounding, and without rounding where the
/// quotient can be represented.
pub open spec fn fits_quotient(a: DecimalView, b: DecimalView, value: DecimalView) -> bool {
    &&& value.valid()
    &&& has_quotient_sign(a, b, value)
    &&& within_rounding(miss(a, b, value), b, value)
    &&& has_quotient(a, b) ==> is_quotient(a, b, value)
}

/// Division fails on a zero divisor; a zero dividend gives zero. Otherwise it gives what
/// `rust_decimal` returns, which is the quotient up to rounding.
pub open spec fn quotient(a: DecimalView, b: DecimalView) -> Option<DecimalView> {
    if b.mantissa == 0 {
        None
    } else if a.mantissa == 0 {
        Some(zero())
    } else {
        match rounded_quotient(a, b) {
            Some(value) => if fits_quotient(a, b, value) {
                Some(value)
            } else {
                None
            },
            None => None,
        }
    }
}

/// The difference of a number and itself is nothing, whatever the notations.
pub proof fn same_numbers_cancel(a: DecimalView, b: DecimalView)
    requires
        a.valid(),
        b.valid(),
        a.same(b),
    ensures
        difference(a, b) matches Some(rest) && rest.mantissa == 0,
{
    positive_units(a);
    positive_units(b);
    if a.mantissa != 0 {
        let scale = max_scale_of(a, b);
        lemma_units_at(a, scale);
        lemma_units_at(b, scale);
        pow10_positive((MAX_SCALE - scale) as nat);
        let factor = pow10((MAX_SCALE - scale) as nat) as int;
        let (x, y) = (a.mantissa_at(scale), b.mantissa_at(scale));
        assert(x == y) by (nonlinear_arith)
            requires
                x * factor == y * factor,
                factor > 0,
        ;
        mantissa_at_own_scale(a);
        mantissa_at_own_scale(b);
        let shift = pow10((scale - b.scale) as nat) as int;
        assert((-b.mantissa) * shift == -(b.mantissa * shift)) by (nonlinear_arith);
        assert(b.negated().mantissa_at(scale) == -y);
    }
}

/// Rounding down gives the largest whole number that is not above a value.
pub proof fn floors_lie_below(value: DecimalView)
    requires
        value.scale <= MAX_SCALE,
    ensures
        value.floored().units() == value.floored().mantissa * whole(1).units(),
        value.floored().units() <= value.units() < value.floored().units() + whole(1).units(),
{
    let unit = pow10(value.scale) as int;
    let rest = pow10((MAX_SCALE - value.scale) as nat) as int;
    let one = pow10(MAX_SCALE as nat) as int;
    pow10_positive(value.scale);
    pow10_positive((MAX_SCALE - value.scale) as nat);
    pow10_adds(value.scale, (MAX_SCALE - value.scale) as nat);
    assert(value.scale + (MAX_SCALE - value.scale) as nat == MAX_SCALE as nat);
    let (m, f) = (value.mantissa, value.floored().mantissa);
    assert(f * unit <= m < f * unit + unit) by (nonlinear_arith)
        requires
            f == m / unit,
            unit > 0,
    ;
    assert(f * one <= m * rest < f * one + one) by (nonlinear_arith)
        requires
            f * unit <= m < f * unit + unit,
            one == unit * rest,
            rest > 0,
    ;
    assert(whole(1).units() == one);
}

/// Rounding up gives the smallest whole number that is not below a value.
pub proof fn ceilings_lie_above(value: DecimalView)
    requires
        value.scale <= MAX_SCALE,
    ensures
        value.ceiled().units() == value.ceiled().mantissa * whole(1).units(),
        value.ceiled().units() - whole(1).units() < value.units() <= value.ceiled().units(),
{
    floors_lie_below(value.negated());
    negated_units(value);
    let (c, one) = (value.ceiled().mantissa, whole(1).units());
    assert(value.negated().floored().mantissa == -c);
    assert((-c) * one == -(c * one)) by (nonlinear_arith);
}

/// A quotient that can be represented is the quotient of the numbers.
pub proof fn exact_quotients_divide(a: DecimalView, b: DecimalView, value: DecimalView)
    requires
        b.mantissa != 0,
        has_quotient(a, b),
        quotient(a, b) == Some(value),
    ensures
        is_quotient(a, b, value),
{
    if a.mantissa == 0 {
        positive_units(a);
        zero_units();
    }
}

/// What division gives is the quotient up to rounding.
pub proof fn quotients_are_close(a: DecimalView, b: DecimalView, value: DecimalView)
    requires
        quotient(a, b) == Some(value),
    ensures
        fits_quotient(a, b, value),
        has_quotient(a, b) ==> miss(a, b, value) == 0,
{
    positive_units(a);
    positive_units(b);
    zero_units();
    if a.mantissa == 0 {
        assert(value.units() * b.units() == 0) by (nonlinear_arith)
            requires
                value.units() == 0,
        ;
        assert(a.units() * whole(1).units() == 0) by (nonlinear_arith)
            requires
                a.units() == 0,
        ;
    }
}

/// By how much a sum is rounded, in units.
pub open spec fn sum_miss(a: DecimalView, b: DecimalView) -> int {
    match sum(a, b) {
        Some(value) => size_of_number(value.units() - (a.units() + b.units())),
        None => 0,
    }
}

/// By how much a difference is rounded, in units.
pub open spec fn difference_miss(a: DecimalView, b: DecimalView) -> int {
    match difference(a, b) {
        Some(value) => size_of_number(value.units() - (a.units() - b.units())),
        None => 0,
    }
}

/// By how much a product is rounded, in units of units.
pub open spec fn product_miss(a: DecimalView, b: DecimalView) -> int {
    match product(a, b) {
        Some(value) => size_of_number(value.units() * whole(1).units() - a.units() * b.units()),
        None => 0,
    }
}

/// By how much a quotient is rounded, in units of units.
pub open spec fn quotient_miss(a: DecimalView, b: DecimalView) -> int {
    match quotient(a, b) {
        Some(value) => miss(a, b, value),
        None => 0,
    }
}

/// Sums, differences and products whose digits fit are not rounded.
pub proof fn fitting_results_are_exact(a: DecimalView, b: DecimalView)
    requires
        a.scale <= MAX_SCALE,
        b.scale <= MAX_SCALE,
    ensures
        exact_sum(a, b) is Some ==> sum_miss(a, b) == 0,
        exact_sum(a, b.negated()) is Some ==> difference_miss(a, b) == 0,
        exact_product(a, b) is Some ==> product_miss(a, b) == 0,
        b.mantissa != 0 && has_quotient(a, b) ==> quotient_miss(a, b) == 0,
{
    negated_units(b);
    if exact_sum(a, b) is Some {
        exact_sums_add_up(a, b, exact_sum(a, b)->0);
    }
    if exact_sum(a, b.negated()) is Some {
        exact_sums_add_up(a, b.negated(), exact_sum(a, b.negated())->0);
    }
    if exact_product(a, b) is Some {
        exact_products_multiply(a, b, exact_product(a, b)->0);
    }
    if quotient(a, b) is Some {
        quotients_are_close(a, b, quotient(a, b)->0);
    }
}

/// A whole number counts that many times the units of one.
pub proof fn whole_units(value: int)
    ensures
        whole(value).units() == value * whole(1).units(),
        whole(1).units() == 10_000_000_000_000_000_000_000_000_000,
{
    assert(whole(1).units() == 10_000_000_000_000_000_000_000_000_000) by {
        reveal_with_fuel(pow10, 29);
    }
}

/// Rounding to a number of places moves a value by at most half of the last place.
pub proof fn rounding_moves_half_a_place(value: DecimalView, places: nat)
    requires
        value.scale <= MAX_SCALE,
        places <= MAX_SCALE,
    ensures
        2 * size_of_number(value.rounded(places).units() - value.units()) <= pow10(
            (MAX_SCALE - places) as nat,
        ),
        value.rounded(places).scale <= MAX_SCALE,
{
    pow10_positive((MAX_SCALE - places) as nat);
    if value.scale > places {
        let cut = (value.scale - places) as nat;
        let rest = (MAX_SCALE - value.scale) as nat;
        pow10_adds(cut, rest);
        pow10_positive(cut);
        pow10_positive(rest);
        assert(cut + rest == (MAX_SCALE - places) as nat);
        let (d, t) = (pow10(cut) as int, pow10(rest) as int);
        let size = value.absolute().mantissa;
        let kept = size / d;
        let left = size % d;
        let moved = if 2 * left > d || (2 * left == d && kept % 2 == 1) {
            kept + 1
        } else {
            kept
        };
        assert(size == kept * d + left && 0 <= left < d) by (nonlinear_arith)
            requires
                kept == size / d,
                left == size % d,
                d > 0,
        ;
        let gap = moved * d - size;
        assert(gap == -left || gap == d - left) by (nonlinear_arith)
            requires
                moved == kept || moved == kept + 1,
                size == kept * d + left,
                gap == moved * d - size,
        ;
        assert(-d <= 2 * gap <= d) by (nonlinear_arith)
            requires
                gap == moved * d - size,
                size == kept * d + left,
                0 <= left < d,
                (moved == kept + 1 && 2 * left >= d) || (moved == kept && 2 * left <= d),
        ;
        assert(moved * (d * t) - size * t == gap * t) by (nonlinear_arith)
            requires
                gap == moved * d - size,
        ;
        assert(-(d * t) <= 2 * (gap * t) <= d * t) by (nonlinear_arith)
            requires
                -d <= 2 * gap <= d,
                t > 0,
        ;
        if value.mantissa < 0 {
            assert((-moved) * (d * t) == -(moved * (d * t))) by (nonlinear_arith);
            assert(value.mantissa * t == -(size * t)) by (nonlinear_arith)
                requires
                    value.mantissa == -size,
            ;
        }
    }
}

/// The multiple of `step` that is nearest to a number, the even one of two that are equally near.
pub open spec fn nearest_multiple(number: int, step: int) -> int {
    let size = size_of_number(number);
    let kept = size / step;
    let left = size % step;
    let moved = if 2 * left > step || (2 * left == step && kept % 2 == 1) {
        kept + 1
    } else {
        kept
    };
    if number < 0 {
        -(moved * step)
    } else {
        moved * step
    }
}

/// Rounding gives the multiple of the last place that is nearest to the value, however the
/// value is written.
pub proof fn rounding_is_to_the_nearest(value: DecimalView, places: nat)
    requires
        value.scale <= MAX_SCALE,
        places <= MAX_SCALE,
    ensures
        value.rounded(places).units() == nearest_multiple(
            value.units(),
            pow10((MAX_SCALE - places) as nat) as int,
        ),
{
    let step = pow10((MAX_SCALE - places) as nat) as int;
    pow10_positive((MAX_SCALE - places) as nat);
    positive_units(value);
    let m = value.absolute().mantissa;
    let rest = (MAX_SCALE - value.scale) as nat;
    pow10_positive(rest);
    let t = pow10(rest) as int;
    if value.mantissa < 0 {
        assert(value.mantissa * t == -(m * t)) by (nonlinear_arith)
            requires
                value.mantissa == -m,
        ;
        assert(m * t > 0) by (nonlinear_arith)
            requires
                m > 0,
                t > 0,
        ;
    } else {
        assert(m * t >= 0) by (nonlinear_arith)
            requires
                m >= 0,
                t > 0,
        ;
    }
    let size = m * t;
    assert(size_of_number(value.units()) == size);
    if value.scale > places {
        let cut = (value.scale - places) as nat;
        pow10_adds(cut, rest);
        pow10_positive(cut);
        assert(cut + rest == (MAX_SCALE - places) as nat);
        let d = pow10(cut) as int;
        let kept = m / d;
        let left = m % d;
        assert(m == kept * d + left && 0 <= left < d) by (nonlinear_arith)
            requires
                kept == m / d,
                left == m % d,
                d > 0,
        ;
        assert(size == kept * step + left * t) by (nonlinear_arith)
            requires
                size == m * t,
                m == kept * d + left,
                step == d * t,
        ;
        assert(0 <= left * t < step) by (nonlinear_arith)
            requires
                0 <= left < d,
                step == d * t,
                t > 0,
        ;
        vstd::arithmetic::div_mod::lemma_fundamental_div_mod_converse(
            size,
            step,
            kept,
            left * t,
        );
        assert(2 * left > d <==> 2 * (left * t) > step) by (nonlinear_arith)
            requires
                step == d * t,
                t > 0,
        ;
        assert(2 * left == d <==> 2 * (left * t) == step) by (nonlinear_arith)
            requires
                step == d * t,
                t > 0,
        ;
        let moved = if 2 * left > d || (2 * left == d && kept % 2 == 1) {
            kept + 1
        } else {
            kept
        };
        assert((-moved) * step == -(moved * step)) by (nonlinear_arith);
    } else {
        let up = (places - value.scale) as nat;
        pow10_adds(up, (MAX_SCALE - places) as nat);
        assert(up + (MAX_SCALE - places) as nat == rest);
        let u = pow10(up) as int;
        assert(size == (m * u) * step + 0) by (nonlinear_arith)
            requires
                size == m * t,
                t == u * step,
        ;
        vstd::arithmetic::div_mod::lemma_fundamental_div_mod_converse(size, step, m * u, 0);
    }
}

/// [`sum`] of two results, failing where either failed.
pub open spec fn plus(a: Option<DecimalView>, b: Option<DecimalView>) -> Option<DecimalView> {
    match (a, b) {
        (Some(x), Some(y)) => sum(x, y),
        _ => None,
    }
}

/// [`difference`] of two results, failing where either failed.
pub open spec fn minus(a: Option<DecimalView>, b: Option<DecimalView>) -> Option<DecimalView> {
    match (a, b) {
        (Some(x), Some(y)) => difference(x, y),
        _ => None,
    }
}

/// [`product`] of two results, failing where either failed.
pub open spec fn times(a: Option<DecimalView>, b: Option<DecimalView>) -> Option<DecimalView> {
    match (a, b) {
        (Some(x), Some(y)) => product(x, y),
        _ => None,
    }
}

/// [`quotient`] of two results, failing where either failed.
pub open spec fn over(a: Option<DecimalView>, b: Option<DecimalView>) -> Option<DecimalView> {
    match (a, b) {
        (Some(x), Some(y)) => quotient(x, y),
        _ => None,
    }
}

/// The decimal digit `n` as a character.
pub open spec fn digit(n: nat) -> char {
    (48 + n % 10) as char
}

/// `n` in decimal notation without leading zeros.
pub open spec fn digits(n: nat) -> Seq<char>
    decreases n,
{
    if n < 10 {
        seq![digit(n)]
    } else {
        digits(n / 10).push(digit(n))
    }
}

/// The last `width` decimal digits of `n`, zeros included.
pub open spec fn padded_digits(n: nat, width: nat) -> Seq<char>
    decreases width,
{
    if width == 0 {
        Seq::empty()
    } else {
        padded_digits(n / 10, (width - 1) as nat).push(digit(n))
    }
}

/// The decimal notation of a value: sign, whole part, and as many decimal places as the scale.
pub open spec fn decimal_text(value: DecimalView) -> Seq<char> {
    let size = value.absolute().mantissa as nat;
    let sign = if value.mantissa < 0 {
        seq!['-']
    } else {
        Seq::empty()
    };
    let fraction = if value.scale > 0 {
        seq!['.'] + padded_digits(size % pow10(value.scale), value.scale)
    } else {
        Seq::empty()
    };
    sign + digits(size / pow10(value.scale)) + fraction
}

/// The decimal notation of a value without trailing zeros in its fraction.
pub open spec fn plain_notation(value: DecimalView) -> Seq<char> {
    decimal_text(value.normalized())
}

/// The view of an optional decimal.
pub open spec fn view_of(value: Option<Decimal>) -> Option<DecimalView> {
    match value {
        Some(decimal) => Some(decimal@),
        None => None,
    }
}

/// A decimal number: `mantissa / 10^scale`.
#[derive(Clone, Copy, Debug)]
pub struct Decimal {
    mantissa: i128,
    scale: u32,
}

impl View for Decimal {
    type V = DecimalView;

    closed spec fn view(&self) -> DecimalView {
        DecimalView { mantissa: self.mantissa as int, scale: self.scale as nat }
    }
}

impl Decimal {
    #[verifier::type_invariant]
    spec fn well_formed(self) -> bool {
        self@.valid()
    }

    /// `value / 10^scale`.
    pub fn new(value: i64, scale: u32) -> (result: Decimal)
        requires
            scale <= MAX_SCALE,
        ensures
            result@ == (DecimalView { mantissa: value as int, scale: scale as nat }),
    {
        Decimal { mantissa: value as i128, scale }
    }

    /// The whole number `value`.
    pub fn from_i64(value: i64) -> (result: Decimal)
        ensures
            result@ == whole(value as int),
    {
        Decimal::new(value, 0)
    }

    /// The whole number `value`.
    pub fn from_u64(value: u64) -> (result: Decimal)
        ensures
            result@ == whole(value as int),
    {
        Decimal { mantissa: value as i128, scale: 0 }
    }

    pub fn zero() -> (result: Decimal)
        ensures
            result@ == zero(),
    {
        Decimal::new(0, 0)
    }

    pub fn one() -> (result: Decimal)
        ensures
            result@ == whole(1),
    {
        Decimal::new(1, 0)
    }

    /// The value with the given mantissa and scale, where there is one.
    pub fn from_parts(mantissa: i128, scale: u32) -> (result: Option<Decimal>)
        ensures
            view_of(result) == ({
                let value = DecimalView { mantissa: mantissa as int, scale: scale as nat };
                if value.valid() {
                    Some(value)
                } else {
                    None
                }
            }),
    {
        if -MANTISSA_LIMIT < mantissa && mantissa < MANTISSA_LIMIT && scale <= MAX_SCALE {
            Some(Decimal { mantissa, scale })
        } else {
            None
        }
    }

    pub fn mantissa(&self) -> (result: i128)
        ensures
            result == self@.mantissa,
    {
        self.mantissa
    }

    pub fn scale(&self) -> (result: u32)
        ensures
            result == self@.scale,
    {
        self.scale
    }

    /// The sum, or `None` on overflow.
    ///
    /// Trusted: `rust_decimal::Decimal::checked_add`. It is claimed that the result is the
    /// exact sum wherever [`exact_sum`] has one, and otherwise depends on the operands alone.
    #[verifier::external_body]
    fn outer_add(self, other: Decimal) -> (result: Option<Decimal>)
        ensures
            exact_sum(self@, other@) is Some ==> view_of(result) == exact_sum(self@, other@),
            exact_sum(self@, other@) is None ==> view_of(result) == rounded_sum(self@, other@),
    {
        let left = rust_decimal::Decimal::from_i128_with_scale(self.mantissa, self.scale);
        let right = rust_decimal::Decimal::from_i128_with_scale(other.mantissa, other.scale);
        left.checked_add(right).map(|value| Decimal { mantissa: value.mantissa(), scale: value.scale() })
    }

    /// The difference, or `None` on overflow.
    ///
    /// Trusted: `rust_decimal::Decimal::checked_sub`. It is claimed that the result is the
    /// exact sum with the negated operand wherever [`exact_sum`] has one, and otherwise
    /// depends on the operands alone.
    #[verifier::external_body]
    fn outer_sub(self, other: Decimal) -> (result: Option<Decimal>)
        ensures
            exact_sum(self@, other@.negated()) is Some ==> view_of(result) == exact_sum(
                self@,
                other@.negated(),
            ),
            exact_sum(self@, other@.negated()) is None ==> view_of(result) == rounded_difference(
                self@,
                other@,
            ),
    {
        let left = rust_decimal::Decimal::from_i128_with_scale(self.mantissa, self.scale);
        let right = rust_decimal::Decimal::from_i128_with_scale(other.mantissa, other.scale);
        left.checked_sub(right).map(|value| Decimal { mantissa: value.mantissa(), scale: value.scale() })
    }

    /// The product, or `None` on overflow.
    ///
    /// Trusted: `rust_decimal::Decimal::checked_mul`. It is claimed that the result is the
    /// exact product wherever [`exact_product`] has one, and otherwise depends on the
    /// operands alone.
    #[verifier::external_body]
    fn outer_mul(self, other: Decimal) -> (result: Option<Decimal>)
        ensures
            exact_product(self@, other@) is Some ==> view_of(result) == exact_product(
                self@,
                other@,
            ),
            exact_product(self@, other@) is None ==> view_of(result) == rounded_product(
                self@,
                other@,
            ),
    {
        let left = rust_decimal::Decimal::from_i128_with_scale(self.mantissa, self.scale);
        let right = rust_decimal::Decimal::from_i128_with_scale(other.mantissa, other.scale);
        left.checked_mul(right).map(|value| Decimal { mantissa: value.mantissa(), scale: value.scale() })
    }

    /// The quotient, or `None` on a zero divisor or on overflow.
    ///
    /// Trusted: `rust_decimal::Decimal::checked_div`. It is claimed that a zero divisor is
    /// refused, that a zero dividend gives zero, that the result otherwise depends on the
    /// operands alone, that it is the quotient itself wherever that can be represented, that it
    /// is otherwise off by at most half of its last place, and that its sign is that of the
    /// quotient unless it is zero. The last place is the smallest decimal, or that of the last
    /// digit where the mantissa has no room for another. Which way a tie is rounded is left
    /// unsaid, and when a quotient is too large.
    #[verifier::external_body]
    fn outer_div(self, other: Decimal) -> (result: Option<Decimal>)
        ensures
            other@.mantissa == 0 ==> result is None,
            other@.mantissa != 0 && self@.mantissa == 0 ==> view_of(result) == Some(zero()),
            other@.mantissa != 0 && self@.mantissa != 0 ==> view_of(result) == rounded_quotient(
                self@,
                other@,
            ),
            other@.mantissa != 0 && has_quotient(self@, other@) ==> result is Some,
            result matches Some(value) ==> fits_quotient(self@, other@, value@),
    {
        let left = rust_decimal::Decimal::from_i128_with_scale(self.mantissa, self.scale);
        let right = rust_decimal::Decimal::from_i128_with_scale(other.mantissa, other.scale);
        left.checked_div(right).map(|value| Decimal { mantissa: value.mantissa(), scale: value.scale() })
    }

    /// Whether the value is smaller than another.
    ///
    /// Trusted: `<` of `rust_decimal::Decimal`, which compares the numbers whatever their scales.
    #[verifier::external_body]
    fn outer_less(&self, other: &Decimal) -> (result: bool)
        ensures
            result == self@.lt(other@),
    {
        let left = rust_decimal::Decimal::from_i128_with_scale(self.mantissa, self.scale);
        let right = rust_decimal::Decimal::from_i128_with_scale(other.mantissa, other.scale);
        left < right
    }

    /// The sum, or `None` on overflow.
    pub fn checked_add(self, other: Decimal) -> (result: Option<Decimal>)
        ensures
            view_of(result) == sum(self@, other@),
    {
        self.outer_add(other)
    }

    /// The difference, or `None` on overflow.
    pub fn checked_sub(self, other: Decimal) -> (result: Option<Decimal>)
        ensures
            view_of(result) == difference(self@, other@),
    {
        self.outer_sub(other)
    }

    /// The product, or `None` on overflow.
    pub fn checked_mul(self, other: Decimal) -> (result: Option<Decimal>)
        ensures
            view_of(result) == product(self@, other@),
    {
        self.outer_mul(other)
    }

    /// The quotient, or `None` on a zero divisor or on overflow.
    pub fn checked_div(self, other: Decimal) -> (result: Option<Decimal>)
        ensures
            view_of(result) == quotient(self@, other@),
            other@.mantissa != 0 && has_quotient(self@, other@) ==> result is Some,
    {
        self.outer_div(other)
    }

    /// Whether the value is smaller than another.
    pub fn less(&self, other: &Decimal) -> (result: bool)
        ensures
            result == self@.lt(other@),
    {
        self.outer_less(other)
    }

    /// The largest whole number not above the value.
    pub fn floor(self) -> (result: Decimal)
        ensures
            result@ == self@.floored(),
    {
        self.outer_floor()
    }

    /// The smallest whole number not below the value.
    pub fn ceil(self) -> (result: Decimal)
        ensures
            result@ == self@.ceiled(),
    {
        self.outer_ceil()
    }

    /// The value at `places` decimal places, ties to even; unchanged where it has no more.
    pub fn round_dp(self, places: u32) -> (result: Decimal)
        ensures
            result@ == self@.rounded(places as nat),
    {
        self.outer_round_dp(places)
    }

    /// The same number without trailing zeros in its fraction.
    pub fn normalize(self) -> (result: Decimal)
        ensures
            result@ == self@.normalized(),
    {
        self.outer_normalize()
    }

    /// The decimal notation, with as many places as the scale says.
    pub fn text(&self) -> (result: String)
        ensures
            result@ == decimal_text(self@),
            self@.valid(),
    {
        proof {
            use_type_invariant(self);
        }
        self.outer_text()
    }

    /// The decimal notation of the number without trailing zeros in its fraction.
    pub fn plain_text(&self) -> (result: String)
        ensures
            result@ == plain_notation(self@),
            self@.normalized().valid(),
    {
        self.normalize().text()
    }

    /// Reads a decimal from its notation; the notation of a decimal gives it back.
    pub fn parse(text: &str) -> (result: Option<Decimal>)
        ensures
            view_of(result) == parsed_decimal(text@),
            forall|value: DecimalView|
                value.valid() && text@ == #[trigger] decimal_text(value) ==> view_of(result)
                    == Some(value),
    {
        Decimal::outer_parse(text)
    }

    pub fn at_most(&self, other: &Decimal) -> (result: bool)
        ensures
            result == self@.le(other@),
    {
        !other.less(self)
    }

    /// Numeric equality; `1.0` and `1.00` are equal.
    pub fn equals(&self, other: &Decimal) -> (result: bool)
        ensures
            result == self@.same(other@),
    {
        !self.less(other) && !other.less(self)
    }

    pub fn min(self, other: Decimal) -> (result: Decimal)
        ensures
            result@ == self@.smaller(other@),
    {
        if other.less(&self) {
            other
        } else {
            self
        }
    }

    pub fn max(self, other: Decimal) -> (result: Decimal)
        ensures
            result@ == self@.larger(other@),
    {
        if self.less(&other) {
            other
        } else {
            self
        }
    }

    pub fn is_zero(&self) -> (result: bool)
        ensures
            result == (self@.mantissa == 0),
    {
        self.mantissa == 0
    }

    pub fn is_positive(&self) -> (result: bool)
        ensures
            result == self@.is_positive(),
    {
        self.mantissa > 0
    }

    pub fn is_negative(&self) -> (result: bool)
        ensures
            result == (self@.mantissa < 0),
    {
        self.mantissa < 0
    }

    pub fn abs(self) -> (result: Decimal)
        ensures
            result@ == self@.absolute(),
    {
        proof {
            use_type_invariant(self);
        }
        if self.mantissa < 0 {
            Decimal { mantissa: -self.mantissa, scale: self.scale }
        } else {
            self
        }
    }

    /// The largest whole number not above the value.
    ///
    /// Trusted: `rust_decimal::Decimal::floor`.
    #[verifier::external_body]
    fn outer_floor(self) -> (result: Decimal)
        ensures
            result@ == self@.floored(),
    {
        let value = rust_decimal::Decimal::from_i128_with_scale(self.mantissa, self.scale).floor();
        Decimal { mantissa: value.mantissa(), scale: value.scale() }
    }

    /// The smallest whole number not below the value.
    ///
    /// Trusted: `rust_decimal::Decimal::ceil`.
    #[verifier::external_body]
    fn outer_ceil(self) -> (result: Decimal)
        ensures
            result@ == self@.ceiled(),
    {
        let value = rust_decimal::Decimal::from_i128_with_scale(self.mantissa, self.scale).ceil();
        Decimal { mantissa: value.mantissa(), scale: value.scale() }
    }

    /// The value at `places` decimal places, ties to even; unchanged where it has no more.
    ///
    /// Trusted: `rust_decimal::Decimal::round_dp`.
    #[verifier::external_body]
    fn outer_round_dp(self, places: u32) -> (result: Decimal)
        ensures
            result@ == self@.rounded(places as nat),
    {
        let value = rust_decimal::Decimal::from_i128_with_scale(self.mantissa, self.scale).round_dp(places);
        Decimal { mantissa: value.mantissa(), scale: value.scale() }
    }

    /// The same number without trailing zeros in its fraction.
    ///
    /// Trusted: `rust_decimal::Decimal::normalize`.
    #[verifier::external_body]
    fn outer_normalize(self) -> (result: Decimal)
        ensures
            result@ == self@.normalized(),
    {
        let value = rust_decimal::Decimal::from_i128_with_scale(self.mantissa, self.scale).normalize();
        Decimal { mantissa: value.mantissa(), scale: value.scale() }
    }

    /// The decimal notation, with as many places as the scale says.
    ///
    /// Trusted: `rust_decimal`'s `Display`.
    #[verifier::external_body]
    fn outer_text(&self) -> (result: String)
        ensures
            result@ == decimal_text(self@),
    {
        format!("{}", rust_decimal::Decimal::from_i128_with_scale(self.mantissa, self.scale))
    }

    /// Reads a decimal from its notation.
    ///
    /// Trusted: `rust_decimal`'s `FromStr`. It is claimed that the outcome depends on the
    /// text alone, and that the notation of a decimal is read as that decimal. What it makes
    /// of other texts (leading zeros, a plus sign, separators, exponents) is left unsaid.
    #[verifier::external_body]
    fn outer_parse(text: &str) -> (result: Option<Decimal>)
        ensures
            view_of(result) == parsed_decimal(text@),
            forall|value: DecimalView|
                value.valid() && text@ == #[trigger] decimal_text(value) ==> view_of(result)
                    == Some(value),
    {
        let read: Result<rust_decimal::Decimal, rust_decimal::Error> = text.parse();
        read.ok().map(|value| Decimal { mantissa: value.mantissa(), scale: value.scale() })
    }
}

impl PartialEq for Decimal {
    fn eq(&self, other: &Decimal) -> (result: bool) {
        self.equals(other)
    }
}

impl Eq for Decimal {
}

impl vstd::std_specs::cmp::PartialEqSpecImpl for Decimal {
    open spec fn obeys_eq_spec() -> bool {
        true
    }

    open spec fn eq_spec(&self, other: &Decimal) -> bool {
        self@.same(other@)
    }
}

} // verus!
