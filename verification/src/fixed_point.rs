//! Fixed-point values and the conversion between tick lengths.
//!
//! A tick count `v` under the scaling factor `n / d` stands for `v * n / d`
//! seconds. Converting it to the factor `n' / d'` means finding the count
//! `v * n * d' / (d * n')`; the quotient is taken over the integers, and a
//! [`Rounding`] says what happens to a remainder.

use vstd::prelude::*;
use vstd::arithmetic::div_mod::{
    lemma_div_is_ordered,
    lemma_fundamental_div_mod,
    lemma_fundamental_div_mod_converse,
};
use crate::fraction::{ratio, Fraction};
use crate::time_int::TimeInt;

verus! {

/// Why a tick count could not be converted.
#[derive(Clone, Copy, Debug, PartialEq, Eq, Structural)]
pub enum ConversionError {
    /// The result does not fit in the target representation.
    Overflow,
    /// An exact result was asked for and the division leaves a remainder.
    ExactRequired,
}

/// What a conversion does when the division leaves a remainder.
#[derive(Clone, Copy, Debug, PartialEq, Eq, Structural)]
pub enum Rounding {
    /// Fail with [`ConversionError::ExactRequired`].
    Exact,
    /// Drop the remainder.
    Floor,
    /// Round up to the next tick.
    Ceil,
    /// Round up, then add one tick more: the span from an arbitrary moment
    /// within one tick to the end of the result covers the whole value.
    Corrected,
}

/// The dividend of the conversion of `value` ticks from `from` to `to`.
pub open spec fn scaled_numerator(value: int, from: Fraction, to: Fraction) -> int {
    value * from.numerator * to.denominator
}

/// The divisor of a conversion from `from` to `to`.
pub open spec fn scaled_denominator(from: Fraction, to: Fraction) -> int {
    from.denominator * to.numerator
}

/// The converted tick count with the remainder dropped.
pub open spec fn floor_ticks(value: int, from: Fraction, to: Fraction) -> int {
    scaled_numerator(value, from, to) / scaled_denominator(from, to)
}

/// Whether the conversion leaves no remainder.
pub open spec fn is_exact(value: int, from: Fraction, to: Fraction) -> bool {
    scaled_numerator(value, from, to) % scaled_denominator(from, to) == 0
}

/// The ticks that a rounding adds to the floor.
pub open spec fn correction(rounding: Rounding, exact: bool) -> int {
    match rounding {
        Rounding::Exact => 0,
        Rounding::Floor => 0,
        Rounding::Ceil => if exact { 0 } else { 1 },
        Rounding::Corrected => if exact { 1 } else { 2 },
    }
}

/// The converted tick count before it is checked against a range.
pub open spec fn rounded_ticks(value: int, from: Fraction, to: Fraction, rounding: Rounding) -> int {
    floor_ticks(value, from, to) + correction(rounding, is_exact(value, from, to))
}

/// The outcome of converting `value` ticks from `from` to `to` into a
/// representation whose largest value is `max`.
///
/// A fraction with a zero for either part is no tick length: between two
/// factors that are not both usable nothing can be converted, and the
/// conversion overflows.
pub open spec fn converted(
    value: int,
    from: Fraction,
    to: Fraction,
    rounding: Rounding,
    max: int,
) -> Result<int, ConversionError> {
    if !from.well_formed() || !to.well_formed() || rounded_ticks(value, from, to, rounding)
        > max {
        Err(ConversionError::Overflow)
    } else if rounding == Rounding::Exact && !is_exact(value, from, to) {
        Err(ConversionError::ExactRequired)
    } else {
        Ok(rounded_ticks(value, from, to, rounding))
    }
}

/// A conversion's outcome with the tick count read as an integer.
pub open spec fn outcome<D: TimeInt>(r: Result<D, ConversionError>) -> Result<int, ConversionError> {
    match r {
        Ok(t) => Ok(t.as_int()),
        Err(e) => Err(e),
    }
}

/// The dividend of any conversion fits in 128 bits.
pub(crate) proof fn lemma_numerator_fits(value: int, a: int, b: int)
    requires
        0 <= value <= u64::MAX,
        0 <= a <= u32::MAX,
        0 <= b <= u32::MAX,
    ensures
        0 <= value * a <= 0xffff_ffff_ffff_ffff * 0xffff_ffff,
        0 <= value * a * b <= 0xffff_ffff_ffff_ffff * 0xffff_ffff * 0xffff_ffff,
{
    assert(0 <= value * a <= 0xffff_ffff_ffff_ffff * 0xffff_ffff) by (nonlinear_arith)
        requires
            0 <= value <= 0xffff_ffff_ffff_ffff,
            0 <= a <= 0xffff_ffff,
    ;
    let va = value * a;
    assert(0 <= va * b <= (0xffff_ffff_ffff_ffff * 0xffff_ffff) * 0xffff_ffff) by (nonlinear_arith)
        requires
            0 <= va <= 0xffff_ffff_ffff_ffff * 0xffff_ffff,
            0 <= b <= 0xffff_ffff,
    ;
}

/// The divisor of any conversion fits in 64 bits, and between usable
/// factors it is positive.
proof fn lemma_denominator_fits(a: int, b: int)
    requires
        0 <= a <= u32::MAX,
        0 <= b <= u32::MAX,
    ensures
        0 <= a * b <= 0xffff_ffff * 0xffff_ffff,
        0 < a && 0 < b ==> 0 < a * b,
{
    assert(0 <= a * b <= 0xffff_ffff * 0xffff_ffff && (0 < a && 0 < b ==> 0 < a * b))
        by (nonlinear_arith)
        requires
            0 <= a <= 0xffff_ffff,
            0 <= b <= 0xffff_ffff,
    ;
}

/// Converts `value` ticks of length `from` into ticks of length `to`.
///
/// The product is formed in 128 bits, where it cannot overflow for any tick
/// count of up to 64 bits, and only the final count is narrowed.
///
/// What [`converted`] is on given values, [`lemma_floor_ticks_is`] tells
/// from a quotient and a remainder.
pub fn convert<S: TimeInt, D: TimeInt>(
    value: S,
    from: Fraction,
    to: Fraction,
    rounding: Rounding,
) -> (r: Result<D, ConversionError>)
    ensures
        outcome(r) == converted(value.as_int(), from, to, rounding, D::max_int()),
{
    proof {
        S::lemma_bounds(value);
        S::lemma_max_int();
        lemma_numerator_fits(value.as_int(), from.numerator as int, to.denominator as int);
        lemma_denominator_fits(from.denominator as int, to.numerator as int);
    }
    let scaled: u128 = value.widen() * (from.numerator as u128);
    let dividend: u128 = scaled * (to.denominator as u128);
    let divisor: u128 = (from.denominator as u128) * (to.numerator as u128);
    if !from.is_usable() || !to.is_usable() {
        return Err(ConversionError::Overflow);
    }
    let quotient: u128 = dividend / divisor;
    let exact: bool = dividend % divisor == 0;
    proof {
        assert(quotient <= dividend) by (nonlinear_arith)
            requires
                quotient == dividend / divisor,
                divisor > 0,
                dividend >= 0,
        ;
    }
    let extra: u128 = match rounding {
        Rounding::Exact => 0,
        Rounding::Floor => 0,
        Rounding::Ceil => if exact { 0 } else { 1 },
        Rounding::Corrected => if exact { 1 } else { 2 },
    };
    match D::narrow(quotient + extra) {
        None => Err(ConversionError::Overflow),
        Some(ticks) => match rounding {
            Rounding::Exact => if exact {
                Ok(ticks)
            } else {
                Err(ConversionError::ExactRequired)
            },
            _ => Ok(ticks),
        },
    }
}

/// How the rounded tick count brackets the exact quotient: with `n` the
/// dividend and `d` the divisor of the conversion, the floor `t` has
/// `t * d <= n < (t + 1) * d`, the ceiling has `(t - 1) * d < n <= t * d`,
/// and the corrected count lies one tick above the ceiling.
pub proof fn lemma_rounded_brackets(value: int, from: Fraction, to: Fraction, rounding: Rounding)
    requires
        from.well_formed(),
        to.well_formed(),
        0 <= value,
    ensures
        0 <= floor_ticks(value, from, to) <= rounded_ticks(value, from, to, rounding),
        is_exact(value, from, to) <==> floor_ticks(value, from, to) * scaled_denominator(from, to)
            == scaled_numerator(value, from, to),
        match rounding {
            Rounding::Exact | Rounding::Floor => {
                &&& rounded_ticks(value, from, to, rounding) * scaled_denominator(from, to)
                    <= scaled_numerator(value, from, to)
                &&& scaled_numerator(value, from, to) < (rounded_ticks(value, from, to, rounding)
                    + 1) * scaled_denominator(from, to)
            },
            Rounding::Ceil => {
                &&& (rounded_ticks(value, from, to, rounding) - 1) * scaled_denominator(from, to)
                    < scaled_numerator(value, from, to)
                &&& scaled_numerator(value, from, to) <= rounded_ticks(value, from, to, rounding)
                    * scaled_denominator(from, to)
            },
            Rounding::Corrected => {
                &&& (rounded_ticks(value, from, to, rounding) - 2) * scaled_denominator(from, to)
                    < scaled_numerator(value, from, to)
                &&& scaled_numerator(value, from, to) <= (rounded_ticks(value, from, to, rounding)
                    - 1) * scaled_denominator(from, to)
            },
        },
{
    let n = scaled_numerator(value, from, to);
    let d = scaled_denominator(from, to);
    let q = n / d;
    let a = from.numerator as int;
    let b = to.denominator as int;
    assert(0 <= n) by (nonlinear_arith)
        requires
            n == value * a * b,
            0 <= value,
            0 <= a,
            0 <= b,
    ;
    lemma_denominator_fits(from.denominator as int, to.numerator as int);
    lemma_fundamental_div_mod(n, d);
    assert(0 <= n % d < d) by (nonlinear_arith)
        requires
            d > 0,
    ;
    assert(q * d == d * q && (q + 1) * d == d * q + d && (q - 1) * d == d * q - d) by (nonlinear_arith);
    assert(0 <= q) by (nonlinear_arith)
        requires
            n == d * q + n % d,
            0 <= n,
            n % d < d,
            d > 0,
    ;
}

/// Pins a conversion on given values: where the dividend is
/// `quotient * divisor + remainder` with `0 <= remainder < divisor`, the
/// floor is `quotient`, and the conversion is exact just where `remainder`
/// is zero.
pub proof fn lemma_floor_ticks_is(
    value: int,
    from: Fraction,
    to: Fraction,
    quotient: int,
    remainder: int,
)
    requires
        from.well_formed(),
        to.well_formed(),
        0 <= remainder < from.denominator * to.numerator,
        value * from.numerator * to.denominator == quotient * (from.denominator * to.numerator)
            + remainder,
    ensures
        floor_ticks(value, from, to) == quotient,
        is_exact(value, from, to) == (remainder == 0),
{
    let n = scaled_numerator(value, from, to);
    let d = scaled_denominator(from, to);
    lemma_fundamental_div_mod_converse(n, d, quotient, remainder);
}

/// The floor of a conversion grows with the count that is converted.
pub proof fn lemma_floor_monotonic(small: int, large: int, from: Fraction, to: Fraction)
    requires
        from.well_formed(),
        to.well_formed(),
        0 <= small <= large,
    ensures
        floor_ticks(small, from, to) <= floor_ticks(large, from, to),
{
    let d = scaled_denominator(from, to);
    let k = from.numerator * to.denominator;
    lemma_denominator_fits(from.denominator as int, to.numerator as int);
    let ns = scaled_numerator(small, from, to);
    let nl = scaled_numerator(large, from, to);
    assert(ns == small * k && nl == large * k && ns <= nl) by (nonlinear_arith)
        requires
            ns == small * from.numerator * to.denominator,
            nl == large * from.numerator * to.denominator,
            k == from.numerator * to.denominator,
            0 <= small <= large,
            0 <= k,
    ;
    lemma_div_is_ordered(ns, nl, d);
}

/// Between two factors that denote the same tick length the count is kept,
/// whatever the rounding short of a correction.
pub proof fn lemma_same_factor_keeps_ticks(value: int, from: Fraction, to: Fraction, rounding: Rounding)
    requires
        from.well_formed(),
        to.well_formed(),
        from.same_value(to),
        0 <= value,
    ensures
        is_exact(value, from, to),
        floor_ticks(value, from, to) == value,
        rounding != Rounding::Corrected ==> rounded_ticks(value, from, to, rounding) == value,
{
    let a = from.numerator as int;
    let b = to.denominator as int;
    let d = scaled_denominator(from, to);
    assert(a * b == d && value * a * b == value * d) by (nonlinear_arith)
        requires
            a * b == to.numerator * from.denominator,
            d == from.denominator * to.numerator,
    ;
    lemma_denominator_fits(from.denominator as int, to.numerator as int);
    lemma_floor_ticks_is(value, from, to, value, 0);
}

/// Where the length `to` divides the length `from` evenly, every count
/// converts without remainder.
pub proof fn lemma_dividing_factor_is_exact(value: int, from: Fraction, to: Fraction)
    requires
        from.well_formed(),
        to.well_formed(),
        (from.numerator * to.denominator) % scaled_denominator(from, to) == 0,
    ensures
        is_exact(value, from, to),
{
    let k = from.numerator * to.denominator;
    let d = scaled_denominator(from, to);
    lemma_denominator_fits(from.denominator as int, to.numerator as int);
    lemma_fundamental_div_mod(k, d);
    let m = k / d;
    assert(value * from.numerator * to.denominator == (value * m) * d + 0) by (nonlinear_arith)
        requires
            k == from.numerator * to.denominator,
            k == d * m + 0,
    ;
    lemma_floor_ticks_is(value, from, to, value * m, 0);
}

/// Round trip: where `value` ticks of length `a` convert to length `b`
/// without remainder and within range, converting the result back gives
/// exactly `value`.
pub proof fn lemma_round_trip(value: int, a: Fraction, b: Fraction, max_a: int, max_b: int)
    requires
        a.well_formed(),
        b.well_formed(),
        0 <= value <= max_a,
        converted(value, a, b, Rounding::Exact, max_b) is Ok,
    ensures
        converted(
            converted(value, a, b, Rounding::Exact, max_b)->Ok_0,
            b,
            a,
            Rounding::Exact,
            max_a,
        ) == Ok::<int, ConversionError>(value),
{
    let there = floor_ticks(value, a, b);
    lemma_rounded_brackets(value, a, b, Rounding::Exact);
    let an = a.numerator as int;
    let ad = a.denominator as int;
    let bn = b.numerator as int;
    let bd = b.denominator as int;
    lemma_denominator_fits(bd, an);
    assert(there * bn * ad == value * (bd * an)) by (nonlinear_arith)
        requires
            there * (ad * bn) == value * an * bd,
    ;
    lemma_floor_ticks_is(there, b, a, value, 0);
}

/// Overflow is reported, never wrapped: a count beyond the range gives
/// [`ConversionError::Overflow`] under every rounding, a count that is
/// returned lies in range and not below the exact quotient, and a
/// conversion to ticks that are not longer never returns less than it was
/// given.
pub proof fn lemma_conversion_never_wraps(
    value: int,
    from: Fraction,
    to: Fraction,
    rounding: Rounding,
    max: int,
)
    requires
        from.well_formed(),
        to.well_formed(),
        0 <= value,
    ensures
        floor_ticks(value, from, to) > max ==> converted(value, from, to, rounding, max) == Err::<
            int,
            ConversionError,
        >(ConversionError::Overflow),
        converted(value, from, to, rounding, max) matches Ok(t) ==> {
            &&& floor_ticks(value, from, to) <= t <= max
            &&& t == rounded_ticks(value, from, to, rounding)
            &&& scaled_denominator(from, to) <= from.numerator * to.denominator ==> value <= t
        },
{
    lemma_rounded_brackets(value, from, to, rounding);
    let n = scaled_numerator(value, from, to);
    let d = scaled_denominator(from, to);
    let q = floor_ticks(value, from, to);
    let k = from.numerator * to.denominator;
    if d <= k {
        lemma_rounded_brackets(value, from, to, Rounding::Floor);
        assert(n == value * k) by (nonlinear_arith)
            requires
                n == value * from.numerator * to.denominator,
                k == from.numerator * to.denominator,
        ;
        assert(value <= q) by (nonlinear_arith)
            requires
                n == value * k,
                n < (q + 1) * d,
                0 < d <= k,
                0 <= value,
                0 <= q,
        ;
    }
}

/// A tick count whose tick length is fixed by its type.
///
/// The value stands for `ticks * SCALING_NUMERATOR / SCALING_DENOMINATOR`
/// seconds; both constants are positive.
pub trait FixedPoint: Sized + Copy {
    /// The integer that holds the tick count.
    type T: TimeInt;

    /// The numerator of the length of one tick in seconds.
    const SCALING_NUMERATOR: u32;

    /// The denominator of the length of one tick in seconds.
    const SCALING_DENOMINATOR: u32;

    /// The length of one tick in seconds, as contracts speak of it.
    spec fn factor() -> Fraction;

    /// The tick length is what the two constants say.
    proof fn lemma_factor()
        ensures
            Self::factor() == ratio(Self::SCALING_NUMERATOR, Self::SCALING_DENOMINATOR),
    ;

    /// The tick count as a mathematical integer.
    spec fn ticks(self) -> int;

    /// A fixed-point value is its tick count and nothing more.
    proof fn lemma_ticks_injective(a: Self, b: Self)
        requires
            a.ticks() == b.ticks(),
        ensures
            a == b,
    ;

    /// The tick count lies in the range of the integer that holds it.
    proof fn lemma_ticks_bounds(d: Self)
        ensures
            0 <= d.ticks() <= Self::T::max_int(),
    ;

    /// The value of `value` ticks.
    fn new(value: Self::T) -> (d: Self)
        ensures
            d.ticks() == value.as_int(),
    ;

    /// The tick count.
    fn integer(&self) -> (value: &Self::T)
        ensures
            value.as_int() == self.ticks(),
    ;

    /// The length of one tick in seconds.
    fn scaling_factor() -> (f: Fraction)
        ensures
            f == Self::factor(),
    {
        proof {
            Self::lemma_factor();
        }
        Fraction { numerator: Self::SCALING_NUMERATOR, denominator: Self::SCALING_DENOMINATOR }
    }

    /// The count of this type's ticks that stands for the same time as
    /// `value` ticks of length `from`, with the remainder dropped.
    fn convert_ticks(value: Self::T, from: Fraction) -> (r: Result<Self::T, ConversionError>)
        ensures
            outcome(r) == converted(
                value.as_int(),
                from,
                Self::factor(),
                Rounding::Floor,
                Self::T::max_int(),
            ),
    {
        convert(value, from, Self::scaling_factor(), Rounding::Floor)
    }

    /// As [`FixedPoint::convert_ticks`], under the rounding that the caller
    /// selects.
    fn convert_ticks_with(value: Self::T, from: Fraction, rounding: Rounding) -> (r: Result<
        Self::T,
        ConversionError,
    >)
        ensures
            outcome(r) == converted(
                value.as_int(),
                from,
                Self::factor(),
                rounding,
                Self::T::max_int(),
            ),
    {
        convert(value, from, Self::scaling_factor(), rounding)
    }
}

} // verus!
