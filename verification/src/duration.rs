//! Durations: fixed-point values that measure a span of time.

use vstd::prelude::*;
use crate::fixed_point::{
    convert,
    converted,
    lemma_round_trip,
    ConversionError,
    FixedPoint,
    Rounding,
};
use crate::fraction::Fraction;
use crate::time_int::TimeInt;

pub mod units;

verus! {

/// A conversion's outcome with the span read as its tick count.
pub open spec fn span_outcome<D: FixedPoint>(r: Result<D, ConversionError>) -> Result<
    int,
    ConversionError,
> {
    match r {
        Ok(d) => Ok(d.ticks()),
        Err(e) => Err(e),
    }
}

/// The tick count of an optional fixed-point value.
pub open spec fn span_ticks<D: FixedPoint>(r: Option<D>) -> Option<int> {
    match r {
        Some(d) => Some(d.ticks()),
        None => None,
    }
}

/// Whether `a` ticks of length `fa` are a shorter time than `b` ticks of
/// length `fb`: the two spans compared as exact rationals.
pub open spec fn span_less(a: int, fa: Fraction, b: int, fb: Fraction) -> bool {
    a * fa.numerator * fb.denominator < b * fb.numerator * fa.denominator
}

/// Whether `a` ticks of length `fa` are the same time as `b` ticks of
/// length `fb`.
pub open spec fn span_equal(a: int, fa: Fraction, b: int, fb: Fraction) -> bool {
    a * fa.numerator * fb.denominator == b * fb.numerator * fa.denominator
}

/// `base` ticks of length `to` plus `more` ticks of length `from`, the
/// latter converted under `rounding`; `None` where the conversion fails or
/// the sum exceeds `max`.
pub open spec fn ticks_plus(
    base: int,
    more: int,
    from: Fraction,
    to: Fraction,
    rounding: Rounding,
    max: int,
) -> Option<int> {
    match converted(more, from, to, rounding, max) {
        Ok(t) => if base + t <= max {
            Some(base + t)
        } else {
            None
        },
        Err(_) => None,
    }
}

/// `base` ticks of length `to` minus `less` ticks of length `from`, the
/// latter converted under `rounding`; `None` where the conversion fails or
/// the difference would be negative.
pub open spec fn ticks_minus(
    base: int,
    less: int,
    from: Fraction,
    to: Fraction,
    rounding: Rounding,
    max: int,
) -> Option<int> {
    match converted(less, from, to, rounding, max) {
        Ok(t) => if t <= base {
            Some(base - t)
        } else {
            None
        },
        Err(_) => None,
    }
}

/// A span of time in some unit.
///
/// Every unit is a [`FixedPoint`] type; this trait adds what spans have in
/// common whatever their unit: conversion, comparison and arithmetic across
/// units.
pub trait Duration: FixedPoint {
    /// The same span in the unit `Dest`, as far as `rounding` allows.
    fn try_convert<Dest: FixedPoint>(self, rounding: Rounding) -> (r: Result<Dest, ConversionError>)
        ensures
            span_outcome(r) == converted(
                self.ticks(),
                Self::factor(),
                Dest::factor(),
                rounding,
                Dest::T::max_int(),
            ),
    {
        match convert::<Self::T, Dest::T>(
            *self.integer(),
            Self::scaling_factor(),
            Dest::scaling_factor(),
            rounding,
        ) {
            Ok(ticks) => Ok(Dest::new(ticks)),
            Err(e) => Err(e),
        }
    }

    /// Whether this span is strictly shorter than `rhs`, exactly.
    fn shorter_than<Rhs: FixedPoint>(&self, rhs: &Rhs) -> (r: bool)
        ensures
            r == span_less(self.ticks(), Self::factor(), rhs.ticks(), Rhs::factor()),
    {
        let (left, right) = cross_products(
            *self.integer(),
            Self::scaling_factor(),
            *rhs.integer(),
            Rhs::scaling_factor(),
        );
        left < right
    }

    /// Whether this span and `rhs` are the same length of time, exactly.
    fn same_span_as<Rhs: FixedPoint>(&self, rhs: &Rhs) -> (r: bool)
        ensures
            r == span_equal(self.ticks(), Self::factor(), rhs.ticks(), Rhs::factor()),
    {
        let (left, right) = cross_products(
            *self.integer(),
            Self::scaling_factor(),
            *rhs.integer(),
            Rhs::scaling_factor(),
        );
        left == right
    }

    /// This span plus `rhs`, in this span's unit. A remainder of `rhs` in
    /// that unit is dropped. `None` where the result does not fit.
    fn checked_add<Rhs: FixedPoint>(self, rhs: Rhs) -> (r: Option<Self>)
        ensures
            span_ticks(r) == ticks_plus(
                self.ticks(),
                rhs.ticks(),
                Rhs::factor(),
                Self::factor(),
                Rounding::Floor,
                Self::T::max_int(),
            ),
    {
        match convert::<Rhs::T, Self::T>(
            *rhs.integer(),
            Rhs::scaling_factor(),
            Self::scaling_factor(),
            Rounding::Floor,
        ) {
            Ok(more) => match (*self.integer()).checked_add(more) {
                Some(sum) => Some(Self::new(sum)),
                None => None,
            },
            Err(_) => None,
        }
    }

    /// This span minus `rhs`, in this span's unit. A remainder of `rhs` in
    /// that unit is dropped. `None` where `rhs` is the longer.
    fn checked_sub<Rhs: FixedPoint>(self, rhs: Rhs) -> (r: Option<Self>)
        ensures
            span_ticks(r) == ticks_minus(
                self.ticks(),
                rhs.ticks(),
                Rhs::factor(),
                Self::factor(),
                Rounding::Floor,
                Self::T::max_int(),
            ),
    {
        match convert::<Rhs::T, Self::T>(
            *rhs.integer(),
            Rhs::scaling_factor(),
            Self::scaling_factor(),
            Rounding::Floor,
        ) {
            Ok(less) => match (*self.integer()).checked_sub(less) {
                Some(difference) => Some(Self::new(difference)),
                None => None,
            },
            Err(_) => None,
        }
    }
}

/// The two sides of the comparison of `a` ticks of length `fa` with `b`
/// ticks of length `fb`, over the common denominator.
fn cross_products<A: TimeInt, B: TimeInt>(a: A, fa: Fraction, b: B, fb: Fraction) -> (r: (
    u128,
    u128,
))
    ensures
        r.0 == a.as_int() * fa.numerator * fb.denominator,
        r.1 == b.as_int() * fb.numerator * fa.denominator,
{
    proof {
        A::lemma_bounds(a);
        A::lemma_max_int();
        B::lemma_bounds(b);
        B::lemma_max_int();
        crate::fixed_point::lemma_numerator_fits(
            a.as_int(),
            fa.numerator as int,
            fb.denominator as int,
        );
        crate::fixed_point::lemma_numerator_fits(
            b.as_int(),
            fb.numerator as int,
            fa.denominator as int,
        );
    }
    let left: u128 = a.widen() * (fa.numerator as u128) * (fb.denominator as u128);
    let right: u128 = b.widen() * (fb.numerator as u128) * (fa.denominator as u128);
    (left, right)
}

/// Round trip between two units: where the span `a` converts to the unit
/// `B` without remainder and the result is `b`, converting `b` back
/// without remainder succeeds, and what it gives is `a` itself.
pub proof fn lemma_duration_round_trip<A: Duration, B: Duration>(a: A, b: B)
    requires
        A::factor().well_formed(),
        B::factor().well_formed(),
        converted(a.ticks(), A::factor(), B::factor(), Rounding::Exact, B::T::max_int()) == Ok::<
            int,
            ConversionError,
        >(b.ticks()),
    ensures
        converted(b.ticks(), B::factor(), A::factor(), Rounding::Exact, A::T::max_int()) == Ok::<
            int,
            ConversionError,
        >(a.ticks()),
        forall|back: Result<A, ConversionError>| #[trigger]
            span_outcome(back) == converted(
                b.ticks(),
                B::factor(),
                A::factor(),
                Rounding::Exact,
                A::T::max_int(),
            ) ==> back == Ok::<A, ConversionError>(a),
{
    A::lemma_ticks_bounds(a);
    lemma_round_trip(a.ticks(), A::factor(), B::factor(), A::T::max_int(), B::T::max_int());
    assert forall|back: Result<A, ConversionError>| #[trigger]
        span_outcome(back) == converted(
            b.ticks(),
            B::factor(),
            A::factor(),
            Rounding::Exact,
            A::T::max_int(),
        ) implies back == Ok::<A, ConversionError>(a) by {
        match back {
            Ok(again) => {
                A::lemma_ticks_injective(again, a);
            },
            Err(_) => {},
        }
    }
}

} // verus!
