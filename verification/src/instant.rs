//! Instants: points in time on one clock.

use vstd::prelude::*;
use crate::clock::{clock_factor, Clock, ClockExt};
use crate::duration::{span_outcome, ticks_plus, Duration};
use crate::fixed_point::{
    convert,
    converted,
    lemma_rounded_brackets,
    ConversionError,
    FixedPoint,
    Rounding,
};
use crate::time_int::{lemma_wrapped_difference, wrapped, TimeInt};

pub mod order;

verus! {

/// The tick count of the clock `C` at the moment it was read.
///
/// Instants of one clock are ordered by their counts, and `==`, `<` and
/// their kin compare them so. Nothing relates the instants of two clocks,
/// nor those of two objects of one clock type.
///
/// The field is public so that a clock can build the instant it reads.
#[derive(Debug)]
pub struct Instant<C: Clock> {
    pub ticks: C::T,
}

impl<C: Clock> View for Instant<C> {
    type V = int;

    /// The tick count as a mathematical integer.
    open spec fn view(&self) -> int {
        self.ticks.as_int()
    }
}

impl<C: Clock> Clone for Instant<C> {
    fn clone(&self) -> (r: Self)
        ensures
            r == *self,
    {
        Instant { ticks: self.ticks }
    }
}

impl<C: Clock> Copy for Instant<C> {
}

/// The count of an optional instant.
pub open spec fn instant_ticks<C: Clock>(i: Option<Instant<C>>) -> Option<int> {
    match i {
        Some(i) => Some(i@),
        None => None,
    }
}

/// The ticks that the counter of `C` made from `earlier` to `later`, if it
/// passed its largest value at most once on the way.
pub open spec fn elapsed_ticks<C: Clock>(later: Instant<C>, earlier: Instant<C>) -> int {
    wrapped(later@ - earlier@, C::T::max_int())
}

/// The count at which a span of `duration` that begins at `start` is over:
/// the span is rounded up to whole ticks of the clock, and there is no such
/// count where the counter cannot hold it, nor where a tick length is not
/// usable.
pub open spec fn deadline_after<C: Clock, Dur: Duration>(start: Instant<C>, duration: Dur) -> Option<
    int,
> {
    ticks_plus(
        start@,
        duration.ticks(),
        Dur::factor(),
        clock_factor::<C>(),
        Rounding::Ceil,
        C::T::max_int(),
    )
}

impl<C: Clock> Instant<C> {
    /// The instant at which the clock's count was `ticks`.
    pub fn new(ticks: C::T) -> (i: Self)
        ensures
            i@ == ticks.as_int(),
    {
        Instant { ticks }
    }

    /// The clock's count at this instant.
    pub fn ticks(&self) -> (t: C::T)
        ensures
            t.as_int() == self@,
    {
        self.ticks
    }

    /// An instant is its tick count and nothing more, and the count lies in
    /// the range of the clock's integer.
    pub proof fn lemma_view(a: Self, b: Self)
        ensures
            0 <= a@ <= C::T::max_int(),
            a@ == b@ ==> a == b,
    {
        C::T::lemma_bounds(a.ticks);
        if a@ == b@ {
            C::T::lemma_as_int_injective(a.ticks, b.ticks);
        }
    }

    /// The time from `earlier` to this instant in the unit `Dur`, with the
    /// remainder dropped.
    ///
    /// The difference of the two counts is taken modulo the width of the
    /// clock's integer, so the result is right also where the counter
    /// wrapped once in between. Fails where `Dur` cannot hold the result,
    /// and where a tick length is not usable.
    pub fn duration_since<Dur: Duration>(&self, earlier: &Self) -> (r: Result<Dur, ConversionError>)
        ensures
            span_outcome(r) == converted(
                elapsed_ticks(*self, *earlier),
                clock_factor::<C>(),
                Dur::factor(),
                Rounding::Floor,
                Dur::T::max_int(),
            ),
    {
        let elapsed = self.ticks.wrapping_sub(earlier.ticks);
        match convert::<C::T, Dur::T>(
            elapsed,
            C::scaling_factor(),
            Dur::scaling_factor(),
            Rounding::Floor,
        ) {
            Ok(ticks) => Ok(Dur::new(ticks)),
            Err(e) => Err(e),
        }
    }

    /// The instant `duration` after this one, the span rounded up to whole
    /// ticks so that the result is never too early. `None` exactly where
    /// there is no [`deadline_after`] this instant: the count never wraps.
    pub fn checked_add<Dur: Duration>(&self, duration: Dur) -> (r: Option<Self>)
        ensures
            instant_ticks(r) == deadline_after(*self, duration),
    {
        match convert::<Dur::T, C::T>(
            *duration.integer(),
            Dur::scaling_factor(),
            C::scaling_factor(),
            Rounding::Ceil,
        ) {
            Ok(more) => match self.ticks.checked_add(more) {
                Some(sum) => Some(Instant { ticks: sum }),
                None => None,
            },
            Err(_) => None,
        }
    }
}

/// Without wraparound the time between two instants is the difference of
/// their counts: for instants read in the order `first`, `second`, `third`,
/// the elapsed ticks are exact, never negative, and grow with the later
/// instant, and so does every duration computed from them.
pub proof fn lemma_duration_since_monotonic<C: Clock, Dur: Duration>(
    first: Instant<C>,
    second: Instant<C>,
    third: Instant<C>,
)
    requires
        clock_factor::<C>().well_formed(),
        Dur::factor().well_formed(),
        first@ <= second@ <= third@,
    ensures
        elapsed_ticks(second, first) == second@ - first@,
        0 <= elapsed_ticks(second, first) <= elapsed_ticks(third, first),
        0 <= crate::fixed_point::floor_ticks(
            elapsed_ticks(second, first),
            clock_factor::<C>(),
            Dur::factor(),
        ) <= crate::fixed_point::floor_ticks(
            elapsed_ticks(third, first),
            clock_factor::<C>(),
            Dur::factor(),
        ),
{
    let max = C::T::max_int();
    Instant::lemma_view(first, second);
    Instant::lemma_view(third, second);
    lemma_wrapped_difference(second@, first@, max);
    lemma_wrapped_difference(third@, first@, max);
    let from = clock_factor::<C>();
    let to = Dur::factor();
    let e2 = elapsed_ticks(second, first);
    let e3 = elapsed_ticks(third, first);
    lemma_rounded_brackets(e2, from, to, Rounding::Floor);
    lemma_rounded_brackets(e3, from, to, Rounding::Floor);
    crate::fixed_point::lemma_floor_monotonic(e2, e3, from, to);
}

/// The count never wraps on addition: a deadline that is returned is not
/// before its start and lies in the counter's range, and where the exact
/// sum exceeds the range there is none.
pub proof fn lemma_checked_add_never_wraps<C: Clock, Dur: Duration>(start: Instant<C>, duration: Dur)
    requires
        clock_factor::<C>().well_formed(),
        Dur::factor().well_formed(),
    ensures
        deadline_after(start, duration) matches Some(t) ==> start@ <= t <= C::T::max_int(),
        start@ + crate::fixed_point::floor_ticks(
            duration.ticks(),
            Dur::factor(),
            clock_factor::<C>(),
        ) > C::T::max_int() ==> deadline_after(start, duration) is None,
{
    Dur::lemma_ticks_bounds(duration);
    lemma_rounded_brackets(
        duration.ticks(),
        Dur::factor(),
        clock_factor::<C>(),
        Rounding::Ceil,
    );
    Instant::lemma_view(start, start);
}

} // verus!
