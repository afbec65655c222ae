//! Clocks: the source of instants.

use vstd::prelude::*;
use core::hash::Hash;
use crate::duration::Duration;
use crate::fixed_point::FixedPoint;
use crate::fraction::{ratio, Fraction};
use crate::instant::Instant;
use crate::time_int::TimeInt;
use crate::timer::param::{Disarmed, OneShot};
use crate::timer::Timer;

verus! {

/// Why a clock could not be read.
#[non_exhaustive]
#[derive(Debug, PartialEq, Eq, Hash, Structural)]
pub enum Error {
    /// The exact cause of the failure is unknown.
    Unspecified,
    /// The clock has stopped or was never started.
    NotRunning,
}

impl Default for Error {
    fn default() -> (e: Self)
        ensures
            e == Error::Unspecified,
    {
        Error::Unspecified
    }
}

/// A hardware timer, a real-time clock or another source of tick counts.
///
/// A clock is characterised by the unsigned integer that holds its count and
/// by the length of one tick in seconds,
/// `SCALING_NUMERATOR / SCALING_DENOMINATOR`, both positive. On a clock
/// with a zero for either, no time can be measured: every conversion to or
/// from its ticks fails.
///
/// Nothing is asked of what [`Clock::try_now`] returns. An implementation
/// that knows more says so in an `ensures` clause of its own, and the
/// contracts of all that reads the clock hand it on: they are stated over
/// [`may_read`].
pub trait Clock: Sized {
    /// The integer that holds the tick count.
    type T: TimeInt + Hash;

    /// The numerator of the length of one tick in seconds.
    const SCALING_NUMERATOR: u32;

    /// The denominator of the length of one tick in seconds.
    const SCALING_DENOMINATOR: u32;

    /// Reads the current instant.
    ///
    /// Fails with [`Error::NotRunning`] or [`Error::Unspecified`].
    fn try_now(&self) -> Result<Instant<Self>, Error>;
}

/// Whether `reading` is an answer that `clock` may give when it is read.
///
/// Of a clock about which nothing is known, every answer is possible. What
/// reads a clock states its own result in terms of such an answer.
pub open spec fn may_read<C: Clock>(clock: &C, reading: Result<Instant<C>, Error>) -> bool {
    call_ensures(C::try_now, (clock,), reading)
}

/// The tick length of the clock `C`.
pub open spec fn clock_factor<C: Clock>() -> Fraction {
    ratio(C::SCALING_NUMERATOR, C::SCALING_DENOMINATOR)
}

/// What every clock offers on top of reading the time.
pub trait ClockExt: Clock {
    /// The length of one tick in seconds.
    fn scaling_factor() -> (f: Fraction)
        ensures
            f == clock_factor::<Self>(),
    {
        Fraction { numerator: Self::SCALING_NUMERATOR, denominator: Self::SCALING_DENOMINATOR }
    }

    /// A one-shot timer on this clock that runs for `duration` once it is
    /// started. The clock is not read.
    fn new_timer<Dur: Duration>(&self, duration: Dur) -> (timer: Timer<
        '_,
        OneShot,
        Disarmed,
        Self,
        Dur,
    >)
        ensures
            timer.clock() == self,
            timer.duration() == duration,
            timer.deadline() is None,
    {
        Timer::new(self, duration)
    }
}

impl<C: Clock> ClockExt for C {
}

/// A span counted in the ticks of the clock `C`.
#[derive(Hash, Debug, Default)]
pub struct ClockDuration<C: Clock>(pub C::T);

impl<C: Clock> Clone for ClockDuration<C> {
    fn clone(&self) -> (r: Self)
        ensures
            r == *self,
    {
        ClockDuration(self.0)
    }
}

impl<C: Clock> Copy for ClockDuration<C> {
}

impl<C: Clock> Duration for ClockDuration<C> {
}

impl<C: Clock> FixedPoint for ClockDuration<C> {
    type T = C::T;

    const SCALING_NUMERATOR: u32 = C::SCALING_NUMERATOR;

    const SCALING_DENOMINATOR: u32 = C::SCALING_DENOMINATOR;

    open spec fn factor() -> Fraction {
        clock_factor::<C>()
    }

    proof fn lemma_factor() {
    }

    open spec fn ticks(self) -> int {
        self.0.as_int()
    }

    proof fn lemma_ticks_injective(a: Self, b: Self) {
        C::T::lemma_as_int_injective(a.0, b.0);
    }

    proof fn lemma_ticks_bounds(d: Self) {
        C::T::lemma_bounds(d.0);
    }

    fn new(value: C::T) -> (d: Self) {
        ClockDuration(value)
    }

    fn integer(&self) -> (value: &C::T) {
        &self.0
    }
}

} // verus!
