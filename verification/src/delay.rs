//! Blocking delays on a clock.
//!
//! A delay is a one-shot timer that is polled until it expires, with a
//! callback run between two looks at the clock. [`Delay::start`] computes
//! and arms the timer, and [`Delay::wait_up_to`] polls it a bounded number
//! of times: to block for the whole delay is to repeat that until the timer
//! has expired.

use vstd::prelude::*;
use crate::clock::{clock_factor, may_read, Clock, ClockDuration, ClockExt, Error};
use crate::duration::{span_less, span_outcome, ticks_plus};
use crate::fixed_point::{
    converted,
    lemma_rounded_brackets,
    lemma_same_factor_keeps_ticks,
    scaled_denominator,
    ConversionError,
    FixedPoint,
    Rounding,
};
use crate::fraction::{ratio, Fraction};
use crate::instant::{deadline_after, Instant};
use crate::time_int::TimeInt;
use crate::timer::param::{Armed, OneShot};
use crate::timer::Timer;

verus! {

/// One millisecond in seconds.
pub open spec fn millisecond() -> Fraction {
    ratio(1, 1_000)
}

/// One microsecond in seconds.
pub open spec fn microsecond() -> Fraction {
    ratio(1, 1_000_000)
}

/// The ticks of a clock with ticks of length `tick` for which a delay of
/// `value` units of length `unit` runs, in a counter with the largest value
/// `max`.
///
/// The request is rounded up to whole ticks, and one tick is added: the
/// delay begins somewhere within a tick, so the first tick it counts may be
/// all but over.
pub open spec fn delay_ticks(value: int, unit: Fraction, tick: Fraction, max: int) -> Result<
    int,
    ConversionError,
> {
    converted(value, unit, tick, Rounding::Corrected, max)
}

/// The span in ticks of the clock `C` for which a delay of `value` units of
/// length `unit` runs.
///
/// Fails with [`ConversionError::Overflow`] exactly where there is no such
/// span: where the clock's counter cannot hold it, or a tick length is not
/// usable.
pub fn delay_duration<C: Clock>(value: C::T, unit: Fraction) -> (r: Result<
    ClockDuration<C>,
    ConversionError,
>)
    ensures
        span_outcome(r) == delay_ticks(value.as_int(), unit, clock_factor::<C>(), C::T::max_int()),
{
    match ClockDuration::<C>::convert_ticks_with(value, unit, Rounding::Corrected) {
        Ok(ticks) => Ok(ClockDuration::<C>::new(ticks)),
        Err(e) => Err(e),
    }
}

/// Blocks for a span of time by polling the clock `C`, and runs the callback
/// `F` between two polls.
pub struct Delay<'a, C: Clock, F: FnMut()> {
    clock: &'a C,
    wait: F,
}

impl<'a, C: Clock, F: FnMut()> Delay<'a, C, F> {
    /// The clock that is polled.
    pub closed spec fn clock(self) -> &'a C {
        self.clock
    }

    /// The callback that runs between two polls.
    pub closed spec fn callback(self) -> F {
        self.wait
    }

    /// A delay on `clock` that runs `wait` between two polls.
    pub fn new(clock: &'a C, wait: F) -> (delay: Self)
        ensures
            delay.clock() == clock,
            delay.callback() == wait,
    {
        Self { clock, wait }
    }

    /// Whether `timer` is the timer of a delay of `value` units of length
    /// `unit` that began at the instant `now`: a timer on the delay's clock
    /// for the [`delay_ticks`] of the request, armed at `now`.
    pub open spec fn begun_at(
        self,
        value: C::T,
        unit: Fraction,
        now: Instant<C>,
        timer: Timer<'a, OneShot, Armed, C, ClockDuration<C>>,
    ) -> bool {
        &&& timer.clock() == self.clock()
        &&& delay_ticks(value.as_int(), unit, clock_factor::<C>(), C::T::max_int()) == Ok::<
            int,
            ConversionError,
        >(timer.duration().ticks())
        &&& timer.deadline() matches Some(deadline) && deadline_after(now, timer.duration())
            == Some(deadline@)
    }

    /// Whether a delay of `value` units of length `unit` that begins at the
    /// instant `now` has a span that the clock's counter can hold, but would
    /// end after the largest count.
    pub open spec fn too_late_at(self, value: C::T, unit: Fraction, now: Instant<C>) -> bool {
        delay_ticks(value.as_int(), unit, clock_factor::<C>(), C::T::max_int()) matches Ok(ticks)
            && ticks_plus(
            now@,
            ticks,
            clock_factor::<C>(),
            clock_factor::<C>(),
            Rounding::Ceil,
            C::T::max_int(),
        ) is None
    }

    /// Begins a delay of `value` units of length `unit`: reads the clock
    /// and arms a one-shot timer for the [`delay_duration`] of that request.
    /// The delay is over when the timer has expired.
    ///
    /// An error of the clock is handed on as it came;
    /// [`Error::Unspecified`] is also the answer where the request has no
    /// span in the clock's ticks, or the delay would end after the largest
    /// count.
    pub fn start(&self, value: C::T, unit: Fraction) -> (r: Result<
        Timer<'a, OneShot, Armed, C, ClockDuration<C>>,
        Error,
    >)
        ensures
            match r {
                Ok(timer) => exists|now: Instant<C>| #[trigger]
                    may_read(self.clock(), Ok(now)) && self.begun_at(value, unit, now, timer),
                Err(e) => {
                    ||| may_read(self.clock(), Err(e))
                    ||| e == Error::Unspecified && delay_ticks(
                        value.as_int(),
                        unit,
                        clock_factor::<C>(),
                        C::T::max_int(),
                    ) is Err
                    ||| e == Error::Unspecified && exists|now: Instant<C>| #[trigger]
                        may_read(self.clock(), Ok(now)) && self.too_late_at(value, unit, now)
                },
            },
    {
        match delay_duration::<C>(value, unit) {
            Ok(duration) => {
                let timer = self.clock.new_timer(duration);
                match self.clock.try_now() {
                    Ok(now) => {
                        assert(may_read(self.clock(), Ok::<Instant<C>, Error>(now)));
                        timer.start_at(now)
                    },
                    Err(e) => Err(e),
                }
            },
            Err(_) => Err(Error::Unspecified),
        }
    }

    /// Begins a delay of `ms` milliseconds, as [`Delay::start`] does.
    pub fn start_ms(&self, ms: C::T) -> (r: Result<
        Timer<'a, OneShot, Armed, C, ClockDuration<C>>,
        Error,
    >)
        ensures
            match r {
                Ok(timer) => exists|now: Instant<C>| #[trigger]
                    may_read(self.clock(), Ok(now)) && self.begun_at(
                        ms,
                        millisecond(),
                        now,
                        timer,
                    ),
                Err(e) => {
                    ||| may_read(self.clock(), Err(e))
                    ||| e == Error::Unspecified && delay_ticks(
                        ms.as_int(),
                        millisecond(),
                        clock_factor::<C>(),
                        C::T::max_int(),
                    ) is Err
                    ||| e == Error::Unspecified && exists|now: Instant<C>| #[trigger]
                        may_read(self.clock(), Ok(now)) && self.too_late_at(
                            ms,
                            millisecond(),
                            now,
                        )
                },
            },
    {
        self.start(ms, Fraction::new(1, 1_000))
    }

    /// Begins a delay of `us` microseconds, as [`Delay::start`] does.
    pub fn start_us(&self, us: C::T) -> (r: Result<
        Timer<'a, OneShot, Armed, C, ClockDuration<C>>,
        Error,
    >)
        ensures
            match r {
                Ok(timer) => exists|now: Instant<C>| #[trigger]
                    may_read(self.clock(), Ok(now)) && self.begun_at(
                        us,
                        microsecond(),
                        now,
                        timer,
                    ),
                Err(e) => {
                    ||| may_read(self.clock(), Err(e))
                    ||| e == Error::Unspecified && delay_ticks(
                        us.as_int(),
                        microsecond(),
                        clock_factor::<C>(),
                        C::T::max_int(),
                    ) is Err
                    ||| e == Error::Unspecified && exists|now: Instant<C>| #[trigger]
                        may_read(self.clock(), Ok(now)) && self.too_late_at(
                            us,
                            microsecond(),
                            now,
                        )
                },
            },
    {
        self.start(us, Fraction::new(1, 1_000_000))
    }

    /// Runs the callback once: what a delay does between two polls of its
    /// timer.
    pub fn idle(&mut self)
        requires
            call_requires(old(self).callback(), ()),
        ensures
            final(self).clock() == old(self).clock(),
            call_ensures(old(self).callback(), (), ()),
            call_requires(final(self).callback(), ()),
    {
        (self.wait)();
    }

    /// Waits for `timer` with at most `polls` looks at its clock: while the
    /// timer has not expired, runs the callback and looks again.
    ///
    /// The answer is `true` only if the clock gave an instant at which the
    /// timer has expired, and `false` only if no look was allowed or the
    /// clock gave an instant at which it has not. An error of the clock is
    /// handed on as it came.
    pub fn wait_up_to(
        &mut self,
        timer: &Timer<'a, OneShot, Armed, C, ClockDuration<C>>,
        polls: u64,
    ) -> (r: Result<bool, Error>)
        requires
            call_requires(old(self).callback(), ()),
        ensures
            final(self).clock() == old(self).clock(),
            call_requires(final(self).callback(), ()),
            match r {
                Ok(expired) => polls > 0 ==> exists|now: Instant<C>| #[trigger]
                    may_read(timer.clock(), Ok(now)) && expired == timer.expired_at(now),
                Err(e) => polls > 0 && may_read(timer.clock(), Err(e)),
            },
            r == Ok::<bool, Error>(true) ==> polls > 0,
    {
        let mut left = polls;
        while left > 0
            invariant
                self.clock() == old(self).clock(),
                call_requires(self.callback(), ()),
                left <= polls,
                left < polls ==> exists|now: Instant<C>| #[trigger]
                    may_read(timer.clock(), Ok(now)) && !timer.expired_at(now),
            decreases left,
        {
            match timer.is_expired() {
                Ok(true) => {
                    return Ok(true);
                },
                Ok(false) => {
                    self.idle();
                },
                Err(e) => {
                    return Err(e);
                },
            }
            left = left - 1;
        }
        Ok(false)
    }
}

/// A delay is never short: the ticks `t` for which a delay of `value` units
/// runs are such that `t - 1` ticks are not shorter than the request, which
/// is thus covered even where the first of the `t` ticks was all but over
/// when the delay began; and `t` is the least such count.
pub proof fn lemma_delay_covers_request(value: int, unit: Fraction, tick: Fraction, max: int, t: int)
    requires
        unit.well_formed(),
        tick.well_formed(),
        0 <= value,
        delay_ticks(value, unit, tick, max) == Ok::<int, ConversionError>(t),
    ensures
        1 <= t <= max,
        !span_less(t - 1, tick, value, unit),
        span_less(t - 2, tick, value, unit),
{
    lemma_rounded_brackets(value, unit, tick, Rounding::Corrected);
    let d = scaled_denominator(unit, tick);
    assert((t - 1) * tick.numerator * unit.denominator == (t - 1) * d && (t - 2) * tick.numerator
        * unit.denominator == (t - 2) * d) by (nonlinear_arith)
        requires
            d == unit.denominator * tick.numerator,
    ;
}

/// The same of the delay's timer: where the timer of a delay that began at
/// the instant `start` reports expiry at `now`, an instant not before
/// `start`, the time since `start` less one tick is not shorter than the
/// request. A delay thus lasts as long as was asked wherever within a tick
/// it began.
pub proof fn lemma_delay_is_sufficient<'a, C: Clock, F: FnMut()>(
    delay: Delay<'a, C, F>,
    value: C::T,
    unit: Fraction,
    start: Instant<C>,
    timer: Timer<'a, OneShot, Armed, C, ClockDuration<C>>,
    now: Instant<C>,
)
    requires
        unit.well_formed(),
        clock_factor::<C>().well_formed(),
        delay.begun_at(value, unit, start, timer),
        start@ <= now@,
        timer.expired_at(now),
    ensures
        !span_less(now@ - start@ - 1, clock_factor::<C>(), value.as_int(), unit),
{
    let tick = clock_factor::<C>();
    let t = timer.duration().ticks();
    C::T::lemma_bounds(value);
    lemma_delay_covers_request(value.as_int(), unit, tick, C::T::max_int(), t);
    lemma_same_factor_keeps_ticks(t, tick, tick, Rounding::Ceil);
    let e = now@ - start@;
    assert((e - 1) * tick.numerator * unit.denominator >= (t - 1) * tick.numerator
        * unit.denominator) by (nonlinear_arith)
        requires
            e >= t,
            tick.numerator > 0,
            unit.denominator > 0,
    ;
}

} // verus!
