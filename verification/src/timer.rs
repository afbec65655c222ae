//! Polled software timers on a clock.

use vstd::prelude::*;
use core::marker::PhantomData;
use crate::clock::{clock_factor, may_read, Clock, Error};
use crate::duration::{span_less, ticks_plus, Duration};
use crate::fixed_point::{
    lemma_rounded_brackets,
    rounded_ticks,
    scaled_denominator,
    scaled_numerator,
    FixedPoint,
    Rounding,
};
use crate::fraction::Fraction;
use crate::instant::{deadline_after, Instant};
use crate::time_int::TimeInt;
use crate::timer::param::{Armed, Disarmed, Expired, OneShot, Periodic, State};

pub mod param;

verus! {

/// A timer on the clock `C` that runs for a `Dur`.
///
/// `Mode` and `S` are tags: whether the timer fires once or periodically,
/// and where in its life it is. Each operation exists only for the states in
/// which it makes sense, and a transition consumes the timer.
pub struct Timer<'a, Mode, S: State, C: Clock, Dur: Duration> {
    clock: &'a C,
    duration: Dur,
    expiration: Option<Instant<C>>,
    mode: PhantomData<Mode>,
    state: PhantomData<S>,
}

impl<'a, Mode, S: State, C: Clock, Dur: Duration> Timer<'a, Mode, S, C, Dur> {
    #[verifier::type_invariant]
    spec fn deadline_matches_state(self) -> bool {
        S::has_deadline() <==> self.expiration is Some
    }

    /// The clock that the timer reads.
    pub closed spec fn clock(self) -> &'a C {
        self.clock
    }

    /// The span for which the timer runs.
    pub closed spec fn duration(self) -> Dur {
        self.duration
    }

    /// The instant at which the timer expires, once it has been started.
    pub closed spec fn deadline(self) -> Option<Instant<C>> {
        self.expiration
    }

    /// The same timer as a one-shot timer.
    pub fn into_oneshot(self) -> (timer: Timer<'a, OneShot, S, C, Dur>)
        ensures
            timer.clock() == self.clock(),
            timer.duration() == self.duration(),
            timer.deadline() == self.deadline(),
    {
        proof {
            use_type_invariant(&self);
        }
        Timer {
            clock: self.clock,
            duration: self.duration,
            expiration: self.expiration,
            mode: PhantomData,
            state: PhantomData,
        }
    }

    /// The same timer as a periodic timer.
    pub fn into_periodic(self) -> (timer: Timer<'a, Periodic, S, C, Dur>)
        ensures
            timer.clock() == self.clock(),
            timer.duration() == self.duration(),
            timer.deadline() == self.deadline(),
    {
        proof {
            use_type_invariant(&self);
        }
        Timer {
            clock: self.clock,
            duration: self.duration,
            expiration: self.expiration,
            mode: PhantomData,
            state: PhantomData,
        }
    }

    /// The span for which the timer runs.
    pub fn period(&self) -> (d: Dur)
        ensures
            d == self.duration(),
    {
        self.duration
    }

    /// The instant at which the timer expires: some instant exactly in the
    /// states that have a deadline.
    pub fn expiration(&self) -> (e: Option<Instant<C>>)
        ensures
            e == self.deadline(),
            e is Some <==> S::has_deadline(),
    {
        proof {
            use_type_invariant(self);
        }
        self.expiration
    }
}

impl<'a, C: Clock, Dur: Duration> Timer<'a, OneShot, Disarmed, C, Dur> {
    /// A one-shot timer on `clock` that will run for `duration`. The clock
    /// is not read.
    pub fn new(clock: &'a C, duration: Dur) -> (timer: Self)
        ensures
            timer.clock() == clock,
            timer.duration() == duration,
            timer.deadline() is None,
    {
        Timer { clock, duration, expiration: None, mode: PhantomData, state: PhantomData }
    }
}

/// What one look at the clock found of an armed timer.
pub enum Polled<'a, Mode, C: Clock, Dur: Duration> {
    /// The deadline has not been reached: the timer as it was.
    Pending(Timer<'a, Mode, Armed, C, Dur>),
    /// The deadline has been reached.
    Ready(Timer<'a, Mode, Expired, C, Dur>),
}

impl<'a, Mode, C: Clock, Dur: Duration> Timer<'a, Mode, Disarmed, C, Dur> {
    /// Whether `armed` is this timer armed at the instant `now`: the same
    /// clock and span, and as deadline `now` plus the span, rounded up to
    /// whole ticks of the clock.
    pub open spec fn armed_at(self, now: Instant<C>, armed: Timer<'a, Mode, Armed, C, Dur>) -> bool {
        &&& armed.clock() == self.clock()
        &&& armed.duration() == self.duration()
        &&& armed.deadline() matches Some(deadline) && deadline_after(now, self.duration())
            == Some(deadline@)
    }

    /// Arms the timer at the instant `now`.
    ///
    /// Fails with [`Error::Unspecified`] exactly where there is no
    /// [`deadline_after`] `now`.
    pub fn start_at(self, now: Instant<C>) -> (r: Result<Timer<'a, Mode, Armed, C, Dur>, Error>)
        ensures
            match r {
                Ok(armed) => self.armed_at(now, armed),
                Err(e) => e == Error::Unspecified && deadline_after(now, self.duration()) is None,
            },
    {
        match now.checked_add(self.duration) {
            Some(expiration) => Ok(
                Timer {
                    clock: self.clock,
                    duration: self.duration,
                    expiration: Some(expiration),
                    mode: PhantomData,
                    state: PhantomData,
                },
            ),
            None => Err(Error::Unspecified),
        }
    }

    /// Reads the clock and arms the timer at that instant, as
    /// [`Timer::start_at`] does.
    ///
    /// An error of the clock is handed on as it came;
    /// [`Error::Unspecified`] is also the answer where there is no deadline.
    pub fn start(self) -> (r: Result<Timer<'a, Mode, Armed, C, Dur>, Error>)
        ensures
            match r {
                Ok(armed) => exists|now: Instant<C>| #[trigger]
                    may_read(self.clock(), Ok(now)) && self.armed_at(now, armed),
                Err(e) => {
                    ||| may_read(self.clock(), Err(e))
                    ||| e == Error::Unspecified && exists|now: Instant<C>| #[trigger]
                        may_read(self.clock(), Ok(now)) && deadline_after(now, self.duration())
                            is None
                },
            },
    {
        match self.clock.try_now() {
            Ok(now) => {
                assert(may_read(self.clock(), Ok::<Instant<C>, Error>(now)));
                self.start_at(now)
            },
            Err(e) => Err(e),
        }
    }
}

impl<'a, Mode, C: Clock, Dur: Duration> Timer<'a, Mode, Armed, C, Dur> {
    /// Whether the running timer has expired at the instant `now`: whether
    /// `now` is its deadline or later.
    pub open spec fn expired_at(self, now: Instant<C>) -> bool {
        self.deadline() matches Some(deadline) && now@ >= deadline@
    }

    /// Whether `expired` is this timer after its expiry was seen: the same
    /// clock, span and deadline.
    pub open spec fn expired_as(self, expired: Timer<'a, Mode, Expired, C, Dur>) -> bool {
        &&& expired.clock() == self.clock()
        &&& expired.duration() == self.duration()
        &&& expired.deadline() == self.deadline()
    }

    /// What a look at the clock at the instant `now` finds of this timer.
    pub open spec fn polled_at(self, now: Instant<C>, found: Polled<'a, Mode, C, Dur>) -> bool {
        match found {
            Polled::Ready(expired) => self.expired_at(now) && self.expired_as(expired),
            Polled::Pending(armed) => !self.expired_at(now) && armed == self,
        }
    }

    /// The deadline of the running timer.
    pub fn deadline_instant(&self) -> (e: Instant<C>)
        ensures
            self.deadline() == Some(e),
    {
        proof {
            use_type_invariant(self);
        }
        match self.expiration {
            Some(e) => e,
            None => vstd::pervasive::unreached(),
        }
    }

    /// Whether the timer has expired at the instant `now`. The timer is not
    /// changed.
    pub fn is_expired_at(&self, now: &Instant<C>) -> (expired: bool)
        ensures
            expired == self.expired_at(*now),
    {
        let deadline = self.deadline_instant();
        *now >= deadline
    }

    /// Reads the clock and says whether the timer has expired, as
    /// [`Timer::is_expired_at`] does. The timer is not changed. An error of
    /// the clock is handed on as it came.
    pub fn is_expired(&self) -> (r: Result<bool, Error>)
        ensures
            match r {
                Ok(expired) => exists|now: Instant<C>| #[trigger]
                    may_read(self.clock(), Ok(now)) && expired == self.expired_at(now),
                Err(e) => may_read(self.clock(), Err(e)),
            },
    {
        match self.clock.try_now() {
            Ok(now) => {
                assert(may_read(self.clock(), Ok::<Instant<C>, Error>(now)));
                Ok(self.is_expired_at(&now))
            },
            Err(e) => Err(e),
        }
    }

    /// One step of waiting, at the instant `now`: the expired timer where
    /// `now` has reached the deadline, else the timer unchanged.
    pub fn poll_at(self, now: &Instant<C>) -> (found: Polled<'a, Mode, C, Dur>)
        ensures
            self.polled_at(*now, found),
    {
        if self.is_expired_at(now) {
            proof {
                use_type_invariant(&self);
            }
            Polled::Ready(
                Timer {
                    clock: self.clock,
                    duration: self.duration,
                    expiration: self.expiration,
                    mode: PhantomData,
                    state: PhantomData,
                },
            )
        } else {
            Polled::Pending(self)
        }
    }

    /// One step of waiting: reads the clock and proceeds as
    /// [`Timer::poll_at`] does. To wait for the timer is to repeat this step
    /// while it answers [`Polled::Pending`]. An error of the clock is handed
    /// on as it came.
    pub fn poll(self) -> (r: Result<Polled<'a, Mode, C, Dur>, Error>)
        ensures
            match r {
                Ok(found) => exists|now: Instant<C>| #[trigger]
                    may_read(self.clock(), Ok(now)) && self.polled_at(now, found),
                Err(e) => may_read(self.clock(), Err(e)),
            },
    {
        match self.clock.try_now() {
            Ok(now) => {
                assert(may_read(self.clock(), Ok::<Instant<C>, Error>(now)));
                Ok(self.poll_at(&now))
            },
            Err(e) => Err(e),
        }
    }
}

impl<'a, Mode, C: Clock, Dur: Duration> Timer<'a, Mode, Armed, C, Dur> {
    /// Waits for the timer with at most `polls` looks at the clock: repeats
    /// [`Timer::poll`] until the timer has expired, the clock fails or the
    /// looks are used up.
    ///
    /// The answer is [`Polled::Ready`] only if the clock gave an instant at
    /// which the timer has expired, and [`Polled::Pending`], with the timer
    /// unchanged, only if no look was allowed or the clock gave an instant
    /// at which it has not. An error of the clock is handed on as it came.
    pub fn wait_up_to(self, polls: u64) -> (r: Result<Polled<'a, Mode, C, Dur>, Error>)
        ensures
            match r {
                Ok(Polled::Ready(expired)) => {
                    &&& polls > 0
                    &&& self.expired_as(expired)
                    &&& exists|now: Instant<C>| #[trigger]
                        may_read(self.clock(), Ok(now)) && self.expired_at(now)
                },
                Ok(Polled::Pending(armed)) => {
                    &&& armed == self
                    &&& polls > 0 ==> exists|now: Instant<C>| #[trigger]
                        may_read(self.clock(), Ok(now)) && !self.expired_at(now)
                },
                Err(e) => polls > 0 && may_read(self.clock(), Err(e)),
            },
    {
        let mut timer = self;
        let mut left = polls;
        while left > 0
            invariant
                timer == self,
                left <= polls,
                left < polls ==> exists|now: Instant<C>| #[trigger]
                    may_read(self.clock(), Ok(now)) && !self.expired_at(now),
            decreases left,
        {
            match timer.poll() {
                Ok(Polled::Ready(expired)) => {
                    return Ok(Polled::Ready(expired));
                },
                Ok(Polled::Pending(armed)) => {
                    timer = armed;
                },
                Err(e) => {
                    return Err(e);
                },
            }
            left = left - 1;
        }
        Ok(Polled::Pending(timer))
    }
}

impl<'a, C: Clock, Dur: Duration> Timer<'a, Periodic, Expired, C, Dur> {
    /// Arms the timer for its next period, which begins at the deadline
    /// that has passed: the periods follow one another without drift. The
    /// clock is not read.
    ///
    /// Fails with [`Error::Unspecified`] exactly where there is no
    /// [`deadline_after`] the last deadline.
    pub fn restart(self) -> (r: Result<Timer<'a, Periodic, Armed, C, Dur>, Error>)
        ensures
            self.deadline() matches Some(last) && match r {
                Ok(timer) => {
                    &&& timer.clock() == self.clock()
                    &&& timer.duration() == self.duration()
                    &&& timer.deadline() matches Some(next) && deadline_after(
                        last,
                        self.duration(),
                    ) == Some(next@)
                },
                Err(e) => e == Error::Unspecified && deadline_after(last, self.duration()) is None,
            },
    {
        proof {
            use_type_invariant(&self);
        }
        match self.expiration {
            Some(last) => match last.checked_add(self.duration) {
                Some(expiration) => Ok(
                    Timer {
                        clock: self.clock,
                        duration: self.duration,
                        expiration: Some(expiration),
                        mode: PhantomData,
                        state: PhantomData,
                    },
                ),
                None => Err(Error::Unspecified),
            },
            None => vstd::pervasive::unreached(),
        }
    }
}

/// When a timer reports expiry, in ticks of its clock.
///
/// A timer for `span` ticks of length `unit` is armed at the count `start`
/// of a clock with ticks of length `tick`, and its deadline is `deadline`.
/// At a count `now` that the counter reached without wrapping:
/// - if the timer reports expiry (`now >= deadline`), the time since
///   `start` is not shorter than the span;
/// - if the time since `start` less one tick is not shorter than the span,
///   the timer reports expiry.
pub proof fn lemma_expiry_bounds(
    start: int,
    span: int,
    unit: Fraction,
    tick: Fraction,
    max: int,
    now: int,
    deadline: int,
)
    requires
        unit.well_formed(),
        tick.well_formed(),
        0 <= span,
        0 <= start <= now,
        ticks_plus(start, span, unit, tick, Rounding::Ceil, max) == Some(deadline),
    ensures
        now >= deadline ==> !span_less(now - start, tick, span, unit),
        !span_less(now - start - 1, tick, span, unit) ==> now >= deadline,
{
    lemma_rounded_brackets(span, unit, tick, Rounding::Ceil);
    let t = rounded_ticks(span, unit, tick, Rounding::Ceil);
    let d = scaled_denominator(unit, tick);
    let n = scaled_numerator(span, unit, tick);
    let e = now - start;
    assert(e * tick.numerator * unit.denominator == e * d && (e - 1) * tick.numerator
        * unit.denominator == (e - 1) * d && d > 0) by (nonlinear_arith)
        requires
            d == unit.denominator * tick.numerator,
            unit.denominator > 0,
            tick.numerator > 0,
    ;
    if now >= deadline {
        assert(e * d >= t * d) by (nonlinear_arith)
            requires
                e >= t,
                d > 0,
        ;
    }
    if (e - 1) * d >= n {
        assert(e - 1 > t - 1) by (nonlinear_arith)
            requires
                (e - 1) * d >= n,
                (t - 1) * d < n,
                d > 0,
        ;
    }
}

/// A timer never reports expiry early, and does so within a tick of its
/// span: armed at the instant `start`, the timer `armed` reports expiry at
/// `now`, an instant not before `start`, only if the time since `start` is
/// not shorter than its span, and it does so if that time less one tick is
/// not shorter than its span.
pub proof fn lemma_timer_expiry<'a, Mode, C: Clock, Dur: Duration>(
    disarmed: Timer<'a, Mode, Disarmed, C, Dur>,
    start: Instant<C>,
    armed: Timer<'a, Mode, Armed, C, Dur>,
    now: Instant<C>,
)
    requires
        clock_factor::<C>().well_formed(),
        Dur::factor().well_formed(),
        disarmed.armed_at(start, armed),
        start@ <= now@,
    ensures
        armed.expired_at(now) ==> !span_less(
            now@ - start@,
            clock_factor::<C>(),
            armed.duration().ticks(),
            Dur::factor(),
        ),
        !span_less(
            now@ - start@ - 1,
            clock_factor::<C>(),
            armed.duration().ticks(),
            Dur::factor(),
        ) ==> armed.expired_at(now),
{
    Dur::lemma_ticks_bounds(armed.duration());
    Instant::lemma_view(start, now);
    lemma_expiry_bounds(
        start@,
        armed.duration().ticks(),
        Dur::factor(),
        clock_factor::<C>(),
        C::T::max_int(),
        now@,
        armed.deadline()->Some_0@,
    );
}

} // verus!
