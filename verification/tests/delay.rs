use std::cell::Cell;

use embedded_time::clock::{Clock, ClockDuration, Error};
use embedded_time::delay::{delay_duration, Delay};
use embedded_time::fixed_point::ConversionError;
use embedded_time::fraction::Fraction;
use embedded_time::instant::Instant;

/// A clock with millisecond ticks whose count the test sets.
struct Millis {
    ticks: Cell<u32>,
    running: Cell<bool>,
}

impl Millis {
    fn at(ticks: u32) -> Self {
        Millis { ticks: Cell::new(ticks), running: Cell::new(true) }
    }
}

impl Clock for Millis {
    type T = u32;

    const SCALING_NUMERATOR: u32 = 1;

    const SCALING_DENOMINATOR: u32 = 1_000;

    fn try_now(&self) -> Result<Instant<Self>, Error> {
        if self.running.get() {
            Ok(Instant::new(self.ticks.get()))
        } else {
            Err(Error::NotRunning)
        }
    }
}

/// A clock that ticks 1 500 times a second.
struct Fast;

impl Clock for Fast {
    type T = u32;

    const SCALING_NUMERATOR: u32 = 1;

    const SCALING_DENOMINATOR: u32 = 1_500;

    fn try_now(&self) -> Result<Instant<Self>, Error> {
        Ok(Instant::new(0))
    }
}

/// A clock that ticks every three seconds.
struct Slow;

impl Clock for Slow {
    type T = u32;

    const SCALING_NUMERATOR: u32 = 3;

    const SCALING_DENOMINATOR: u32 = 1;

    fn try_now(&self) -> Result<Instant<Self>, Error> {
        Ok(Instant::new(0))
    }
}

fn milli() -> Fraction {
    Fraction::new(1, 1_000)
}

fn ticks<C: Clock>(r: Result<ClockDuration<C>, ConversionError>) -> Result<C::T, ConversionError> {
    r.map(|d| d.0)
}

#[test]
fn one_millisecond_on_a_kilohertz_clock_is_two_ticks() {
    assert_eq!(ticks(delay_duration::<Millis>(1, milli())), Ok(2));
}

#[test]
fn whole_ticks_get_one_tick_more() {
    assert_eq!(ticks(delay_duration::<Millis>(0, milli())), Ok(1));
    assert_eq!(ticks(delay_duration::<Millis>(5, milli())), Ok(6));
    assert_eq!(ticks(delay_duration::<Millis>(1, Fraction::new(1, 1))), Ok(1_001));
    // Two milliseconds are three ticks of a 1.5 kHz clock.
    assert_eq!(ticks(delay_duration::<Fast>(2, milli())), Ok(4));
    // Six seconds are two ticks of three seconds.
    assert_eq!(ticks(delay_duration::<Slow>(6, Fraction::new(1, 1))), Ok(3));
}

#[test]
fn broken_ticks_are_rounded_up_and_get_one_tick_more() {
    // One millisecond is one and a half ticks of a 1.5 kHz clock.
    assert_eq!(ticks(delay_duration::<Fast>(1, milli())), Ok(3));
    assert_eq!(ticks(delay_duration::<Fast>(3, milli())), Ok(6));
    // One microsecond is a thousandth of a millisecond tick.
    assert_eq!(ticks(delay_duration::<Millis>(1, Fraction::new(1, 1_000_000))), Ok(2));
    assert_eq!(ticks(delay_duration::<Millis>(1_000, Fraction::new(1, 1_000_000))), Ok(2));
    assert_eq!(ticks(delay_duration::<Millis>(1_001, Fraction::new(1, 1_000_000))), Ok(3));
    // One millisecond is a fraction of a tick of three seconds.
    assert_eq!(ticks(delay_duration::<Slow>(1, milli())), Ok(2));
    assert_eq!(ticks(delay_duration::<Slow>(3_000, milli())), Ok(2));
    assert_eq!(ticks(delay_duration::<Slow>(3_001, milli())), Ok(3));
}

#[test]
fn a_delay_covers_the_request_after_its_first_tick() {
    // For every request, all ticks but the first cover it, and one tick
    // less would not.
    let requests: [u64; 8] = [0, 1, 2, 3, 7, 100, 999, 1_000];
    for n in requests {
        let t: u64 = u64::from(delay_duration::<Fast>(n as u32, milli()).unwrap().0);
        // t ticks of 1/1500 s against n units of 1/1000 s.
        assert!((t - 1) * 1_000 >= n * 1_500);
        assert!((t as i128 - 2) * 1_000 < (n as i128) * 1_500);
    }
}

#[test]
fn a_span_beyond_the_counter_is_an_overflow() {
    assert_eq!(ticks(delay_duration::<Millis>(u32::MAX, milli())), Err(ConversionError::Overflow));
    assert_eq!(ticks(delay_duration::<Millis>(u32::MAX - 1, milli())), Ok(u32::MAX));
    assert_eq!(
        ticks(delay_duration::<Millis>(4_294_968, Fraction::new(1, 1))),
        Err(ConversionError::Overflow)
    );
}

#[test]
fn start_ms_arms_a_timer_for_the_corrected_span() {
    let clock = Millis::at(10);
    let delay = Delay::new(&clock, || {});
    let timer = delay.start_ms(5).unwrap();
    assert_eq!(timer.period().0, 6);
    assert_eq!(timer.deadline_instant().ticks(), 16);
    clock.ticks.set(15);
    assert_eq!(timer.is_expired(), Ok(false));
    clock.ticks.set(16);
    assert_eq!(timer.is_expired(), Ok(true));
}

#[test]
fn start_us_arms_a_timer_for_the_corrected_span() {
    let clock = Millis::at(0);
    let delay = Delay::new(&clock, || {});
    assert_eq!(delay.start_us(1).unwrap().deadline_instant().ticks(), 2);
    assert_eq!(delay.start_us(2_000).unwrap().deadline_instant().ticks(), 3);
    assert_eq!(delay.start_us(2_001).unwrap().deadline_instant().ticks(), 4);
    let fast = Fast;
    let quick = Delay::new(&fast, || {});
    // A thousand microseconds are one and a half ticks of a 1.5 kHz clock.
    assert_eq!(quick.start_us(1_000).unwrap().period().0, 3);
}

#[test]
fn start_with_any_unit() {
    let clock = Millis::at(3);
    let delay = Delay::new(&clock, || {});
    let timer = delay.start(2, Fraction::new(1, 1)).unwrap();
    assert_eq!(timer.deadline_instant().ticks(), 2_004);
}

#[test]
fn start_hands_on_a_clock_error() {
    let clock = Millis::at(0);
    clock.running.set(false);
    let delay = Delay::new(&clock, || {});
    assert!(matches!(delay.start_ms(1), Err(Error::NotRunning)));
    assert!(matches!(delay.start_us(1), Err(Error::NotRunning)));
}

#[test]
fn start_fails_where_the_counter_cannot_hold_the_delay() {
    let clock = Millis::at(0);
    let delay = Delay::new(&clock, || {});
    assert!(matches!(delay.start_ms(u32::MAX), Err(Error::Unspecified)));
    clock.ticks.set(u32::MAX - 5);
    assert!(matches!(delay.start_ms(5), Err(Error::Unspecified)));
    assert!(delay.start_ms(4).is_ok());
}

#[test]
fn idle_runs_the_callback_once() {
    let clock = Millis::at(0);
    let calls: Cell<u32> = Cell::new(0);
    let mut delay = Delay::new(&clock, || calls.set(calls.get() + 1));
    delay.idle();
    assert_eq!(calls.get(), 1);
    delay.idle();
    delay.idle();
    assert_eq!(calls.get(), 3);
}

#[test]
fn a_delay_polls_until_its_timer_expires() {
    let clock = Millis::at(100);
    let calls: Cell<u32> = Cell::new(0);
    let mut delay = Delay::new(&clock, || {
        calls.set(calls.get() + 1);
        clock.ticks.set(clock.ticks.get() + 1);
    });
    let timer = delay.start_ms(1).unwrap();
    while !timer.is_expired().unwrap() {
        delay.idle();
    }
    // One millisecond on a millisecond clock waits for two ticks.
    assert_eq!(calls.get(), 2);
    assert_eq!(clock.ticks.get(), 102);
}

#[test]
fn a_delay_wait_runs_the_callback_between_two_looks() {
    let clock = Millis::at(100);
    let calls: Cell<u32> = Cell::new(0);
    let mut delay = Delay::new(&clock, || {
        calls.set(calls.get() + 1);
        clock.ticks.set(clock.ticks.get() + 1);
    });
    let timer = delay.start_ms(3).unwrap();
    assert_eq!(delay.wait_up_to(&timer, 1_000), Ok(true));
    // Three milliseconds on a millisecond clock wait for four ticks.
    assert_eq!(calls.get(), 4);
    assert_eq!(clock.ticks.get(), 104);
    assert_eq!(delay.wait_up_to(&timer, 1_000), Ok(true));
    assert_eq!(calls.get(), 4);
}

#[test]
fn a_delay_wait_stops_when_the_looks_are_used_up() {
    let clock = Millis::at(0);
    let calls: Cell<u32> = Cell::new(0);
    let mut delay = Delay::new(&clock, || calls.set(calls.get() + 1));
    let timer = delay.start_ms(3).unwrap();
    assert_eq!(delay.wait_up_to(&timer, 0), Ok(false));
    assert_eq!(calls.get(), 0);
    assert_eq!(delay.wait_up_to(&timer, 7), Ok(false));
    assert_eq!(calls.get(), 7);
    clock.ticks.set(4);
    assert_eq!(delay.wait_up_to(&timer, 7), Ok(true));
    assert_eq!(calls.get(), 7);
}

#[test]
fn a_delay_wait_hands_on_a_clock_error() {
    let clock = Millis::at(0);
    let mut delay = Delay::new(&clock, || clock.running.set(false));
    let timer = delay.start_ms(3).unwrap();
    assert_eq!(delay.wait_up_to(&timer, 10), Err(Error::NotRunning));
}

/// A clock whose tick length is zero.
struct Still;

impl Clock for Still {
    type T = u32;

    const SCALING_NUMERATOR: u32 = 0;

    const SCALING_DENOMINATOR: u32 = 1;

    fn try_now(&self) -> Result<Instant<Self>, Error> {
        Ok(Instant::new(0))
    }
}

#[test]
fn a_clock_without_a_tick_length_has_no_delay() {
    assert_eq!(ticks(delay_duration::<Still>(1, milli())), Err(ConversionError::Overflow));
    let clock = Still;
    let delay = Delay::new(&clock, || {});
    assert!(matches!(delay.start_ms(1), Err(Error::Unspecified)));
    assert!(matches!(delay.start_us(0), Err(Error::Unspecified)));
}
