//! The units of time in which a span can be counted.

use vstd::prelude::*;
use crate::duration::Duration;
use crate::fixed_point::FixedPoint;
use crate::fraction::{ratio, Fraction};
use crate::time_int::TimeInt;

verus! {

/// A span counted in hours.
#[derive(Debug, Default, PartialEq, Eq, PartialOrd, Ord, Hash)]
pub struct Hours<T: TimeInt>(pub T);

impl<T: TimeInt> Clone for Hours<T> {
    fn clone(&self) -> (r: Self)
        ensures
            r == *self,
    {
        Hours(self.0)
    }
}

impl<T: TimeInt> Copy for Hours<T> {
}

impl<T: TimeInt> FixedPoint for Hours<T> {
    type T = T;

    const SCALING_NUMERATOR: u32 = 3_600;

    const SCALING_DENOMINATOR: u32 = 1;

    open spec fn factor() -> Fraction {
        ratio(3_600, 1)
    }

    proof fn lemma_factor() {
        assert(Self::SCALING_NUMERATOR == 3_600 && Self::SCALING_DENOMINATOR == 1);
    }

    open spec fn ticks(self) -> int {
        self.0.as_int()
    }

    proof fn lemma_ticks_injective(a: Self, b: Self) {
        T::lemma_as_int_injective(a.0, b.0);
    }

    proof fn lemma_ticks_bounds(d: Self) {
        T::lemma_bounds(d.0);
    }

    fn new(value: T) -> (d: Self) {
        Hours(value)
    }

    fn integer(&self) -> (value: &T) {
        &self.0
    }
}

impl<T: TimeInt> Duration for Hours<T> {
}

/// A span counted in minutes.
#[derive(Debug, Default, PartialEq, Eq, PartialOrd, Ord, Hash)]
pub struct Minutes<T: TimeInt>(pub T);

impl<T: TimeInt> Clone for Minutes<T> {
    fn clone(&self) -> (r: Self)
        ensures
            r == *self,
    {
        Minutes(self.0)
    }
}

impl<T: TimeInt> Copy for Minutes<T> {
}

impl<T: TimeInt> FixedPoint for Minutes<T> {
    type T = T;

    const SCALING_NUMERATOR: u32 = 60;

    const SCALING_DENOMINATOR: u32 = 1;

    open spec fn factor() -> Fraction {
        ratio(60, 1)
    }

    proof fn lemma_factor() {
        assert(Self::SCALING_NUMERATOR == 60 && Self::SCALING_DENOMINATOR == 1);
    }

    open spec fn ticks(self) -> int {
        self.0.as_int()
    }

    proof fn lemma_ticks_injective(a: Self, b: Self) {
        T::lemma_as_int_injective(a.0, b.0);
    }

    proof fn lemma_ticks_bounds(d: Self) {
        T::lemma_bounds(d.0);
    }

    fn new(value: T) -> (d: Self) {
        Minutes(value)
    }

    fn integer(&self) -> (value: &T) {
        &self.0
    }
}

impl<T: TimeInt> Duration for Minutes<T> {
}

/// A span counted in seconds.
#[derive(Debug, Default, PartialEq, Eq, PartialOrd, Ord, Hash)]
pub struct Seconds<T: TimeInt>(pub T);

impl<T: TimeInt> Clone for Seconds<T> {
    fn clone(&self) -> (r: Self)
        ensures
            r == *self,
    {
        Seconds(self.0)
    }
}

impl<T: TimeInt> Copy for Seconds<T> {
}

impl<T: TimeInt> FixedPoint for Seconds<T> {
    type T = T;

    const SCALING_NUMERATOR: u32 = 1;

    const SCALING_DENOMINATOR: u32 = 1;

    open spec fn factor() -> Fraction {
        ratio(1, 1)
    }

    proof fn lemma_factor() {
        assert(Self::SCALING_NUMERATOR == 1 && Self::SCALING_DENOMINATOR == 1);
    }

    open spec fn ticks(self) -> int {
        self.0.as_int()
    }

    proof fn lemma_ticks_injective(a: Self, b: Self) {
        T::lemma_as_int_injective(a.0, b.0);
    }

    proof fn lemma_ticks_bounds(d: Self) {
        T::lemma_bounds(d.0);
    }

    fn new(value: T) -> (d: Self) {
        Seconds(value)
    }

    fn integer(&self) -> (value: &T) {
        &self.0
    }
}

impl<T: TimeInt> Duration for Seconds<T> {
}

/// A span counted in milliseconds.
#[derive(Debug, Default, PartialEq, Eq, PartialOrd, Ord, Hash)]
pub struct Milliseconds<T: TimeInt>(pub T);

impl<T: TimeInt> Clone for Milliseconds<T> {
    fn clone(&self) -> (r: Self)
        ensures
            r == *self,
    {
        Milliseconds(self.0)
    }
}

impl<T: TimeInt> Copy for Milliseconds<T> {
}

impl<T: TimeInt> FixedPoint for Milliseconds<T> {
    type T = T;

    const SCALING_NUMERATOR: u32 = 1;

    const SCALING_DENOMINATOR: u32 = 1_000;

    open spec fn factor() -> Fraction {
        ratio(1, 1_000)
    }

    proof fn lemma_factor() {
        assert(Self::SCALING_NUMERATOR == 1 && Self::SCALING_DENOMINATOR == 1_000);
    }

    open spec fn ticks(self) -> int {
        self.0.as_int()
    }

    proof fn lemma_ticks_injective(a: Self, b: Self) {
        T::lemma_as_int_injective(a.0, b.0);
    }

    proof fn lemma_ticks_bounds(d: Self) {
        T::lemma_bounds(d.0);
    }

    fn new(value: T) -> (d: Self) {
        Milliseconds(value)
    }

    fn integer(&self) -> (value: &T) {
        &self.0
    }
}

impl<T: TimeInt> Duration for Milliseconds<T> {
}

/// A span counted in microseconds.
#[derive(Debug, Default, PartialEq, Eq, PartialOrd, Ord, Hash)]
pub struct Microseconds<T: TimeInt>(pub T);

impl<T: TimeInt> Clone for Microseconds<T> {
    fn clone(&self) -> (r: Self)
        ensures
            r == *self,
    {
        Microseconds(self.0)
    }
}

impl<T: TimeInt> Copy for Microseconds<T> {
}

impl<T: TimeInt> FixedPoint for Microseconds<T> {
    type T = T;

    const SCALING_NUMERATOR: u32 = 1;

    const SCALING_DENOMINATOR: u32 = 1_000_000;

    open spec fn factor() -> Fraction {
        ratio(1, 1_000_000)
    }

    proof fn lemma_factor() {
        assert(Self::SCALING_NUMERATOR == 1 && Self::SCALING_DENOMINATOR == 1_000_000);
    }

    open spec fn ticks(self) -> int {
        self.0.as_int()
    }

    proof fn lemma_ticks_injective(a: Self, b: Self) {
        T::lemma_as_int_injective(a.0, b.0);
    }

    proof fn lemma_ticks_bounds(d: Self) {
        T::lemma_bounds(d.0);
    }

    fn new(value: T) -> (d: Self) {
        Microseconds(value)
    }

    fn integer(&self) -> (value: &T) {
        &self.0
    }
}

impl<T: TimeInt> Duration for Microseconds<T> {
}

/// A span counted in nanoseconds.
#[derive(Debug, Default, PartialEq, Eq, PartialOrd, Ord, Hash)]
pub struct Nanoseconds<T: TimeInt>(pub T);

impl<T: TimeInt> Clone for Nanoseconds<T> {
    fn clone(&self) -> (r: Self)
        ensures
            r == *self,
    {
        Nanoseconds(self.0)
    }
}

impl<T: TimeInt> Copy for Nanoseconds<T> {
}

impl<T: TimeInt> FixedPoint for Nanoseconds<T> {
    type T = T;

    const SCALING_NUMERATOR: u32 = 1;

    const SCALING_DENOMINATOR: u32 = 1_000_000_000;

    open spec fn factor() -> Fraction {
        ratio(1, 1_000_000_000)
    }

    proof fn lemma_factor() {
        assert(Self::SCALING_NUMERATOR == 1 && Self::SCALING_DENOMINATOR == 1_000_000_000);
    }

    open spec fn ticks(self) -> int {
        self.0.as_int()
    }

    proof fn lemma_ticks_injective(a: Self, b: Self) {
        T::lemma_as_int_injective(a.0, b.0);
    }

    proof fn lemma_ticks_bounds(d: Self) {
        T::lemma_bounds(d.0);
    }

    fn new(value: T) -> (d: Self) {
        Nanoseconds(value)
    }

    fn integer(&self) -> (value: &T) {
        &self.0
    }
}

impl<T: TimeInt> Duration for Nanoseconds<T> {
}

} // verus!
