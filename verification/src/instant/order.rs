//! The order of the instants of one clock: `==`, `<` and their kin compare
//! the tick counts.

use vstd::prelude::*;
use core::cmp::Ordering;
use vstd::std_specs::cmp::{PartialEqSpecImpl, PartialOrdSpecImpl};
use crate::clock::Clock;
use crate::instant::Instant;
use crate::time_int::TimeInt;

verus! {

impl<C: Clock> PartialEq for Instant<C> {
    fn eq(&self, other: &Self) -> (r: bool) {
        !self.ticks.less_than(other.ticks) && !other.ticks.less_than(self.ticks)
    }
}

impl<C: Clock> PartialEqSpecImpl for Instant<C> {
    open spec fn obeys_eq_spec() -> bool {
        true
    }

    open spec fn eq_spec(&self, other: &Self) -> bool {
        self@ == other@
    }
}

impl<C: Clock> Eq for Instant<C> {
}

impl<C: Clock> PartialOrd for Instant<C> {
    fn partial_cmp(&self, other: &Self) -> (r: Option<Ordering>) {
        if self.ticks.less_than(other.ticks) {
            Some(Ordering::Less)
        } else if other.ticks.less_than(self.ticks) {
            Some(Ordering::Greater)
        } else {
            Some(Ordering::Equal)
        }
    }
}

impl<C: Clock> PartialOrdSpecImpl for Instant<C> {
    open spec fn obeys_partial_cmp_spec() -> bool {
        true
    }

    open spec fn partial_cmp_spec(&self, other: &Self) -> Option<Ordering> {
        if self@ < other@ {
            Some(Ordering::Less)
        } else if self@ > other@ {
            Some(Ordering::Greater)
        } else {
            Some(Ordering::Equal)
        }
    }
}

} // verus!
