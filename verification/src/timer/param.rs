//! The tags that a timer's type carries: its mode and its state.

use vstd::prelude::*;

verus! {

/// A timer that fires once.
#[derive(Debug)]
pub struct OneShot;

/// A timer that is armed anew for each period.
#[derive(Debug)]
pub struct Periodic;

/// The state of a timer that has not been started.
#[derive(Debug)]
pub struct Disarmed;

/// The state of a timer that runs towards its deadline.
#[derive(Debug)]
pub struct Armed;

/// The state of a timer whose deadline was seen to have passed.
#[derive(Debug)]
pub struct Expired;

/// A timer state. A timer has a deadline in some states and none in the
/// others.
pub trait State {
    /// Whether a timer in this state has a deadline.
    spec fn has_deadline() -> bool;
}

impl State for Disarmed {
    open spec fn has_deadline() -> bool {
        false
    }
}

impl State for Armed {
    open spec fn has_deadline() -> bool {
        true
    }
}

impl State for Expired {
    open spec fn has_deadline() -> bool {
        true
    }
}

} // verus!
