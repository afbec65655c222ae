//! Hardware-independent time keeping for embedded targets: durations with a
//! rational tick length, instants read from a clock, and polled timers.
//!
//! Every quantity is a tick count together with a scaling factor, the length
//! of one tick in seconds, which is fixed per type. Conversions between tick
//! lengths are exact rational arithmetic; what cannot be represented is
//! reported, never wrapped.

pub mod clock;
pub mod delay;
pub mod duration;
pub mod fixed_point;
pub mod fraction;
pub mod instant;
pub mod time_int;
pub mod timer;

pub use crate::clock::{Clock, ClockExt};
pub use crate::instant::Instant;
pub use crate::timer::Timer;
