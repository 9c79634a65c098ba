//! Pacing for chess time controls: from a starting allocation, an increment
//! and a move count, derive how much clock time each move may take and the
//! clock reading a player should aim for after every move.

pub mod control;
pub mod display;
pub mod plan;
pub mod schedule;

pub use control::{ConfigError, Policy, TimeControl};
pub use display::{clock_reading, tenths_of_second, ClockReading};
pub use plan::{pacing_plan, total_time, PacingPlan};
pub use schedule::{calculate, simulate, Pacing, ScheduleRow};
