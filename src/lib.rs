//! Enemy combat and wave simulation for a first-person arena shooter.
//!
//! All quantities are integers: times and durations are milliseconds,
//! positions and distances are thousandths of a world unit ("milli-units"),
//! velocities are milli-units per second, and multipliers and progress
//! values are fixed-point fractions with the denominator named beside them.
pub mod timer;
pub mod geometry;
pub mod difficulty;
pub mod ranking;
pub mod random;
pub mod director;
pub mod movement;
pub mod combat;
pub mod enemy;
pub mod explosion;
pub mod simulation;
