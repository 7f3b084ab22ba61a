//! Control logic for streaming a gravitational n-body simulation at a steady
//! rate: the shape of an integration step, the driver that owns the
//! simulation state and answers its consumer's instructions, and the pacing
//! of its ticks against the clock.
//!
//! All arithmetic here is on integers. The arithmetic on masses, positions and
//! velocities belongs to the caller and comes in as function values.

pub mod driver;
pub mod kernel;
pub mod pacing;
pub mod speed;
pub mod state;
pub mod stepping;
pub mod traces;
