//! A verified core for a 2D gravity-flipping platformer.
//!
//! All spatial quantities are fixed-point integers in milli-units: one
//! thousand milli-units make one world unit (a pixel). Velocities are
//! milli-units per second, frame deltas are milliseconds. The crate holds
//! the per-frame physics pipeline (gravity, collision resolution against
//! static platforms and between moving bodies, integration), the level
//! text parser and level lifecycle, and the boundary and win predicates.
//! Rendering, windowing and input polling live outside; they hand the
//! library plain values and draw what it returns.

pub mod input;
pub mod layout;
pub mod physics;
pub mod wizard;
