//! The deterministic simulation core of a two-paddle ball-and-wall game.
//!
//! Lengths are whole numbers of [`layout::UNITS_PER_PIXEL`]-ths of a pixel and
//! time is counted in ticks, so every rule of the game is exact integer
//! arithmetic: nothing is rounded except where a quotient is taken, and there
//! the rounding is part of the contract.
//!
//! - [`collision`] tells whether two boxes overlap and which face was struck.
//! - [`physics`] moves the bodies, reflects them and reports what they hit.
//! - [`predictor`] finds where a bouncing puck will reach the right wall.
//! - [`paddle`] moves the two paddles and keeps them in the field.
//! - [`world`] sets the game up and runs it tick by tick.
//! - [`opening`] tells how every game begins: the puck's first bounce and
//!   the first goal.

pub mod collision;
pub mod entity;
pub mod events;
pub mod layout;
pub mod math;
pub mod opening;
pub mod paddle;
pub mod physics;
pub mod predictor;
pub mod vector;
pub mod world;
