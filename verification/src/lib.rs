//! Core of a Game-of-Life variant: neighbor counting and rule evaluation over
//! a sparse unbounded plane or a dense toroidal grid, a scrollable pixel
//! viewport with a drag gesture, and a stochastic spawn brush.
#![verifier::loop_isolation(false)]

pub mod cell;
pub mod color;
pub mod dense;
pub mod equiv;
pub mod label;
mod rng;
pub mod rules;
pub mod sparse;
pub mod viewport;
pub mod world;
