//! The core of a two-dimensional gravity simulation: bodies that attract
//! each other, the gesture that places a new body, and the tick that moves
//! them.
//!
//! The quantities of the simulation are numbers of a type that the library
//! never looks into; [`arithmetic`] says how they are handed in. The rules
//! are stated and proved over that arithmetic.

pub mod arithmetic;
pub mod balance;
pub mod body;
pub mod force;
pub mod gesture;
pub mod motion;
pub mod pairs;
pub mod registry;
pub mod simulation;
