//! A single-channel signal monitor on fixed-point scalars.
//!
//! Raw readings are rescaled linearly from a measured domain into a
//! destination scale and classified against a nominal band, with a
//! two-sample hysteresis that tells a fresh excursion from a sustained one.
//! All quantities are integers: a fractional scale is expressed by choosing
//! the destination bounds in the smallest unit that matters. A rescaled
//! value is exact up to that unit: the product of offset and destination
//! size is divided by the domain size and rounded down once, so the ends of
//! the domain land on the ends of the destination on every grid.
pub mod fault;
pub mod monitor;
pub mod range;
pub mod sample;
pub mod text;
