//! A locally replicated exchange order book: a full snapshot spliced with a
//! stream of sequence-numbered diffs, with every break in the sequence
//! detected rather than tolerated.
//!
//! Prices and quantities are IEEE 754 binary64 values. The library never
//! computes with them: it carries their bit patterns and orders prices by an
//! integer that rises exactly as the numeric value does.

pub mod book;
pub mod event;
pub mod ingress;
pub mod level;
pub mod numeric;
pub mod sync;
pub mod value;
