//! Constraint circuits over wires that carry 64-bit values.

pub mod constraint;
pub mod field;
pub mod laws;
pub mod threshold;
