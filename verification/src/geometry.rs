//! Geometric data structures.

pub mod boundary;
pub mod path;
pub mod trapezoidation;
