//! Support for building a trapezoidal map of a planar region.

pub mod nodes;
