//! Approximation of paths by points.

pub mod path;
