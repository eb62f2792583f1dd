//! Algorithms on the objects of a model.

pub mod approx;
pub mod intersect;
