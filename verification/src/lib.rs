//! A boundary-representation modeling kernel: an object store with stable
//! handles, curve boundaries, point-in-face classification, deterministic
//! curve sampling and the node tree of a trapezoidal map.

pub mod algorithms;
pub mod geometry;
pub mod math;
pub mod model;
pub mod objects;
pub mod operations;
pub mod order;
pub mod services;
pub mod storage;
