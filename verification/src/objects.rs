//! The objects of a boundary representation, and the stores that hold them.

pub mod kinds;
pub mod stores;

pub use kinds::{Curve, Cycle, Edge, Face, Region, Shell, Sketch, Solid, Surface, Vertex};
pub use stores::{Objects, Surfaces};
