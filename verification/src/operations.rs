//! Operations that build and change objects.

pub mod build_cycle;
pub mod build_face;
pub mod insert;
pub mod update;

pub use build_cycle::BuildCycle;
pub use build_face::{FaceBuilder, PartialFace};
pub use insert::Insert;
pub use update::UpdateSolid;
