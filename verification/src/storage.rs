//! Append-only storage for objects, and the handles that refer to them.

pub mod handle;
pub mod store;

pub use handle::{Handle, HandleWrapper, ObjectId};
pub use store::Store;
