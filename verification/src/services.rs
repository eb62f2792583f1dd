//! Services: state that changes by events, which commands decide on.

pub mod validation;

pub use validation::{Validated, Validation, ValidationCommand, ValidationError, ValidationEvent};
