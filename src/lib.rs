//! Merging of interface metadata into one component interface, and rendering
//! of primitive literals as Swift constant expressions.

pub mod literal;
pub mod resolver;
pub mod types;
