//! Matrix multiplication: operands, routing and the checks on their storage.
pub mod arguments;
pub mod error;
pub mod routing;
pub mod validation;
