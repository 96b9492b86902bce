//! Model configuration.
pub mod weight_matrix;
