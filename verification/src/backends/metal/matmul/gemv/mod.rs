//! Multiplication of few rows: each simdgroup reduces whole rows of the weights.
pub mod kernel;
pub mod specialization;
pub mod tile;
