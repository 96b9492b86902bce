//! The blocks that models are made of.
pub mod moe;
pub mod moe_tiles;
pub mod qkv_norm;
pub mod weight_matrix;
