//! Build-time planning: which kernels are generated and how they are compiled.
pub mod constraints;
pub mod cpu;
pub mod expression;
pub mod gpu_types;
pub mod hashing;
pub mod kernel;
pub mod metal;
pub mod plan;
pub mod rust_source;
