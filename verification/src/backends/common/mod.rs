//! What every backend shares.
pub mod allocator;
pub mod gpu_types;
pub mod matmul;
pub mod microfloat;
