//! Planning for the Metal backend build.
pub mod bindgen;
pub mod compiler;
pub mod gpu_types;
pub mod predicate;
pub mod toolchain;
pub mod variant_combinations;
