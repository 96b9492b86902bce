//! The Metal backend.
pub mod attention_fallback;
pub mod device_profile;
pub mod matmul;
