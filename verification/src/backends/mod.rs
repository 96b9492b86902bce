//! Compute backends.
pub mod common;
pub mod cpu;
pub mod metal;
