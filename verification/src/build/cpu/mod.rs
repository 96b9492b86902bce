//! The kernels of the CPU backend, which are Rust functions.
pub mod bindings;
pub mod bindings_laws;
pub mod compiler;
pub mod description;
pub mod function;
pub mod message;
pub mod selections;
