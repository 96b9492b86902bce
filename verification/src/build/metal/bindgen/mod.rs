//! The code that is generated for Metal kernels.
pub mod arguments;
pub mod code;
pub mod dispatch;
pub mod dispatch_laws;
pub mod host_arguments;
pub mod host_expression;
pub mod kernel_info;
pub mod specialize;
pub mod variants;
