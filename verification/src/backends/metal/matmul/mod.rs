//! Matrix multiplication on Metal.
pub mod dispatch;
pub mod gemm;
pub mod gemv;
pub mod laws;
pub mod qmv;
