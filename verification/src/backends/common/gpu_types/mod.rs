//! Types that host code and kernels share.
pub mod gemm;
pub mod quantization;
pub mod router_topk;
