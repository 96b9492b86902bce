//! The reference backend.
pub mod attention_prepare;
pub mod router_topk;
