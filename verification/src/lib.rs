//! Verified core of an on-device inference engine: kernel build planning, matrix
//! multiplication planning, storage validation, allocation and decoding state.
#![allow(unused_imports)]

pub mod arithmetic;
pub mod backends;
pub mod build;
pub mod config;
pub mod data_type;
pub mod encodable_block;
pub mod engine;
pub mod text;
