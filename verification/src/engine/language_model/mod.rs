//! Autoregressive language models.
pub mod model;
pub mod prefill;
pub mod stream;
pub mod stream_actions;
pub mod stream_laws;
pub mod stream_runs;
