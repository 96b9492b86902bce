//! Running models: what a model offers and how its tokens are produced.
pub mod language_model;
