//! Blocked matrix multiplication: which engine, tiling and split of the depth is used.
pub mod microfloat;
pub mod plan;
pub mod policy;
pub mod route_plan;
pub mod selection;
pub mod specialization;
