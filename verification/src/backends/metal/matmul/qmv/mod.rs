//! Multiplications that were measured on real devices.
pub mod route_counts;
pub mod routes;
pub mod table;
