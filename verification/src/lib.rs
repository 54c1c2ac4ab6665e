//! Alias-based payment routing: an alias registry, weighted payout routes,
//! and an overflow-safe settlement engine that divides an incoming amount
//! across a route's recipients in basis points.

pub mod errors;
pub mod records;
pub mod registry;
pub mod routes;
pub mod settlement;
pub mod split_math;
