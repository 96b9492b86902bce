//! Grouping of routed rows by expert.
use vstd::prelude::*;

use crate::backends::common::matmul::routing::ExpertRoutes;

verus! {

/// What makes two groupings of routes the same. The expert ids are known by the number of their
/// allocation.
#[derive(Clone, Copy, Debug, PartialEq, Eq, Structural)]
pub struct ExpertRoutePlanKey {
    pub expert_ids: u64,
    pub route_count: u32,
    pub expert_count: u32,
    pub routes_per_token: u32,
    pub block_m: u32,
}

/// The scratch buffers of a grouping, as counts of 32-bit words.
#[derive(Clone, Copy, Debug, PartialEq, Eq)]
pub struct ExpertRouteScratch {
    pub offsets: u32,
    /// Three words for each tile: there are at most as many tiles as routes.
    pub tiles: u64,
    pub cursors: u32,
    pub grouped_routes: u32,
    pub tile_count: u32,
}

/// A grouping: an earlier one with the same key, or a new one and its scratch buffers.
#[derive(Clone, Copy, Debug, PartialEq, Eq)]
pub struct PreparedExpertRoutes {
    pub key: ExpertRoutePlanKey,
    /// The buffers that are filled, where no earlier grouping is used.
    pub scratch: Option<ExpertRouteScratch>,
    /// Whether the grouping is kept for the next multiplication.
    pub retain: bool,
}

/// The key of a grouping.
pub open spec fn key_of(
    routes: ExpertRoutes,
    expert_ids: u64,
    route_count: u32,
    block_m: u32,
) -> ExpertRoutePlanKey {
    ExpertRoutePlanKey {
        expert_ids,
        route_count,
        expert_count: routes.expert_count,
        routes_per_token: routes.routes_per_token,
        block_m,
    }
}

/// Plans a grouping. `cached` is the key of the grouping that was kept last.
pub fn prepare(
    routes: &ExpertRoutes,
    expert_ids: u64,
    route_count: u32,
    block_m: u32,
    cached: Option<ExpertRoutePlanKey>,
) -> (prepared: PreparedExpertRoutes)
    requires
        routes.expert_count < u32::MAX,
    ensures
        prepared.key == key_of(*routes, expert_ids, route_count, block_m),
        prepared.retain == (cached != Some(prepared.key)),
        prepared.scratch == if cached == Some(prepared.key) {
            None
        } else {
            Some(
                ExpertRouteScratch {
                    offsets: (routes.expert_count + 1) as u32,
                    tiles: (3 * route_count) as u64,
                    cursors: routes.expert_count,
                    grouped_routes: route_count,
                    tile_count: 1,
                },
            )
        },
{
    let key = ExpertRoutePlanKey {
        expert_ids,
        route_count,
        expert_count: routes.expert_count,
        routes_per_token: routes.routes_per_token,
        block_m,
    };
    let found: bool = match cached {
        Some(other) => other == key,
        None => false,
    };
    if found {
        return PreparedExpertRoutes { key, scratch: None, retain: false };
    }
    PreparedExpertRoutes {
        key,
        scratch: Some(
            ExpertRouteScratch {
                offsets: routes.expert_count + 1,
                tiles: 3 * route_count as u64,
                cursors: routes.expert_count,
                grouped_routes: route_count,
                tile_count: 1,
            },
        ),
        retain: true,
    }
}

} // verus!
