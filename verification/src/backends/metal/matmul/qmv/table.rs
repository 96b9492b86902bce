//! Routes of few-row multiplications with packed weights that were measured.
//!
//! Qwen3.6-27B W4/ZP and W8/Symmetric, G32/G64.
//! Tuned on M1, M2, M2 Pro, M3 Max, M4, M4 Pro, M5 Max.
use vstd::prelude::*;

use crate::backends::common::gpu_types::gemm::GemmTiling;
use crate::backends::metal::matmul::gemm::plan::{GemmEngine, GemmPlan};
use crate::backends::metal::matmul::gemv::tile::GemvTile;

verus! {

/// The format of the weights.
#[derive(Clone, Copy, Debug, PartialEq, Eq, Structural)]
pub enum QmvFormat {
    W4ZeroPointG32,
    W4ZeroPointG64,
    W8SymmetricG32,
    W8SymmetricG64,
}

/// The projection that a multiplication computes.
#[derive(Clone, Copy, Debug, PartialEq, Eq, Structural)]
pub enum QmvShape {
    Down,
    Gate,
    GateUp,
    ProjectionIn,
    ProjectionOut,
    Qkv,
    Readout,
}

/// How a measured multiplication is run.
#[derive(Clone, Copy, Debug, PartialEq, Eq, Structural)]
pub enum QmvRoute {
    Tuned(GemvTile),
    MainGemv(GemvTile),
    MainGemm(GemmPlan),
}

pub open spec fn spec_tuned(
    input: u32,
    output: u32,
    lanes: u32,
    group_lanes: u32,
    simdgroups: u32,
) -> QmvRoute {
    QmvRoute::Tuned(
        GemvTile::quantized_output_tile(simdgroups, output, input, lanes, group_lanes),
    )
}

/// A tile that was tuned for the multiplication.
#[verifier::when_used_as_spec(spec_tuned)]
fn tuned(input: u32, output: u32, lanes: u32, group_lanes: u32, simdgroups: u32) -> (route: QmvRoute)
    requires
        simdgroups > 0,
    ensures
        route == spec_tuned(input, output, lanes, group_lanes, simdgroups),
{
    QmvRoute::Tuned(
        GemvTile::quantized_output_tile(simdgroups, output, input, lanes, group_lanes),
    )
}

pub open spec fn spec_main_gemv(
    input: u32,
    results_per_simdgroup: u32,
    lanes: u32,
    group_lanes: u32,
    simdgroups: u32,
) -> QmvRoute {
    QmvRoute::MainGemv(
        GemvTile::quantized(simdgroups, results_per_simdgroup, input, lanes, group_lanes),
    )
}

/// A tile of the general GEMV.
#[verifier::when_used_as_spec(spec_main_gemv)]
fn main_gemv(
    input: u32,
    results_per_simdgroup: u32,
    lanes: u32,
    group_lanes: u32,
    simdgroups: u32,
) -> (route: QmvRoute)
    ensures
        route == spec_main_gemv(input, results_per_simdgroup, lanes, group_lanes, simdgroups),
{
    QmvRoute::MainGemv(
        GemvTile::quantized(simdgroups, results_per_simdgroup, input, lanes, group_lanes),
    )
}

pub open spec fn spec_main_gemm(engine: GemmEngine, tiling: GemmTiling, split_k: u32) -> QmvRoute {
    QmvRoute::MainGemm(GemmPlan { engine, tiling, split_k })
}

/// A plan of the general GEMM.
#[verifier::when_used_as_spec(spec_main_gemm)]
fn main_gemm(engine: GemmEngine, tiling: GemmTiling, split_k: u32) -> (route: QmvRoute)
    ensures
        route == spec_main_gemm(engine, tiling, split_k),
{
    QmvRoute::MainGemm(GemmPlan { engine, tiling, split_k })
}

/// The route of two to seven rows on an M1.
pub open spec fn spec_m1_route(format: QmvFormat, m: u32, shape: QmvShape) -> QmvRoute {
    match (format, m) {
        (QmvFormat::W4ZeroPointG32, 2) => match shape {
            QmvShape::Readout => spec_main_gemv(1, 4, 32, 2, 8),
            _ => spec_tuned(2, 16, 8, 1, 2),
        },
        (QmvFormat::W4ZeroPointG32, 3) => spec_tuned(3, 16, 8, 1, 2),
        (QmvFormat::W4ZeroPointG32, 4) => match shape {
            QmvShape::Down => spec_main_gemv(1, 4, 32, 2, 8),
            _ => spec_tuned(4, 16, 8, 1, 2),
        },
        (QmvFormat::W4ZeroPointG32, 5) => spec_tuned(5, 16, 8, 1, 2),
        (QmvFormat::W4ZeroPointG32, 6) => spec_tuned(6, 16, 16, 1, 4),
        (QmvFormat::W4ZeroPointG32, _) => spec_tuned(7, 16, 8, 1, 2),
        (QmvFormat::W4ZeroPointG64, 2) => spec_tuned(2, 16, 8, 1, 2),
        (QmvFormat::W4ZeroPointG64, 3) => spec_tuned(3, 16, 16, 1, 4),
        (QmvFormat::W4ZeroPointG64, 4) => spec_tuned(4, 16, 16, 1, 4),
        (QmvFormat::W4ZeroPointG64, 5) => spec_tuned(5, 16, 16, 1, 4),
        (QmvFormat::W4ZeroPointG64, 6) => spec_tuned(6, 16, 16, 1, 4),
        (QmvFormat::W4ZeroPointG64, _) => spec_tuned(7, 16, 8, 1, 2),
        (QmvFormat::W8SymmetricG32, 2) => spec_main_gemv(1, 4, 32, 4, 8),
        (QmvFormat::W8SymmetricG32, 3) => match shape {
            QmvShape::ProjectionIn | QmvShape::Readout => spec_tuned(3, 16, 8, 1, 2),
            _ => spec_main_gemv(1, 4, 32, 4, 8),
        },
        (QmvFormat::W8SymmetricG32, 4) => match shape {
            QmvShape::GateUp => spec_main_gemv(1, 4, 32, 4, 8),
            _ => spec_tuned(4, 16, 8, 1, 2),
        },
        (QmvFormat::W8SymmetricG32, 5) => spec_tuned(5, 16, 8, 1, 2),
        (QmvFormat::W8SymmetricG32, 6) => match shape {
            QmvShape::Down => spec_tuned(6, 16, 16, 1, 4),
            _ => spec_tuned(6, 16, 8, 1, 2),
        },
        (QmvFormat::W8SymmetricG32, _) => spec_tuned(7, 16, 8, 1, 2),
        (QmvFormat::W8SymmetricG64, 2) => spec_main_gemv(1, 4, 32, 8, 8),
        (QmvFormat::W8SymmetricG64, 3) => spec_main_gemv(1, 4, 32, 8, 8),
        (QmvFormat::W8SymmetricG64, 4) => spec_tuned(4, 16, 8, 1, 2),
        (QmvFormat::W8SymmetricG64, 5) => spec_tuned(5, 16, 8, 1, 2),
        (QmvFormat::W8SymmetricG64, 6) => spec_tuned(6, 16, 8, 1, 2),
        (QmvFormat::W8SymmetricG64, _) => spec_tuned(7, 16, 8, 1, 2),
    }
}

/// The route of two to seven rows on an M1.
pub fn m1_route(format: QmvFormat, m: u32, shape: QmvShape) -> (route: QmvRoute)
    ensures
        route == spec_m1_route(format, m, shape),
{
    match (format, m) {
        (QmvFormat::W4ZeroPointG32, 2) => match shape {
            QmvShape::Readout => main_gemv(1, 4, 32, 2, 8),
            _ => tuned(2, 16, 8, 1, 2),
        },
        (QmvFormat::W4ZeroPointG32, 3) => tuned(3, 16, 8, 1, 2),
        (QmvFormat::W4ZeroPointG32, 4) => match shape {
            QmvShape::Down => main_gemv(1, 4, 32, 2, 8),
            _ => tuned(4, 16, 8, 1, 2),
        },
        (QmvFormat::W4ZeroPointG32, 5) => tuned(5, 16, 8, 1, 2),
        (QmvFormat::W4ZeroPointG32, 6) => tuned(6, 16, 16, 1, 4),
        (QmvFormat::W4ZeroPointG32, _) => tuned(7, 16, 8, 1, 2),
        (QmvFormat::W4ZeroPointG64, 2) => tuned(2, 16, 8, 1, 2),
        (QmvFormat::W4ZeroPointG64, 3) => tuned(3, 16, 16, 1, 4),
        (QmvFormat::W4ZeroPointG64, 4) => tuned(4, 16, 16, 1, 4),
        (QmvFormat::W4ZeroPointG64, 5) => tuned(5, 16, 16, 1, 4),
        (QmvFormat::W4ZeroPointG64, 6) => tuned(6, 16, 16, 1, 4),
        (QmvFormat::W4ZeroPointG64, _) => tuned(7, 16, 8, 1, 2),
        (QmvFormat::W8SymmetricG32, 2) => main_gemv(1, 4, 32, 4, 8),
        (QmvFormat::W8SymmetricG32, 3) => match shape {
            QmvShape::ProjectionIn | QmvShape::Readout => tuned(3, 16, 8, 1, 2),
            _ => main_gemv(1, 4, 32, 4, 8),
        },
        (QmvFormat::W8SymmetricG32, 4) => match shape {
            QmvShape::GateUp => main_gemv(1, 4, 32, 4, 8),
            _ => tuned(4, 16, 8, 1, 2),
        },
        (QmvFormat::W8SymmetricG32, 5) => tuned(5, 16, 8, 1, 2),
        (QmvFormat::W8SymmetricG32, 6) => match shape {
            QmvShape::Down => tuned(6, 16, 16, 1, 4),
            _ => tuned(6, 16, 8, 1, 2),
        },
        (QmvFormat::W8SymmetricG32, _) => tuned(7, 16, 8, 1, 2),
        (QmvFormat::W8SymmetricG64, 2) => main_gemv(1, 4, 32, 8, 8),
        (QmvFormat::W8SymmetricG64, 3) => main_gemv(1, 4, 32, 8, 8),
        (QmvFormat::W8SymmetricG64, 4) => tuned(4, 16, 8, 1, 2),
        (QmvFormat::W8SymmetricG64, 5) => tuned(5, 16, 8, 1, 2),
        (QmvFormat::W8SymmetricG64, 6) => tuned(6, 16, 8, 1, 2),
        (QmvFormat::W8SymmetricG64, _) => tuned(7, 16, 8, 1, 2),
    }
}

/// The route of two to seven rows on an M2.
pub open spec fn spec_m2_route(format: QmvFormat, m: u32, shape: QmvShape) -> QmvRoute {
    match (format, m) {
        (QmvFormat::W4ZeroPointG32, 2) => match shape {
            QmvShape::ProjectionIn => spec_main_gemv(1, 4, 32, 2, 8),
            _ => spec_tuned(2, 16, 8, 1, 2),
        },
        (QmvFormat::W4ZeroPointG32, 3) => spec_tuned(3, 16, 8, 1, 2),
        (QmvFormat::W4ZeroPointG32, 4) => spec_tuned(4, 16, 8, 1, 2),
        (QmvFormat::W4ZeroPointG32, 5) => spec_tuned(5, 16, 8, 1, 2),
        (QmvFormat::W4ZeroPointG32, 6) => spec_tuned(6, 16, 8, 1, 2),
        (QmvFormat::W4ZeroPointG32, _) => match shape {
            QmvShape::Readout => spec_tuned(4, 8, 8, 1, 2),
            QmvShape::Down | QmvShape::Gate => spec_tuned(8, 8, 8, 1, 2),
            _ => spec_tuned(7, 16, 8, 1, 2),
        },
        (QmvFormat::W4ZeroPointG64, 2) => match shape {
            QmvShape::ProjectionIn => spec_tuned(2, 8, 8, 1, 2),
            _ => spec_tuned(2, 16, 8, 1, 2),
        },
        (QmvFormat::W4ZeroPointG64, 3) => spec_tuned(3, 16, 8, 1, 2),
        (QmvFormat::W4ZeroPointG64, 4) => spec_tuned(4, 16, 8, 1, 2),
        (QmvFormat::W4ZeroPointG64, 5) => spec_tuned(5, 16, 8, 1, 2),
        (QmvFormat::W4ZeroPointG64, 6) => spec_tuned(6, 16, 8, 1, 2),
        (QmvFormat::W4ZeroPointG64, _) => spec_tuned(7, 16, 8, 1, 2),
        (QmvFormat::W8SymmetricG32, 2) => match shape {
            QmvShape::Down => spec_tuned(2, 16, 8, 1, 2),
            _ => spec_main_gemv(1, 4, 32, 4, 8),
        },
        (QmvFormat::W8SymmetricG32, 3) => spec_main_gemv(1, 4, 32, 4, 8),
        (QmvFormat::W8SymmetricG32, 4) => spec_tuned(4, 16, 8, 1, 2),
        (QmvFormat::W8SymmetricG32, 5) => spec_tuned(5, 16, 8, 1, 2),
        (QmvFormat::W8SymmetricG32, 6) => spec_tuned(6, 16, 8, 1, 2),
        (QmvFormat::W8SymmetricG32, _) => spec_tuned(7, 16, 8, 1, 2),
        (QmvFormat::W8SymmetricG64, 2) => match shape {
            QmvShape::Down => spec_tuned(2, 16, 8, 1, 2),
            _ => spec_main_gemv(1, 4, 32, 8, 8),
        },
        (QmvFormat::W8SymmetricG64, 3) => match shape {
            QmvShape::Down => spec_tuned(3, 16, 8, 1, 2),
            _ => spec_main_gemv(1, 4, 32, 8, 8),
        },
        (QmvFormat::W8SymmetricG64, 4) => spec_tuned(4, 16, 8, 1, 2),
        (QmvFormat::W8SymmetricG64, 5) => spec_tuned(5, 16, 8, 1, 2),
        (QmvFormat::W8SymmetricG64, 6) => spec_tuned(6, 16, 8, 1, 2),
        (QmvFormat::W8SymmetricG64, _) => spec_tuned(7, 16, 8, 1, 2),
    }
}

/// The route of two to seven rows on an M2.
pub fn m2_route(format: QmvFormat, m: u32, shape: QmvShape) -> (route: QmvRoute)
    ensures
        route == spec_m2_route(format, m, shape),
{
    match (format, m) {
        (QmvFormat::W4ZeroPointG32, 2) => match shape {
            QmvShape::ProjectionIn => main_gemv(1, 4, 32, 2, 8),
            _ => tuned(2, 16, 8, 1, 2),
        },
        (QmvFormat::W4ZeroPointG32, 3) => tuned(3, 16, 8, 1, 2),
        (QmvFormat::W4ZeroPointG32, 4) => tuned(4, 16, 8, 1, 2),
        (QmvFormat::W4ZeroPointG32, 5) => tuned(5, 16, 8, 1, 2),
        (QmvFormat::W4ZeroPointG32, 6) => tuned(6, 16, 8, 1, 2),
        (QmvFormat::W4ZeroPointG32, _) => match shape {
            QmvShape::Readout => tuned(4, 8, 8, 1, 2),
            QmvShape::Down | QmvShape::Gate => tuned(8, 8, 8, 1, 2),
            _ => tuned(7, 16, 8, 1, 2),
        },
        (QmvFormat::W4ZeroPointG64, 2) => match shape {
            QmvShape::ProjectionIn => tuned(2, 8, 8, 1, 2),
            _ => tuned(2, 16, 8, 1, 2),
        },
        (QmvFormat::W4ZeroPointG64, 3) => tuned(3, 16, 8, 1, 2),
        (QmvFormat::W4ZeroPointG64, 4) => tuned(4, 16, 8, 1, 2),
        (QmvFormat::W4ZeroPointG64, 5) => tuned(5, 16, 8, 1, 2),
        (QmvFormat::W4ZeroPointG64, 6) => tuned(6, 16, 8, 1, 2),
        (QmvFormat::W4ZeroPointG64, _) => tuned(7, 16, 8, 1, 2),
        (QmvFormat::W8SymmetricG32, 2) => match shape {
            QmvShape::Down => tuned(2, 16, 8, 1, 2),
            _ => main_gemv(1, 4, 32, 4, 8),
        },
        (QmvFormat::W8SymmetricG32, 3) => main_gemv(1, 4, 32, 4, 8),
        (QmvFormat::W8SymmetricG32, 4) => tuned(4, 16, 8, 1, 2),
        (QmvFormat::W8SymmetricG32, 5) => tuned(5, 16, 8, 1, 2),
        (QmvFormat::W8SymmetricG32, 6) => tuned(6, 16, 8, 1, 2),
        (QmvFormat::W8SymmetricG32, _) => tuned(7, 16, 8, 1, 2),
        (QmvFormat::W8SymmetricG64, 2) => match shape {
            QmvShape::Down => tuned(2, 16, 8, 1, 2),
            _ => main_gemv(1, 4, 32, 8, 8),
        },
        (QmvFormat::W8SymmetricG64, 3) => match shape {
            QmvShape::Down => tuned(3, 16, 8, 1, 2),
            _ => main_gemv(1, 4, 32, 8, 8),
        },
        (QmvFormat::W8SymmetricG64, 4) => tuned(4, 16, 8, 1, 2),
        (QmvFormat::W8SymmetricG64, 5) => tuned(5, 16, 8, 1, 2),
        (QmvFormat::W8SymmetricG64, 6) => tuned(6, 16, 8, 1, 2),
        (QmvFormat::W8SymmetricG64, _) => tuned(7, 16, 8, 1, 2),
    }
}

/// The route of two to seven rows on an M2 Pro.
pub open spec fn spec_m2_pro_route(format: QmvFormat, m: u32, shape: QmvShape) -> QmvRoute {
    match (format, m) {
        (QmvFormat::W4ZeroPointG32, 2) => match shape {
            QmvShape::ProjectionOut => spec_main_gemv(1, 4, 32, 2, 8),
            _ => spec_tuned(2, 16, 8, 1, 2),
        },
        (QmvFormat::W4ZeroPointG32, 3) => match shape {
            QmvShape::ProjectionIn => spec_tuned(3, 16, 8, 1, 2),
            QmvShape::Down | QmvShape::GateUp | QmvShape::Readout => spec_main_gemv(1, 4, 32, 2, 8),
            _ => spec_tuned(3, 16, 16, 1, 4),
        },
        (QmvFormat::W4ZeroPointG32, 4) => match shape {
            QmvShape::Gate => spec_tuned(4, 16, 16, 1, 4),
            QmvShape::ProjectionIn => spec_tuned(4, 16, 8, 1, 2),
            _ => spec_main_gemv(1, 4, 32, 2, 8),
        },
        (QmvFormat::W4ZeroPointG32, 5) => match shape {
            QmvShape::ProjectionIn => spec_tuned(5, 16, 8, 1, 2),
            QmvShape::ProjectionOut => spec_main_gemm(GemmEngine::Simdgroup, GemmTiling::Tile8x32x32_Simdgroups1x1, 3),
            QmvShape::GateUp | QmvShape::Readout => spec_main_gemm(GemmEngine::Simdgroup, GemmTiling::Tile8x32x32_Simdgroups1x1, 1),
            _ => spec_main_gemm(GemmEngine::Simdgroup, GemmTiling::Tile8x32x32_Simdgroups1x1, 2),
        },
        (QmvFormat::W4ZeroPointG32, 6) => match shape {
            QmvShape::ProjectionIn => spec_tuned(6, 16, 8, 1, 2),
            QmvShape::ProjectionOut => spec_main_gemm(GemmEngine::Simdgroup, GemmTiling::Tile8x32x32_Simdgroups1x1, 3),
            QmvShape::GateUp | QmvShape::Readout => spec_main_gemm(GemmEngine::Simdgroup, GemmTiling::Tile8x32x32_Simdgroups1x1, 1),
            _ => spec_main_gemm(GemmEngine::Simdgroup, GemmTiling::Tile8x32x32_Simdgroups1x1, 2),
        },
        (QmvFormat::W4ZeroPointG32, _) => match shape {
            QmvShape::ProjectionIn => spec_tuned(7, 16, 8, 1, 2),
            QmvShape::ProjectionOut => spec_main_gemm(GemmEngine::Simdgroup, GemmTiling::Tile8x32x32_Simdgroups1x1, 3),
            QmvShape::GateUp | QmvShape::Readout => spec_main_gemm(GemmEngine::Simdgroup, GemmTiling::Tile8x32x32_Simdgroups1x1, 1),
            _ => spec_main_gemm(GemmEngine::Simdgroup, GemmTiling::Tile8x32x32_Simdgroups1x1, 2),
        },
        (QmvFormat::W4ZeroPointG64, 2) => spec_tuned(2, 16, 8, 1, 2),
        (QmvFormat::W4ZeroPointG64, 3) => match shape {
            QmvShape::ProjectionOut => spec_tuned(3, 16, 16, 1, 4),
            _ => spec_tuned(3, 16, 8, 1, 2),
        },
        (QmvFormat::W4ZeroPointG64, 4) => match shape {
            QmvShape::GateUp | QmvShape::ProjectionIn | QmvShape::Readout => spec_tuned(4, 16, 8, 1, 2),
            _ => spec_tuned(4, 16, 16, 1, 4),
        },
        (QmvFormat::W4ZeroPointG64, 5) => match shape {
            QmvShape::ProjectionIn => spec_tuned(5, 16, 8, 1, 2),
            _ => spec_tuned(5, 16, 16, 1, 4),
        },
        (QmvFormat::W4ZeroPointG64, 6) => spec_tuned(6, 16, 8, 1, 2),
        (QmvFormat::W4ZeroPointG64, _) => spec_tuned(7, 16, 8, 1, 2),
        (QmvFormat::W8SymmetricG32, 2) => spec_main_gemv(1, 4, 32, 4, 8),
        (QmvFormat::W8SymmetricG32, 3) => match shape {
            QmvShape::Gate => spec_tuned(3, 16, 16, 1, 4),
            QmvShape::ProjectionIn => spec_tuned(3, 16, 8, 1, 2),
            _ => spec_main_gemv(1, 4, 32, 4, 8),
        },
        (QmvFormat::W8SymmetricG32, 4) => match shape {
            QmvShape::ProjectionIn => spec_tuned(4, 16, 8, 1, 2),
            QmvShape::Gate | QmvShape::ProjectionOut => spec_tuned(4, 16, 16, 1, 4),
            _ => spec_main_gemv(1, 4, 32, 4, 8),
        },
        (QmvFormat::W8SymmetricG32, 5) => match shape {
            QmvShape::ProjectionIn => spec_tuned(5, 16, 8, 1, 2),
            QmvShape::ProjectionOut => spec_main_gemm(GemmEngine::Simdgroup, GemmTiling::Tile8x32x32_Simdgroups1x1, 3),
            QmvShape::GateUp | QmvShape::Readout => spec_main_gemm(GemmEngine::Simdgroup, GemmTiling::Tile8x32x32_Simdgroups1x1, 1),
            _ => spec_main_gemm(GemmEngine::Simdgroup, GemmTiling::Tile8x32x32_Simdgroups1x1, 2),
        },
        (QmvFormat::W8SymmetricG32, 6) => match shape {
            QmvShape::ProjectionOut => spec_main_gemm(GemmEngine::Simdgroup, GemmTiling::Tile8x32x32_Simdgroups1x1, 3),
            QmvShape::Down | QmvShape::Gate | QmvShape::Qkv => spec_main_gemm(GemmEngine::Simdgroup, GemmTiling::Tile8x32x32_Simdgroups1x1, 2),
            _ => spec_main_gemm(GemmEngine::Simdgroup, GemmTiling::Tile8x32x32_Simdgroups1x1, 1),
        },
        (QmvFormat::W8SymmetricG32, _) => match shape {
            QmvShape::ProjectionOut => spec_main_gemm(GemmEngine::Simdgroup, GemmTiling::Tile8x32x32_Simdgroups1x1, 3),
            QmvShape::Down | QmvShape::Gate | QmvShape::Qkv => spec_main_gemm(GemmEngine::Simdgroup, GemmTiling::Tile8x32x32_Simdgroups1x1, 2),
            _ => spec_main_gemm(GemmEngine::Simdgroup, GemmTiling::Tile8x32x32_Simdgroups1x1, 1),
        },
        (QmvFormat::W8SymmetricG64, 2) => spec_main_gemv(1, 4, 32, 8, 8),
        (QmvFormat::W8SymmetricG64, 3) => match shape {
            QmvShape::GateUp | QmvShape::ProjectionIn | QmvShape::Readout => spec_tuned(3, 16, 8, 1, 2),
            _ => spec_main_gemv(1, 4, 32, 8, 8),
        },
        (QmvFormat::W8SymmetricG64, 4) => match shape {
            QmvShape::Down | QmvShape::ProjectionOut => spec_main_gemv(1, 4, 32, 8, 8),
            _ => spec_tuned(4, 16, 8, 1, 2),
        },
        (QmvFormat::W8SymmetricG64, 5) => spec_tuned(5, 16, 8, 1, 2),
        (QmvFormat::W8SymmetricG64, 6) => spec_tuned(6, 16, 8, 1, 2),
        (QmvFormat::W8SymmetricG64, _) => spec_tuned(7, 16, 8, 1, 2),
    }
}

/// The route of two to seven rows on an M2 Pro.
pub fn m2_pro_route(format: QmvFormat, m: u32, shape: QmvShape) -> (route: QmvRoute)
    ensures
        route == spec_m2_pro_route(format, m, shape),
{
    match (format, m) {
        (QmvFormat::W4ZeroPointG32, 2) => match shape {
            QmvShape::ProjectionOut => main_gemv(1, 4, 32, 2, 8),
            _ => tuned(2, 16, 8, 1, 2),
        },
        (QmvFormat::W4ZeroPointG32, 3) => match shape {
            QmvShape::ProjectionIn => tuned(3, 16, 8, 1, 2),
            QmvShape::Down | QmvShape::GateUp | QmvShape::Readout => main_gemv(1, 4, 32, 2, 8),
            _ => tuned(3, 16, 16, 1, 4),
        },
        (QmvFormat::W4ZeroPointG32, 4) => match shape {
            QmvShape::Gate => tuned(4, 16, 16, 1, 4),
            QmvShape::ProjectionIn => tuned(4, 16, 8, 1, 2),
            _ => main_gemv(1, 4, 32, 2, 8),
        },
        (QmvFormat::W4ZeroPointG32, 5) => match shape {
            QmvShape::ProjectionIn => tuned(5, 16, 8, 1, 2),
            QmvShape::ProjectionOut => main_gemm(GemmEngine::Simdgroup, GemmTiling::Tile8x32x32_Simdgroups1x1, 3),
            QmvShape::GateUp | QmvShape::Readout => main_gemm(GemmEngine::Simdgroup, GemmTiling::Tile8x32x32_Simdgroups1x1, 1),
            _ => main_gemm(GemmEngine::Simdgroup, GemmTiling::Tile8x32x32_Simdgroups1x1, 2),
        },
        (QmvFormat::W4ZeroPointG32, 6) => match shape {
            QmvShape::ProjectionIn => tuned(6, 16, 8, 1, 2),
            QmvShape::ProjectionOut => main_gemm(GemmEngine::Simdgroup, GemmTiling::Tile8x32x32_Simdgroups1x1, 3),
            QmvShape::GateUp | QmvShape::Readout => main_gemm(GemmEngine::Simdgroup, GemmTiling::Tile8x32x32_Simdgroups1x1, 1),
            _ => main_gemm(GemmEngine::Simdgroup, GemmTiling::Tile8x32x32_Simdgroups1x1, 2),
        },
        (QmvFormat::W4ZeroPointG32, _) => match shape {
            QmvShape::ProjectionIn => tuned(7, 16, 8, 1, 2),
            QmvShape::ProjectionOut => main_gemm(GemmEngine::Simdgroup, GemmTiling::Tile8x32x32_Simdgroups1x1, 3),
            QmvShape::GateUp | QmvShape::Readout => main_gemm(GemmEngine::Simdgroup, GemmTiling::Tile8x32x32_Simdgroups1x1, 1),
            _ => main_gemm(GemmEngine::Simdgroup, GemmTiling::Tile8x32x32_Simdgroups1x1, 2),
        },
        (QmvFormat::W4ZeroPointG64, 2) => tuned(2, 16, 8, 1, 2),
        (QmvFormat::W4ZeroPointG64, 3) => match shape {
            QmvShape::ProjectionOut => tuned(3, 16, 16, 1, 4),
            _ => tuned(3, 16, 8, 1, 2),
        },
        (QmvFormat::W4ZeroPointG64, 4) => match shape {
            QmvShape::GateUp | QmvShape::ProjectionIn | QmvShape::Readout => tuned(4, 16, 8, 1, 2),
            _ => tuned(4, 16, 16, 1, 4),
        },
        (QmvFormat::W4ZeroPointG64, 5) => match shape {
            QmvShape::ProjectionIn => tuned(5, 16, 8, 1, 2),
            _ => tuned(5, 16, 16, 1, 4),
        },
        (QmvFormat::W4ZeroPointG64, 6) => tuned(6, 16, 8, 1, 2),
        (QmvFormat::W4ZeroPointG64, _) => tuned(7, 16, 8, 1, 2),
        (QmvFormat::W8SymmetricG32, 2) => main_gemv(1, 4, 32, 4, 8),
        (QmvFormat::W8SymmetricG32, 3) => match shape {
            QmvShape::Gate => tuned(3, 16, 16, 1, 4),
            QmvShape::ProjectionIn => tuned(3, 16, 8, 1, 2),
            _ => main_gemv(1, 4, 32, 4, 8),
        },
        (QmvFormat::W8SymmetricG32, 4) => match shape {
            QmvShape::ProjectionIn => tuned(4, 16, 8, 1, 2),
            QmvShape::Gate | QmvShape::ProjectionOut => tuned(4, 16, 16, 1, 4),
            _ => main_gemv(1, 4, 32, 4, 8),
        },
        (QmvFormat::W8SymmetricG32, 5) => match shape {
            QmvShape::ProjectionIn => tuned(5, 16, 8, 1, 2),
            QmvShape::ProjectionOut => main_gemm(GemmEngine::Simdgroup, GemmTiling::Tile8x32x32_Simdgroups1x1, 3),
            QmvShape::GateUp | QmvShape::Readout => main_gemm(GemmEngine::Simdgroup, GemmTiling::Tile8x32x32_Simdgroups1x1, 1),
            _ => main_gemm(GemmEngine::Simdgroup, GemmTiling::Tile8x32x32_Simdgroups1x1, 2),
        },
        (QmvFormat::W8SymmetricG32, 6) => match shape {
            QmvShape::ProjectionOut => main_gemm(GemmEngine::Simdgroup, GemmTiling::Tile8x32x32_Simdgroups1x1, 3),
            QmvShape::Down | QmvShape::Gate | QmvShape::Qkv => main_gemm(GemmEngine::Simdgroup, GemmTiling::Tile8x32x32_Simdgroups1x1, 2),
            _ => main_gemm(GemmEngine::Simdgroup, GemmTiling::Tile8x32x32_Simdgroups1x1, 1),
        },
        (QmvFormat::W8SymmetricG32, _) => match shape {
            QmvShape::ProjectionOut => main_gemm(GemmEngine::Simdgroup, GemmTiling::Tile8x32x32_Simdgroups1x1, 3),
            QmvShape::Down | QmvShape::Gate | QmvShape::Qkv => main_gemm(GemmEngine::Simdgroup, GemmTiling::Tile8x32x32_Simdgroups1x1, 2),
            _ => main_gemm(GemmEngine::Simdgroup, GemmTiling::Tile8x32x32_Simdgroups1x1, 1),
        },
        (QmvFormat::W8SymmetricG64, 2) => main_gemv(1, 4, 32, 8, 8),
        (QmvFormat::W8SymmetricG64, 3) => match shape {
            QmvShape::GateUp | QmvShape::ProjectionIn | QmvShape::Readout => tuned(3, 16, 8, 1, 2),
            _ => main_gemv(1, 4, 32, 8, 8),
        },
        (QmvFormat::W8SymmetricG64, 4) => match shape {
            QmvShape::Down | QmvShape::ProjectionOut => main_gemv(1, 4, 32, 8, 8),
            _ => tuned(4, 16, 8, 1, 2),
        },
        (QmvFormat::W8SymmetricG64, 5) => tuned(5, 16, 8, 1, 2),
        (QmvFormat::W8SymmetricG64, 6) => tuned(6, 16, 8, 1, 2),
        (QmvFormat::W8SymmetricG64, _) => tuned(7, 16, 8, 1, 2),
    }
}

/// The route of two to seven rows on an M3 Max.
pub open spec fn spec_m3_max_route(format: QmvFormat, m: u32, shape: QmvShape) -> QmvRoute {
    match (format, m) {
        (QmvFormat::W4ZeroPointG32, 2) => match shape {
            QmvShape::Readout => spec_tuned(2, 16, 8, 1, 2),
            _ => spec_main_gemv(1, 4, 32, 2, 8),
        },
        (QmvFormat::W4ZeroPointG32, 3) => match shape {
            QmvShape::Gate => spec_tuned(3, 16, 8, 1, 2),
            QmvShape::ProjectionOut => spec_main_gemv(1, 4, 32, 2, 8),
            _ => spec_tuned(3, 16, 16, 1, 4),
        },
        (QmvFormat::W4ZeroPointG32, 4) => match shape {
            QmvShape::ProjectionOut => spec_main_gemv(1, 4, 32, 2, 8),
            QmvShape::Gate | QmvShape::ProjectionIn => spec_tuned(4, 16, 16, 1, 4),
            _ => spec_tuned(4, 16, 8, 1, 2),
        },
        (QmvFormat::W4ZeroPointG32, 5) => match shape {
            QmvShape::ProjectionIn => spec_tuned(5, 16, 16, 1, 4),
            _ => spec_tuned(5, 16, 8, 1, 2),
        },
        (QmvFormat::W4ZeroPointG32, 6) => match shape {
            QmvShape::ProjectionIn => spec_tuned(6, 16, 16, 1, 4),
            _ => spec_tuned(6, 16, 8, 1, 2),
        },
        (QmvFormat::W4ZeroPointG32, _) => spec_tuned(7, 16, 8, 1, 2),
        (QmvFormat::W4ZeroPointG64, 2) => match shape {
            QmvShape::Down | QmvShape::Gate | QmvShape::ProjectionOut => spec_tuned(2, 16, 8, 1, 2),
            _ => spec_main_gemv(1, 4, 32, 4, 8),
        },
        (QmvFormat::W4ZeroPointG64, 3) => match shape {
            QmvShape::Down | QmvShape::Gate | QmvShape::ProjectionOut => spec_tuned(3, 16, 8, 1, 2),
            _ => spec_tuned(3, 16, 16, 1, 4),
        },
        (QmvFormat::W4ZeroPointG64, 4) => match shape {
            QmvShape::GateUp | QmvShape::ProjectionIn => spec_tuned(4, 16, 16, 1, 4),
            _ => spec_tuned(4, 16, 8, 1, 2),
        },
        (QmvFormat::W4ZeroPointG64, 5) => match shape {
            QmvShape::GateUp => spec_tuned(5, 16, 16, 1, 4),
            _ => spec_tuned(5, 16, 8, 1, 2),
        },
        (QmvFormat::W4ZeroPointG64, 6) => spec_tuned(6, 16, 8, 1, 2),
        (QmvFormat::W4ZeroPointG64, _) => spec_tuned(7, 16, 8, 1, 2),
        (QmvFormat::W8SymmetricG32, 2) => match shape {
            QmvShape::ProjectionOut | QmvShape::Readout => spec_tuned(2, 16, 8, 1, 2),
            _ => spec_main_gemv(1, 4, 32, 4, 8),
        },
        (QmvFormat::W8SymmetricG32, 3) => match shape {
            QmvShape::GateUp | QmvShape::Readout => spec_tuned(3, 16, 8, 1, 2),
            _ => spec_main_gemv(1, 4, 32, 4, 8),
        },
        (QmvFormat::W8SymmetricG32, 4) => match shape {
            QmvShape::Gate => spec_main_gemv(1, 4, 32, 4, 8),
            QmvShape::Readout => spec_tuned(4, 16, 16, 1, 4),
            _ => spec_tuned(4, 16, 8, 1, 2),
        },
        (QmvFormat::W8SymmetricG32, 5) => match shape {
            QmvShape::Down => spec_tuned(5, 16, 8, 1, 2),
            QmvShape::Gate => spec_main_gemm(GemmEngine::Simdgroup, GemmTiling::Tile8x32x32_Simdgroups1x1, 2),
            QmvShape::ProjectionOut => spec_main_gemm(GemmEngine::Simdgroup, GemmTiling::Tile8x32x32_Simdgroups1x1, 3),
            _ => spec_tuned(5, 16, 16, 1, 4),
        },
        (QmvFormat::W8SymmetricG32, 6) => match shape {
            QmvShape::Gate => spec_main_gemm(GemmEngine::Simdgroup, GemmTiling::Tile8x32x32_Simdgroups1x1, 2),
            QmvShape::ProjectionOut => spec_tuned(6, 16, 16, 1, 4),
            _ => spec_tuned(6, 16, 8, 1, 2),
        },
        (QmvFormat::W8SymmetricG32, _) => match shape {
            QmvShape::ProjectionOut => spec_main_gemm(GemmEngine::Simdgroup, GemmTiling::Tile8x32x32_Simdgroups1x1, 3),
            _ => spec_tuned(7, 16, 8, 1, 2),
        },
        (QmvFormat::W8SymmetricG64, 2) => spec_main_gemv(1, 4, 32, 8, 8),
        (QmvFormat::W8SymmetricG64, 3) => match shape {
            QmvShape::Down | QmvShape::ProjectionOut => spec_tuned(3, 16, 8, 1, 2),
            _ => spec_main_gemv(1, 4, 32, 8, 8),
        },
        (QmvFormat::W8SymmetricG64, 4) => match shape {
            QmvShape::GateUp | QmvShape::ProjectionIn => spec_main_gemv(1, 4, 32, 8, 8),
            _ => spec_tuned(4, 16, 8, 1, 2),
        },
        (QmvFormat::W8SymmetricG64, 5) => spec_tuned(5, 16, 8, 1, 2),
        (QmvFormat::W8SymmetricG64, 6) => spec_tuned(6, 16, 8, 1, 2),
        (QmvFormat::W8SymmetricG64, _) => spec_tuned(7, 16, 8, 1, 2),
    }
}

/// The route of two to seven rows on an M3 Max.
pub fn m3_max_route(format: QmvFormat, m: u32, shape: QmvShape) -> (route: QmvRoute)
    ensures
        route == spec_m3_max_route(format, m, shape),
{
    match (format, m) {
        (QmvFormat::W4ZeroPointG32, 2) => match shape {
            QmvShape::Readout => tuned(2, 16, 8, 1, 2),
            _ => main_gemv(1, 4, 32, 2, 8),
        },
        (QmvFormat::W4ZeroPointG32, 3) => match shape {
            QmvShape::Gate => tuned(3, 16, 8, 1, 2),
            QmvShape::ProjectionOut => main_gemv(1, 4, 32, 2, 8),
            _ => tuned(3, 16, 16, 1, 4),
        },
        (QmvFormat::W4ZeroPointG32, 4) => match shape {
            QmvShape::ProjectionOut => main_gemv(1, 4, 32, 2, 8),
            QmvShape::Gate | QmvShape::ProjectionIn => tuned(4, 16, 16, 1, 4),
            _ => tuned(4, 16, 8, 1, 2),
        },
        (QmvFormat::W4ZeroPointG32, 5) => match shape {
            QmvShape::ProjectionIn => tuned(5, 16, 16, 1, 4),
            _ => tuned(5, 16, 8, 1, 2),
        },
        (QmvFormat::W4ZeroPointG32, 6) => match shape {
            QmvShape::ProjectionIn => tuned(6, 16, 16, 1, 4),
            _ => tuned(6, 16, 8, 1, 2),
        },
        (QmvFormat::W4ZeroPointG32, _) => tuned(7, 16, 8, 1, 2),
        (QmvFormat::W4ZeroPointG64, 2) => match shape {
            QmvShape::Down | QmvShape::Gate | QmvShape::ProjectionOut => tuned(2, 16, 8, 1, 2),
            _ => main_gemv(1, 4, 32, 4, 8),
        },
        (QmvFormat::W4ZeroPointG64, 3) => match shape {
            QmvShape::Down | QmvShape::Gate | QmvShape::ProjectionOut => tuned(3, 16, 8, 1, 2),
            _ => tuned(3, 16, 16, 1, 4),
        },
        (QmvFormat::W4ZeroPointG64, 4) => match shape {
            QmvShape::GateUp | QmvShape::ProjectionIn => tuned(4, 16, 16, 1, 4),
            _ => tuned(4, 16, 8, 1, 2),
        },
        (QmvFormat::W4ZeroPointG64, 5) => match shape {
            QmvShape::GateUp => tuned(5, 16, 16, 1, 4),
            _ => tuned(5, 16, 8, 1, 2),
        },
        (QmvFormat::W4ZeroPointG64, 6) => tuned(6, 16, 8, 1, 2),
        (QmvFormat::W4ZeroPointG64, _) => tuned(7, 16, 8, 1, 2),
        (QmvFormat::W8SymmetricG32, 2) => match shape {
            QmvShape::ProjectionOut | QmvShape::Readout => tuned(2, 16, 8, 1, 2),
            _ => main_gemv(1, 4, 32, 4, 8),
        },
        (QmvFormat::W8SymmetricG32, 3) => match shape {
            QmvShape::GateUp | QmvShape::Readout => tuned(3, 16, 8, 1, 2),
            _ => main_gemv(1, 4, 32, 4, 8),
        },
        (QmvFormat::W8SymmetricG32, 4) => match shape {
            QmvShape::Gate => main_gemv(1, 4, 32, 4, 8),
            QmvShape::Readout => tuned(4, 16, 16, 1, 4),
            _ => tuned(4, 16, 8, 1, 2),
        },
        (QmvFormat::W8SymmetricG32, 5) => match shape {
            QmvShape::Down => tuned(5, 16, 8, 1, 2),
            QmvShape::Gate => main_gemm(GemmEngine::Simdgroup, GemmTiling::Tile8x32x32_Simdgroups1x1, 2),
            QmvShape::ProjectionOut => main_gemm(GemmEngine::Simdgroup, GemmTiling::Tile8x32x32_Simdgroups1x1, 3),
            _ => tuned(5, 16, 16, 1, 4),
        },
        (QmvFormat::W8SymmetricG32, 6) => match shape {
            QmvShape::Gate => main_gemm(GemmEngine::Simdgroup, GemmTiling::Tile8x32x32_Simdgroups1x1, 2),
            QmvShape::ProjectionOut => tuned(6, 16, 16, 1, 4),
            _ => tuned(6, 16, 8, 1, 2),
        },
        (QmvFormat::W8SymmetricG32, _) => match shape {
            QmvShape::ProjectionOut => main_gemm(GemmEngine::Simdgroup, GemmTiling::Tile8x32x32_Simdgroups1x1, 3),
            _ => tuned(7, 16, 8, 1, 2),
        },
        (QmvFormat::W8SymmetricG64, 2) => main_gemv(1, 4, 32, 8, 8),
        (QmvFormat::W8SymmetricG64, 3) => match shape {
            QmvShape::Down | QmvShape::ProjectionOut => tuned(3, 16, 8, 1, 2),
            _ => main_gemv(1, 4, 32, 8, 8),
        },
        (QmvFormat::W8SymmetricG64, 4) => match shape {
            QmvShape::GateUp | QmvShape::ProjectionIn => main_gemv(1, 4, 32, 8, 8),
            _ => tuned(4, 16, 8, 1, 2),
        },
        (QmvFormat::W8SymmetricG64, 5) => tuned(5, 16, 8, 1, 2),
        (QmvFormat::W8SymmetricG64, 6) => tuned(6, 16, 8, 1, 2),
        (QmvFormat::W8SymmetricG64, _) => tuned(7, 16, 8, 1, 2),
    }
}

/// The route of two to seven rows on an M4.
pub open spec fn spec_m4_route(format: QmvFormat, m: u32, shape: QmvShape) -> QmvRoute {
    match (format, m) {
        (QmvFormat::W4ZeroPointG32, 2) => match shape {
            QmvShape::Readout => spec_tuned(2, 16, 8, 1, 2),
            _ => spec_main_gemv(1, 4, 32, 2, 8),
        },
        (QmvFormat::W4ZeroPointG32, 3) => match shape {
            QmvShape::Gate => spec_tuned(3, 16, 8, 1, 2),
            QmvShape::ProjectionOut => spec_main_gemv(1, 4, 32, 2, 8),
            _ => spec_tuned(3, 16, 16, 1, 4),
        },
        (QmvFormat::W4ZeroPointG32, 4) => match shape {
            QmvShape::ProjectionOut => spec_main_gemv(1, 4, 32, 2, 8),
            QmvShape::Gate | QmvShape::ProjectionIn => spec_tuned(4, 16, 16, 1, 4),
            _ => spec_tuned(4, 16, 8, 1, 2),
        },
        (QmvFormat::W4ZeroPointG32, 5) => match shape {
            QmvShape::ProjectionIn => spec_tuned(5, 16, 16, 1, 4),
            _ => spec_tuned(5, 16, 8, 1, 2),
        },
        (QmvFormat::W4ZeroPointG32, 6) => match shape {
            QmvShape::ProjectionIn => spec_tuned(6, 16, 16, 1, 4),
            _ => spec_tuned(6, 16, 8, 1, 2),
        },
        (QmvFormat::W4ZeroPointG32, _) => spec_tuned(7, 16, 8, 1, 2),
        (QmvFormat::W4ZeroPointG64, 2) => spec_main_gemv(1, 4, 32, 4, 8),
        (QmvFormat::W4ZeroPointG64, 3) => match shape {
            QmvShape::Down => spec_tuned(3, 16, 8, 1, 2),
            _ => spec_tuned(3, 16, 16, 1, 4),
        },
        (QmvFormat::W4ZeroPointG64, 4) => match shape {
            QmvShape::Down | QmvShape::Readout => spec_tuned(4, 16, 8, 1, 2),
            _ => spec_tuned(4, 16, 16, 1, 4),
        },
        (QmvFormat::W4ZeroPointG64, 5) => match shape {
            QmvShape::Gate | QmvShape::ProjectionOut | QmvShape::Qkv => spec_tuned(5, 16, 16, 1, 4),
            _ => spec_tuned(5, 16, 8, 1, 2),
        },
        (QmvFormat::W4ZeroPointG64, 6) => spec_tuned(6, 16, 8, 1, 2),
        (QmvFormat::W4ZeroPointG64, _) => spec_tuned(7, 16, 8, 1, 2),
        (QmvFormat::W8SymmetricG32, 2) => match shape {
            QmvShape::ProjectionOut | QmvShape::Readout => spec_tuned(2, 16, 8, 1, 2),
            _ => spec_main_gemv(1, 4, 32, 4, 8),
        },
        (QmvFormat::W8SymmetricG32, 3) => match shape {
            QmvShape::GateUp | QmvShape::Readout => spec_tuned(3, 16, 8, 1, 2),
            _ => spec_main_gemv(1, 4, 32, 4, 8),
        },
        (QmvFormat::W8SymmetricG32, 4) => match shape {
            QmvShape::Gate => spec_main_gemv(1, 4, 32, 4, 8),
            QmvShape::Readout => spec_tuned(4, 16, 16, 1, 4),
            _ => spec_tuned(4, 16, 8, 1, 2),
        },
        (QmvFormat::W8SymmetricG32, 5) => match shape {
            QmvShape::Down => spec_tuned(5, 16, 8, 1, 2),
            QmvShape::Gate => spec_main_gemm(GemmEngine::Simdgroup, GemmTiling::Tile8x32x32_Simdgroups1x1, 2),
            QmvShape::ProjectionOut => spec_main_gemm(GemmEngine::Simdgroup, GemmTiling::Tile8x32x32_Simdgroups1x1, 3),
            _ => spec_tuned(5, 16, 16, 1, 4),
        },
        (QmvFormat::W8SymmetricG32, 6) => match shape {
            QmvShape::Gate => spec_main_gemm(GemmEngine::Simdgroup, GemmTiling::Tile8x32x32_Simdgroups1x1, 2),
            QmvShape::ProjectionOut => spec_tuned(6, 16, 16, 1, 4),
            _ => spec_tuned(6, 16, 8, 1, 2),
        },
        (QmvFormat::W8SymmetricG32, _) => match shape {
            QmvShape::ProjectionOut => spec_main_gemm(GemmEngine::Simdgroup, GemmTiling::Tile8x32x32_Simdgroups1x1, 3),
            _ => spec_tuned(7, 16, 8, 1, 2),
        },
        (QmvFormat::W8SymmetricG64, 2) => spec_main_gemv(1, 4, 32, 8, 8),
        (QmvFormat::W8SymmetricG64, 3) => spec_main_gemv(1, 4, 32, 8, 8),
        (QmvFormat::W8SymmetricG64, 4) => spec_main_gemv(1, 4, 32, 8, 8),
        (QmvFormat::W8SymmetricG64, 5) => spec_tuned(5, 16, 8, 1, 2),
        (QmvFormat::W8SymmetricG64, 6) => spec_tuned(6, 16, 8, 1, 2),
        (QmvFormat::W8SymmetricG64, _) => spec_tuned(7, 16, 8, 1, 2),
    }
}

/// The route of two to seven rows on an M4.
pub fn m4_route(format: QmvFormat, m: u32, shape: QmvShape) -> (route: QmvRoute)
    ensures
        route == spec_m4_route(format, m, shape),
{
    match (format, m) {
        (QmvFormat::W4ZeroPointG32, 2) => match shape {
            QmvShape::Readout => tuned(2, 16, 8, 1, 2),
            _ => main_gemv(1, 4, 32, 2, 8),
        },
        (QmvFormat::W4ZeroPointG32, 3) => match shape {
            QmvShape::Gate => tuned(3, 16, 8, 1, 2),
            QmvShape::ProjectionOut => main_gemv(1, 4, 32, 2, 8),
            _ => tuned(3, 16, 16, 1, 4),
        },
        (QmvFormat::W4ZeroPointG32, 4) => match shape {
            QmvShape::ProjectionOut => main_gemv(1, 4, 32, 2, 8),
            QmvShape::Gate | QmvShape::ProjectionIn => tuned(4, 16, 16, 1, 4),
            _ => tuned(4, 16, 8, 1, 2),
        },
        (QmvFormat::W4ZeroPointG32, 5) => match shape {
            QmvShape::ProjectionIn => tuned(5, 16, 16, 1, 4),
            _ => tuned(5, 16, 8, 1, 2),
        },
        (QmvFormat::W4ZeroPointG32, 6) => match shape {
            QmvShape::ProjectionIn => tuned(6, 16, 16, 1, 4),
            _ => tuned(6, 16, 8, 1, 2),
        },
        (QmvFormat::W4ZeroPointG32, _) => tuned(7, 16, 8, 1, 2),
        (QmvFormat::W4ZeroPointG64, 2) => main_gemv(1, 4, 32, 4, 8),
        (QmvFormat::W4ZeroPointG64, 3) => match shape {
            QmvShape::Down => tuned(3, 16, 8, 1, 2),
            _ => tuned(3, 16, 16, 1, 4),
        },
        (QmvFormat::W4ZeroPointG64, 4) => match shape {
            QmvShape::Down | QmvShape::Readout => tuned(4, 16, 8, 1, 2),
            _ => tuned(4, 16, 16, 1, 4),
        },
        (QmvFormat::W4ZeroPointG64, 5) => match shape {
            QmvShape::Gate | QmvShape::ProjectionOut | QmvShape::Qkv => tuned(5, 16, 16, 1, 4),
            _ => tuned(5, 16, 8, 1, 2),
        },
        (QmvFormat::W4ZeroPointG64, 6) => tuned(6, 16, 8, 1, 2),
        (QmvFormat::W4ZeroPointG64, _) => tuned(7, 16, 8, 1, 2),
        (QmvFormat::W8SymmetricG32, 2) => match shape {
            QmvShape::ProjectionOut | QmvShape::Readout => tuned(2, 16, 8, 1, 2),
            _ => main_gemv(1, 4, 32, 4, 8),
        },
        (QmvFormat::W8SymmetricG32, 3) => match shape {
            QmvShape::GateUp | QmvShape::Readout => tuned(3, 16, 8, 1, 2),
            _ => main_gemv(1, 4, 32, 4, 8),
        },
        (QmvFormat::W8SymmetricG32, 4) => match shape {
            QmvShape::Gate => main_gemv(1, 4, 32, 4, 8),
            QmvShape::Readout => tuned(4, 16, 16, 1, 4),
            _ => tuned(4, 16, 8, 1, 2),
        },
        (QmvFormat::W8SymmetricG32, 5) => match shape {
            QmvShape::Down => tuned(5, 16, 8, 1, 2),
            QmvShape::Gate => main_gemm(GemmEngine::Simdgroup, GemmTiling::Tile8x32x32_Simdgroups1x1, 2),
            QmvShape::ProjectionOut => main_gemm(GemmEngine::Simdgroup, GemmTiling::Tile8x32x32_Simdgroups1x1, 3),
            _ => tuned(5, 16, 16, 1, 4),
        },
        (QmvFormat::W8SymmetricG32, 6) => match shape {
            QmvShape::Gate => main_gemm(GemmEngine::Simdgroup, GemmTiling::Tile8x32x32_Simdgroups1x1, 2),
            QmvShape::ProjectionOut => tuned(6, 16, 16, 1, 4),
            _ => tuned(6, 16, 8, 1, 2),
        },
        (QmvFormat::W8SymmetricG32, _) => match shape {
            QmvShape::ProjectionOut => main_gemm(GemmEngine::Simdgroup, GemmTiling::Tile8x32x32_Simdgroups1x1, 3),
            _ => tuned(7, 16, 8, 1, 2),
        },
        (QmvFormat::W8SymmetricG64, 2) => main_gemv(1, 4, 32, 8, 8),
        (QmvFormat::W8SymmetricG64, 3) => main_gemv(1, 4, 32, 8, 8),
        (QmvFormat::W8SymmetricG64, 4) => main_gemv(1, 4, 32, 8, 8),
        (QmvFormat::W8SymmetricG64, 5) => tuned(5, 16, 8, 1, 2),
        (QmvFormat::W8SymmetricG64, 6) => tuned(6, 16, 8, 1, 2),
        (QmvFormat::W8SymmetricG64, _) => tuned(7, 16, 8, 1, 2),
    }
}

/// The route of two to seven rows on an M4 Pro.
pub open spec fn spec_m4_pro_route(format: QmvFormat, m: u32, shape: QmvShape) -> QmvRoute {
    match (format, m) {
        (QmvFormat::W4ZeroPointG32, 2) => match shape {
            QmvShape::Readout => spec_tuned(2, 16, 8, 1, 2),
            _ => spec_main_gemv(1, 4, 32, 2, 8),
        },
        (QmvFormat::W4ZeroPointG32, 3) => match shape {
            QmvShape::Gate => spec_tuned(3, 16, 8, 1, 2),
            QmvShape::ProjectionOut => spec_main_gemv(1, 4, 32, 2, 8),
            _ => spec_tuned(3, 16, 16, 1, 4),
        },
        (QmvFormat::W4ZeroPointG32, 4) => match shape {
            QmvShape::ProjectionOut => spec_main_gemv(1, 4, 32, 2, 8),
            QmvShape::Gate | QmvShape::ProjectionIn => spec_tuned(4, 16, 16, 1, 4),
            _ => spec_tuned(4, 16, 8, 1, 2),
        },
        (QmvFormat::W4ZeroPointG32, 5) => match shape {
            QmvShape::ProjectionIn => spec_tuned(5, 16, 16, 1, 4),
            _ => spec_tuned(5, 16, 8, 1, 2),
        },
        (QmvFormat::W4ZeroPointG32, 6) => match shape {
            QmvShape::ProjectionIn => spec_tuned(6, 16, 16, 1, 4),
            _ => spec_tuned(6, 16, 8, 1, 2),
        },
        (QmvFormat::W4ZeroPointG32, _) => spec_tuned(7, 16, 8, 1, 2),
        (QmvFormat::W4ZeroPointG64, 2) => spec_main_gemv(1, 4, 32, 4, 8),
        (QmvFormat::W4ZeroPointG64, 3) => spec_tuned(3, 16, 16, 1, 4),
        (QmvFormat::W4ZeroPointG64, 4) => match shape {
            QmvShape::ProjectionIn | QmvShape::Qkv => spec_tuned(4, 16, 16, 1, 4),
            _ => spec_tuned(4, 16, 8, 1, 2),
        },
        (QmvFormat::W4ZeroPointG64, 5) => match shape {
            QmvShape::ProjectionIn | QmvShape::Qkv => spec_tuned(5, 16, 16, 1, 4),
            _ => spec_tuned(5, 16, 8, 1, 2),
        },
        (QmvFormat::W4ZeroPointG64, 6) => spec_tuned(6, 16, 8, 1, 2),
        (QmvFormat::W4ZeroPointG64, _) => spec_tuned(7, 16, 8, 1, 2),
        (QmvFormat::W8SymmetricG32, 2) => match shape {
            QmvShape::ProjectionOut | QmvShape::Readout => spec_tuned(2, 16, 8, 1, 2),
            _ => spec_main_gemv(1, 4, 32, 4, 8),
        },
        (QmvFormat::W8SymmetricG32, 3) => match shape {
            QmvShape::GateUp | QmvShape::Readout => spec_tuned(3, 16, 8, 1, 2),
            _ => spec_main_gemv(1, 4, 32, 4, 8),
        },
        (QmvFormat::W8SymmetricG32, 4) => match shape {
            QmvShape::Gate => spec_main_gemv(1, 4, 32, 4, 8),
            QmvShape::Readout => spec_tuned(4, 16, 16, 1, 4),
            _ => spec_tuned(4, 16, 8, 1, 2),
        },
        (QmvFormat::W8SymmetricG32, 5) => match shape {
            QmvShape::Down => spec_tuned(5, 16, 8, 1, 2),
            QmvShape::Gate => spec_main_gemm(GemmEngine::Simdgroup, GemmTiling::Tile8x32x32_Simdgroups1x1, 2),
            QmvShape::ProjectionOut => spec_main_gemm(GemmEngine::Simdgroup, GemmTiling::Tile8x32x32_Simdgroups1x1, 3),
            _ => spec_tuned(5, 16, 16, 1, 4),
        },
        (QmvFormat::W8SymmetricG32, 6) => match shape {
            QmvShape::Gate => spec_main_gemm(GemmEngine::Simdgroup, GemmTiling::Tile8x32x32_Simdgroups1x1, 2),
            QmvShape::ProjectionOut => spec_tuned(6, 16, 16, 1, 4),
            _ => spec_tuned(6, 16, 8, 1, 2),
        },
        (QmvFormat::W8SymmetricG32, _) => match shape {
            QmvShape::ProjectionOut => spec_main_gemm(GemmEngine::Simdgroup, GemmTiling::Tile8x32x32_Simdgroups1x1, 3),
            _ => spec_tuned(7, 16, 8, 1, 2),
        },
        (QmvFormat::W8SymmetricG64, 2) => match shape {
            QmvShape::Readout => spec_tuned(2, 16, 8, 1, 2),
            _ => spec_main_gemv(1, 4, 32, 8, 8),
        },
        (QmvFormat::W8SymmetricG64, 3) => spec_main_gemv(1, 4, 32, 8, 8),
        (QmvFormat::W8SymmetricG64, 4) => spec_tuned(4, 16, 8, 1, 2),
        (QmvFormat::W8SymmetricG64, 5) => spec_tuned(5, 16, 8, 1, 2),
        (QmvFormat::W8SymmetricG64, 6) => spec_tuned(6, 16, 8, 1, 2),
        (QmvFormat::W8SymmetricG64, _) => spec_tuned(7, 16, 8, 1, 2),
    }
}

/// The route of two to seven rows on an M4 Pro.
pub fn m4_pro_route(format: QmvFormat, m: u32, shape: QmvShape) -> (route: QmvRoute)
    ensures
        route == spec_m4_pro_route(format, m, shape),
{
    match (format, m) {
        (QmvFormat::W4ZeroPointG32, 2) => match shape {
            QmvShape::Readout => tuned(2, 16, 8, 1, 2),
            _ => main_gemv(1, 4, 32, 2, 8),
        },
        (QmvFormat::W4ZeroPointG32, 3) => match shape {
            QmvShape::Gate => tuned(3, 16, 8, 1, 2),
            QmvShape::ProjectionOut => main_gemv(1, 4, 32, 2, 8),
            _ => tuned(3, 16, 16, 1, 4),
        },
        (QmvFormat::W4ZeroPointG32, 4) => match shape {
            QmvShape::ProjectionOut => main_gemv(1, 4, 32, 2, 8),
            QmvShape::Gate | QmvShape::ProjectionIn => tuned(4, 16, 16, 1, 4),
            _ => tuned(4, 16, 8, 1, 2),
        },
        (QmvFormat::W4ZeroPointG32, 5) => match shape {
            QmvShape::ProjectionIn => tuned(5, 16, 16, 1, 4),
            _ => tuned(5, 16, 8, 1, 2),
        },
        (QmvFormat::W4ZeroPointG32, 6) => match shape {
            QmvShape::ProjectionIn => tuned(6, 16, 16, 1, 4),
            _ => tuned(6, 16, 8, 1, 2),
        },
        (QmvFormat::W4ZeroPointG32, _) => tuned(7, 16, 8, 1, 2),
        (QmvFormat::W4ZeroPointG64, 2) => main_gemv(1, 4, 32, 4, 8),
        (QmvFormat::W4ZeroPointG64, 3) => tuned(3, 16, 16, 1, 4),
        (QmvFormat::W4ZeroPointG64, 4) => match shape {
            QmvShape::ProjectionIn | QmvShape::Qkv => tuned(4, 16, 16, 1, 4),
            _ => tuned(4, 16, 8, 1, 2),
        },
        (QmvFormat::W4ZeroPointG64, 5) => match shape {
            QmvShape::ProjectionIn | QmvShape::Qkv => tuned(5, 16, 16, 1, 4),
            _ => tuned(5, 16, 8, 1, 2),
        },
        (QmvFormat::W4ZeroPointG64, 6) => tuned(6, 16, 8, 1, 2),
        (QmvFormat::W4ZeroPointG64, _) => tuned(7, 16, 8, 1, 2),
        (QmvFormat::W8SymmetricG32, 2) => match shape {
            QmvShape::ProjectionOut | QmvShape::Readout => tuned(2, 16, 8, 1, 2),
            _ => main_gemv(1, 4, 32, 4, 8),
        },
        (QmvFormat::W8SymmetricG32, 3) => match shape {
            QmvShape::GateUp | QmvShape::Readout => tuned(3, 16, 8, 1, 2),
            _ => main_gemv(1, 4, 32, 4, 8),
        },
        (QmvFormat::W8SymmetricG32, 4) => match shape {
            QmvShape::Gate => main_gemv(1, 4, 32, 4, 8),
            QmvShape::Readout => tuned(4, 16, 16, 1, 4),
            _ => tuned(4, 16, 8, 1, 2),
        },
        (QmvFormat::W8SymmetricG32, 5) => match shape {
            QmvShape::Down => tuned(5, 16, 8, 1, 2),
            QmvShape::Gate => main_gemm(GemmEngine::Simdgroup, GemmTiling::Tile8x32x32_Simdgroups1x1, 2),
            QmvShape::ProjectionOut => main_gemm(GemmEngine::Simdgroup, GemmTiling::Tile8x32x32_Simdgroups1x1, 3),
            _ => tuned(5, 16, 16, 1, 4),
        },
        (QmvFormat::W8SymmetricG32, 6) => match shape {
            QmvShape::Gate => main_gemm(GemmEngine::Simdgroup, GemmTiling::Tile8x32x32_Simdgroups1x1, 2),
            QmvShape::ProjectionOut => tuned(6, 16, 16, 1, 4),
            _ => tuned(6, 16, 8, 1, 2),
        },
        (QmvFormat::W8SymmetricG32, _) => match shape {
            QmvShape::ProjectionOut => main_gemm(GemmEngine::Simdgroup, GemmTiling::Tile8x32x32_Simdgroups1x1, 3),
            _ => tuned(7, 16, 8, 1, 2),
        },
        (QmvFormat::W8SymmetricG64, 2) => match shape {
            QmvShape::Readout => tuned(2, 16, 8, 1, 2),
            _ => main_gemv(1, 4, 32, 8, 8),
        },
        (QmvFormat::W8SymmetricG64, 3) => main_gemv(1, 4, 32, 8, 8),
        (QmvFormat::W8SymmetricG64, 4) => tuned(4, 16, 8, 1, 2),
        (QmvFormat::W8SymmetricG64, 5) => tuned(5, 16, 8, 1, 2),
        (QmvFormat::W8SymmetricG64, 6) => tuned(6, 16, 8, 1, 2),
        (QmvFormat::W8SymmetricG64, _) => tuned(7, 16, 8, 1, 2),
    }
}

/// The route of two to seven rows on an M5 Max.
pub open spec fn spec_m5_max_route(format: QmvFormat, m: u32, shape: QmvShape) -> QmvRoute {
    match (format, m) {
        (QmvFormat::W4ZeroPointG32, 2) => match shape {
            QmvShape::GateUp | QmvShape::Readout => spec_tuned(2, 16, 16, 1, 4),
            _ => spec_tuned(2, 16, 8, 1, 2),
        },
        (QmvFormat::W4ZeroPointG32, 3) => spec_tuned(3, 16, 8, 1, 2),
        (QmvFormat::W4ZeroPointG32, 4) => spec_tuned(4, 16, 8, 1, 2),
        (QmvFormat::W4ZeroPointG32, 5) => spec_tuned(5, 16, 8, 1, 2),
        (QmvFormat::W4ZeroPointG32, 6) => match shape {
            QmvShape::Down => spec_main_gemm(GemmEngine::Mxu, GemmTiling::Tile32x64x256_Simdgroups2x2, 4),
            QmvShape::Gate => spec_main_gemm(GemmEngine::Mxu, GemmTiling::Tile32x64x256_Simdgroups2x2, 5),
            _ => spec_tuned(6, 16, 16, 1, 4),
        },
        (QmvFormat::W4ZeroPointG32, _) => match shape {
            QmvShape::Gate => spec_main_gemm(GemmEngine::Mxu, GemmTiling::Tile32x64x256_Simdgroups2x2, 5),
            QmvShape::ProjectionOut => spec_main_gemm(GemmEngine::Mxu, GemmTiling::Tile32x64x256_Simdgroups2x2, 6),
            QmvShape::Down | QmvShape::Qkv => spec_main_gemm(GemmEngine::Mxu, GemmTiling::Tile32x64x256_Simdgroups2x2, 4),
            _ => spec_main_gemm(GemmEngine::Mxu, GemmTiling::Tile32x64x256_Simdgroups2x2, 1),
        },
        (QmvFormat::W4ZeroPointG64, 2) => spec_tuned(2, 16, 8, 1, 2),
        (QmvFormat::W4ZeroPointG64, 3) => spec_tuned(3, 16, 8, 1, 2),
        (QmvFormat::W4ZeroPointG64, 4) => spec_tuned(4, 16, 8, 1, 2),
        (QmvFormat::W4ZeroPointG64, 5) => spec_tuned(5, 16, 8, 1, 2),
        (QmvFormat::W4ZeroPointG64, 6) => match shape {
            QmvShape::Gate => spec_main_gemm(GemmEngine::Mxu, GemmTiling::Tile32x64x256_Simdgroups2x2, 5),
            QmvShape::ProjectionOut => spec_main_gemm(GemmEngine::Mxu, GemmTiling::Tile32x64x256_Simdgroups2x2, 6),
            QmvShape::Down | QmvShape::Qkv => spec_main_gemm(GemmEngine::Mxu, GemmTiling::Tile32x64x256_Simdgroups2x2, 4),
            _ => spec_main_gemm(GemmEngine::Mxu, GemmTiling::Tile32x64x256_Simdgroups2x2, 1),
        },
        (QmvFormat::W4ZeroPointG64, _) => match shape {
            QmvShape::Gate => spec_main_gemm(GemmEngine::Mxu, GemmTiling::Tile32x64x256_Simdgroups2x2, 5),
            QmvShape::ProjectionOut => spec_main_gemm(GemmEngine::Mxu, GemmTiling::Tile32x64x256_Simdgroups2x2, 6),
            QmvShape::Down | QmvShape::Qkv => spec_main_gemm(GemmEngine::Mxu, GemmTiling::Tile32x64x256_Simdgroups2x2, 4),
            _ => spec_main_gemm(GemmEngine::Mxu, GemmTiling::Tile32x64x256_Simdgroups2x2, 1),
        },
        (QmvFormat::W8SymmetricG32, 2) => match shape {
            QmvShape::GateUp | QmvShape::ProjectionIn => spec_main_gemv(1, 4, 32, 4, 8),
            _ => spec_tuned(2, 16, 8, 1, 2),
        },
        (QmvFormat::W8SymmetricG32, 3) => spec_tuned(3, 16, 8, 1, 2),
        (QmvFormat::W8SymmetricG32, 4) => match shape {
            QmvShape::ProjectionIn => spec_tuned(2, 16, 8, 1, 2),
            _ => spec_tuned(4, 16, 8, 1, 2),
        },
        (QmvFormat::W8SymmetricG32, 5) => spec_tuned(5, 16, 8, 1, 2),
        (QmvFormat::W8SymmetricG32, 6) => spec_tuned(6, 16, 16, 1, 4),
        (QmvFormat::W8SymmetricG32, _) => match shape {
            QmvShape::Gate => spec_main_gemm(GemmEngine::Mxu, GemmTiling::Tile32x64x256_Simdgroups2x2, 5),
            QmvShape::ProjectionOut => spec_main_gemm(GemmEngine::Mxu, GemmTiling::Tile32x64x256_Simdgroups2x2, 6),
            QmvShape::Down | QmvShape::Qkv => spec_main_gemm(GemmEngine::Mxu, GemmTiling::Tile32x64x256_Simdgroups2x2, 4),
            _ => spec_main_gemm(GemmEngine::Mxu, GemmTiling::Tile32x64x256_Simdgroups2x2, 1),
        },
        (QmvFormat::W8SymmetricG64, 2) => match shape {
            QmvShape::Gate | QmvShape::GateUp | QmvShape::ProjectionIn => spec_main_gemv(1, 4, 32, 8, 8),
            _ => spec_tuned(2, 16, 8, 1, 2),
        },
        (QmvFormat::W8SymmetricG64, 3) => spec_tuned(3, 16, 8, 1, 2),
        (QmvFormat::W8SymmetricG64, 4) => match shape {
            QmvShape::Gate | QmvShape::ProjectionIn => spec_tuned(2, 16, 8, 1, 2),
            _ => spec_tuned(4, 16, 8, 1, 2),
        },
        (QmvFormat::W8SymmetricG64, 5) => spec_tuned(5, 16, 8, 1, 2),
        (QmvFormat::W8SymmetricG64, 6) => match shape {
            QmvShape::Gate => spec_main_gemm(GemmEngine::Mxu, GemmTiling::Tile32x64x256_Simdgroups2x2, 5),
            QmvShape::ProjectionOut => spec_main_gemm(GemmEngine::Mxu, GemmTiling::Tile32x64x256_Simdgroups2x2, 6),
            QmvShape::Down | QmvShape::Qkv => spec_main_gemm(GemmEngine::Mxu, GemmTiling::Tile32x64x256_Simdgroups2x2, 4),
            _ => spec_tuned(6, 16, 8, 1, 2),
        },
        (QmvFormat::W8SymmetricG64, _) => match shape {
            QmvShape::Gate => spec_main_gemm(GemmEngine::Mxu, GemmTiling::Tile32x64x256_Simdgroups2x2, 5),
            QmvShape::ProjectionOut => spec_main_gemm(GemmEngine::Mxu, GemmTiling::Tile32x64x256_Simdgroups2x2, 6),
            QmvShape::Down | QmvShape::Qkv => spec_main_gemm(GemmEngine::Mxu, GemmTiling::Tile32x64x256_Simdgroups2x2, 4),
            _ => spec_main_gemm(GemmEngine::Mxu, GemmTiling::Tile32x64x256_Simdgroups2x2, 1),
        },
    }
}

/// The route of two to seven rows on an M5 Max.
pub fn m5_max_route(format: QmvFormat, m: u32, shape: QmvShape) -> (route: QmvRoute)
    ensures
        route == spec_m5_max_route(format, m, shape),
{
    match (format, m) {
        (QmvFormat::W4ZeroPointG32, 2) => match shape {
            QmvShape::GateUp | QmvShape::Readout => tuned(2, 16, 16, 1, 4),
            _ => tuned(2, 16, 8, 1, 2),
        },
        (QmvFormat::W4ZeroPointG32, 3) => tuned(3, 16, 8, 1, 2),
        (QmvFormat::W4ZeroPointG32, 4) => tuned(4, 16, 8, 1, 2),
        (QmvFormat::W4ZeroPointG32, 5) => tuned(5, 16, 8, 1, 2),
        (QmvFormat::W4ZeroPointG32, 6) => match shape {
            QmvShape::Down => main_gemm(GemmEngine::Mxu, GemmTiling::Tile32x64x256_Simdgroups2x2, 4),
            QmvShape::Gate => main_gemm(GemmEngine::Mxu, GemmTiling::Tile32x64x256_Simdgroups2x2, 5),
            _ => tuned(6, 16, 16, 1, 4),
        },
        (QmvFormat::W4ZeroPointG32, _) => match shape {
            QmvShape::Gate => main_gemm(GemmEngine::Mxu, GemmTiling::Tile32x64x256_Simdgroups2x2, 5),
            QmvShape::ProjectionOut => main_gemm(GemmEngine::Mxu, GemmTiling::Tile32x64x256_Simdgroups2x2, 6),
            QmvShape::Down | QmvShape::Qkv => main_gemm(GemmEngine::Mxu, GemmTiling::Tile32x64x256_Simdgroups2x2, 4),
            _ => main_gemm(GemmEngine::Mxu, GemmTiling::Tile32x64x256_Simdgroups2x2, 1),
        },
        (QmvFormat::W4ZeroPointG64, 2) => tuned(2, 16, 8, 1, 2),
        (QmvFormat::W4ZeroPointG64, 3) => tuned(3, 16, 8, 1, 2),
        (QmvFormat::W4ZeroPointG64, 4) => tuned(4, 16, 8, 1, 2),
        (QmvFormat::W4ZeroPointG64, 5) => tuned(5, 16, 8, 1, 2),
        (QmvFormat::W4ZeroPointG64, 6) => match shape {
            QmvShape::Gate => main_gemm(GemmEngine::Mxu, GemmTiling::Tile32x64x256_Simdgroups2x2, 5),
            QmvShape::ProjectionOut => main_gemm(GemmEngine::Mxu, GemmTiling::Tile32x64x256_Simdgroups2x2, 6),
            QmvShape::Down | QmvShape::Qkv => main_gemm(GemmEngine::Mxu, GemmTiling::Tile32x64x256_Simdgroups2x2, 4),
            _ => main_gemm(GemmEngine::Mxu, GemmTiling::Tile32x64x256_Simdgroups2x2, 1),
        },
        (QmvFormat::W4ZeroPointG64, _) => match shape {
            QmvShape::Gate => main_gemm(GemmEngine::Mxu, GemmTiling::Tile32x64x256_Simdgroups2x2, 5),
            QmvShape::ProjectionOut => main_gemm(GemmEngine::Mxu, GemmTiling::Tile32x64x256_Simdgroups2x2, 6),
            QmvShape::Down | QmvShape::Qkv => main_gemm(GemmEngine::Mxu, GemmTiling::Tile32x64x256_Simdgroups2x2, 4),
            _ => main_gemm(GemmEngine::Mxu, GemmTiling::Tile32x64x256_Simdgroups2x2, 1),
        },
        (QmvFormat::W8SymmetricG32, 2) => match shape {
            QmvShape::GateUp | QmvShape::ProjectionIn => main_gemv(1, 4, 32, 4, 8),
            _ => tuned(2, 16, 8, 1, 2),
        },
        (QmvFormat::W8SymmetricG32, 3) => tuned(3, 16, 8, 1, 2),
        (QmvFormat::W8SymmetricG32, 4) => match shape {
            QmvShape::ProjectionIn => tuned(2, 16, 8, 1, 2),
            _ => tuned(4, 16, 8, 1, 2),
        },
        (QmvFormat::W8SymmetricG32, 5) => tuned(5, 16, 8, 1, 2),
        (QmvFormat::W8SymmetricG32, 6) => tuned(6, 16, 16, 1, 4),
        (QmvFormat::W8SymmetricG32, _) => match shape {
            QmvShape::Gate => main_gemm(GemmEngine::Mxu, GemmTiling::Tile32x64x256_Simdgroups2x2, 5),
            QmvShape::ProjectionOut => main_gemm(GemmEngine::Mxu, GemmTiling::Tile32x64x256_Simdgroups2x2, 6),
            QmvShape::Down | QmvShape::Qkv => main_gemm(GemmEngine::Mxu, GemmTiling::Tile32x64x256_Simdgroups2x2, 4),
            _ => main_gemm(GemmEngine::Mxu, GemmTiling::Tile32x64x256_Simdgroups2x2, 1),
        },
        (QmvFormat::W8SymmetricG64, 2) => match shape {
            QmvShape::Gate | QmvShape::GateUp | QmvShape::ProjectionIn => main_gemv(1, 4, 32, 8, 8),
            _ => tuned(2, 16, 8, 1, 2),
        },
        (QmvFormat::W8SymmetricG64, 3) => tuned(3, 16, 8, 1, 2),
        (QmvFormat::W8SymmetricG64, 4) => match shape {
            QmvShape::Gate | QmvShape::ProjectionIn => tuned(2, 16, 8, 1, 2),
            _ => tuned(4, 16, 8, 1, 2),
        },
        (QmvFormat::W8SymmetricG64, 5) => tuned(5, 16, 8, 1, 2),
        (QmvFormat::W8SymmetricG64, 6) => match shape {
            QmvShape::Gate => main_gemm(GemmEngine::Mxu, GemmTiling::Tile32x64x256_Simdgroups2x2, 5),
            QmvShape::ProjectionOut => main_gemm(GemmEngine::Mxu, GemmTiling::Tile32x64x256_Simdgroups2x2, 6),
            QmvShape::Down | QmvShape::Qkv => main_gemm(GemmEngine::Mxu, GemmTiling::Tile32x64x256_Simdgroups2x2, 4),
            _ => tuned(6, 16, 8, 1, 2),
        },
        (QmvFormat::W8SymmetricG64, _) => match shape {
            QmvShape::Gate => main_gemm(GemmEngine::Mxu, GemmTiling::Tile32x64x256_Simdgroups2x2, 5),
            QmvShape::ProjectionOut => main_gemm(GemmEngine::Mxu, GemmTiling::Tile32x64x256_Simdgroups2x2, 6),
            QmvShape::Down | QmvShape::Qkv => main_gemm(GemmEngine::Mxu, GemmTiling::Tile32x64x256_Simdgroups2x2, 4),
            _ => main_gemm(GemmEngine::Mxu, GemmTiling::Tile32x64x256_Simdgroups2x2, 1),
        },
    }
}

} // verus!
