//! Lookup of measured routes.
use vstd::prelude::*;

use crate::backends::common::gpu_types::gemm::{GemmBPrologueKind, GemmTiling};
use crate::backends::common::matmul::routing::MatmulShape;
use crate::backends::metal::device_profile::{DeviceIdentity, DeviceProfile, GpuFamily};
use crate::backends::metal::matmul::gemm::plan::{GemmEngine, GemmPlan};
use crate::backends::metal::matmul::gemm::selection::GemmProblem;
use crate::backends::metal::matmul::gemv::specialization::GemvSpecialization;
use crate::backends::metal::matmul::gemv::tile::GemvPolicy;
use crate::backends::metal::matmul::qmv::table;
use crate::backends::metal::matmul::qmv::table::{QmvFormat, QmvRoute, QmvShape};
use crate::data_type::DataType;

verus! {

/// The columns of the product of a measured projection.
pub open spec fn columns(shape: QmvShape) -> u32 {
    match shape {
        QmvShape::Down | QmvShape::ProjectionOut => 5120,
        QmvShape::Gate => 6144,
        QmvShape::GateUp => 34816,
        QmvShape::ProjectionIn => 16480,
        QmvShape::Qkv => 8192,
        QmvShape::Readout => 248320,
    }
}

/// The depth of a measured projection.
pub open spec fn depth(shape: QmvShape) -> u32 {
    match shape {
        QmvShape::Down => 17408,
        QmvShape::ProjectionOut => 6144,
        _ => 5120,
    }
}

/// The extents are those of the projection.
pub open spec fn has_extents(shape: QmvShape, n: u32, k: u32) -> bool {
    columns(shape) == n && depth(shape) == k
}

pub open spec fn spec_measured_shape(n: u32, k: u32) -> Option<QmvShape> {
    if has_extents(QmvShape::Down, n, k) {
        Some(QmvShape::Down)
    } else if has_extents(QmvShape::Gate, n, k) {
        Some(QmvShape::Gate)
    } else if has_extents(QmvShape::GateUp, n, k) {
        Some(QmvShape::GateUp)
    } else if has_extents(QmvShape::ProjectionIn, n, k) {
        Some(QmvShape::ProjectionIn)
    } else if has_extents(QmvShape::ProjectionOut, n, k) {
        Some(QmvShape::ProjectionOut)
    } else if has_extents(QmvShape::Qkv, n, k) {
        Some(QmvShape::Qkv)
    } else if has_extents(QmvShape::Readout, n, k) {
        Some(QmvShape::Readout)
    } else {
        None
    }
}

/// The measured projection with the given extents, where there is one.
pub fn measured_shape(n: u32, k: u32) -> (shape: Option<QmvShape>)
    ensures
        shape == spec_measured_shape(n, k),
{
    match (n, k) {
        (5120, 17408) => Some(QmvShape::Down),
        (6144, 5120) => Some(QmvShape::Gate),
        (34816, 5120) => Some(QmvShape::GateUp),
        (16480, 5120) => Some(QmvShape::ProjectionIn),
        (5120, 6144) => Some(QmvShape::ProjectionOut),
        (8192, 5120) => Some(QmvShape::Qkv),
        (248320, 5120) => Some(QmvShape::Readout),
        _ => None,
    }
}

pub open spec fn spec_qmv_format(shape: MatmulShape) -> Option<QmvFormat> {
    if shape.b_prologue is ScaleZeroPointDequant && shape.b_bits == Some(4u32) {
        if shape.b_group_size == Some(32u32) {
            Some(QmvFormat::W4ZeroPointG32)
        } else if shape.b_group_size == Some(64u32) {
            Some(QmvFormat::W4ZeroPointG64)
        } else {
            None
        }
    } else if shape.b_prologue is ScaleSymmetricDequant && shape.b_bits == Some(8u32) {
        if shape.b_group_size == Some(32u32) {
            Some(QmvFormat::W8SymmetricG32)
        } else if shape.b_group_size == Some(64u32) {
            Some(QmvFormat::W8SymmetricG64)
        } else {
            None
        }
    } else {
        None
    }
}

/// The measured format of the weights, where it is one.
pub fn qmv_format(shape: &MatmulShape) -> (format: Option<QmvFormat>)
    ensures
        format == spec_qmv_format(*shape),
{
    match (shape.b_prologue, shape.b_bits, shape.b_group_size) {
        (GemmBPrologueKind::ScaleZeroPointDequant, Some(4), Some(32)) => {
            Some(QmvFormat::W4ZeroPointG32)
        },
        (GemmBPrologueKind::ScaleZeroPointDequant, Some(4), Some(64)) => {
            Some(QmvFormat::W4ZeroPointG64)
        },
        (GemmBPrologueKind::ScaleSymmetricDequant, Some(8), Some(32)) => {
            Some(QmvFormat::W8SymmetricG32)
        },
        (GemmBPrologueKind::ScaleSymmetricDequant, Some(8), Some(64)) => {
            Some(QmvFormat::W8SymmetricG64)
        },
        _ => None,
    }
}

/// The route that was measured on the device itself.
pub open spec fn spec_exact_route(
    identity: DeviceIdentity,
    format: QmvFormat,
    m: u32,
    shape: QmvShape,
) -> Option<QmvRoute> {
    match identity {
        DeviceIdentity::M1 => Some(table::spec_m1_route(format, m, shape)),
        DeviceIdentity::M2 => Some(table::spec_m2_route(format, m, shape)),
        DeviceIdentity::M2Pro => Some(table::spec_m2_pro_route(format, m, shape)),
        DeviceIdentity::M3Max => Some(table::spec_m3_max_route(format, m, shape)),
        DeviceIdentity::M4 => Some(table::spec_m4_route(format, m, shape)),
        DeviceIdentity::M4Pro => Some(table::spec_m4_pro_route(format, m, shape)),
        DeviceIdentity::M5Max => Some(table::spec_m5_max_route(format, m, shape)),
        _ => None,
    }
}

fn exact_route(identity: DeviceIdentity, format: QmvFormat, m: u32, shape: QmvShape) -> (route:
    Option<QmvRoute>)
    ensures
        route == spec_exact_route(identity, format, m, shape),
{
    match identity {
        DeviceIdentity::M1 => Some(table::m1_route(format, m, shape)),
        DeviceIdentity::M2 => Some(table::m2_route(format, m, shape)),
        DeviceIdentity::M2Pro => Some(table::m2_pro_route(format, m, shape)),
        DeviceIdentity::M3Max => Some(table::m3_max_route(format, m, shape)),
        DeviceIdentity::M4 => Some(table::m4_route(format, m, shape)),
        DeviceIdentity::M4Pro => Some(table::m4_pro_route(format, m, shape)),
        DeviceIdentity::M5Max => Some(table::m5_max_route(format, m, shape)),
        _ => None,
    }
}

/// The first route, where the second one is the same.
pub open spec fn agreed(first: QmvRoute, second: QmvRoute) -> Option<QmvRoute> {
    if first == second {
        Some(first)
    } else {
        None
    }
}

/// The route that all measured devices of a family share, where they agree.
pub open spec fn spec_family_route(
    family: GpuFamily,
    format: QmvFormat,
    m: u32,
    shape: QmvShape,
) -> Option<QmvRoute> {
    match family {
        GpuFamily::Legacy => Some(table::spec_m1_route(format, m, shape)),
        GpuFamily::Apple8 => agreed(
            table::spec_m2_route(format, m, shape),
            table::spec_m2_pro_route(format, m, shape),
        ),
        GpuFamily::Apple9 => if table::spec_m4_route(format, m, shape) == table::spec_m4_pro_route(
            format,
            m,
            shape,
        ) {
            agreed(
                table::spec_m3_max_route(format, m, shape),
                table::spec_m4_route(format, m, shape),
            )
        } else {
            None
        },
        GpuFamily::Apple10 => Some(table::spec_m5_max_route(format, m, shape)),
    }
}

fn family_route(family: GpuFamily, format: QmvFormat, m: u32, shape: QmvShape) -> (route: Option<
    QmvRoute,
>)
    ensures
        route == spec_family_route(family, format, m, shape),
{
    match family {
        GpuFamily::Legacy => Some(table::m1_route(format, m, shape)),
        GpuFamily::Apple8 => {
            let route: QmvRoute = table::m2_route(format, m, shape);
            if table::m2_pro_route(format, m, shape) == route {
                Some(route)
            } else {
                None
            }
        },
        GpuFamily::Apple9 => {
            let route: QmvRoute = table::m3_max_route(format, m, shape);
            if table::m4_route(format, m, shape) == route && table::m4_pro_route(format, m, shape)
                == route {
                Some(route)
            } else {
                None
            }
        },
        GpuFamily::Apple10 => Some(table::m5_max_route(format, m, shape)),
    }
}

/// The multiplication is of the kind that was measured.
pub open spec fn is_measured_kind(shape: MatmulShape, all_bf16: bool) -> bool {
    &&& all_bf16
    &&& 2 <= shape.m <= 7
    &&& shape.a_full_precision
    &&& shape.b_transpose
    &&& shape.b_leading_dimension is None
    &&& !shape.sparse_readout
    &&& !shape.expert_routed
}

/// The route of a measured projection: that of the device, else that of its family, unless it needs
/// a matrix unit that is not there.
pub open spec fn lookup(
    device: DeviceProfile,
    format: QmvFormat,
    m: u32,
    shape: QmvShape,
) -> Option<QmvRoute> {
    let found = match spec_exact_route(device.identity, format, m, shape) {
        Some(route) => Some(route),
        None => spec_family_route(device.gpu_family(), format, m, shape),
    };
    match found {
        Some(QmvRoute::MainGemm(GemmPlan { engine: GemmEngine::Mxu, .. })) => if device.supports_mxu {
            found
        } else {
            None
        },
        _ => found,
    }
}

pub open spec fn spec_route(
    device: DeviceProfile,
    shape: MatmulShape,
    all_bf16: bool,
) -> Option<QmvRoute> {
    if !is_measured_kind(shape, all_bf16) {
        None
    } else {
        match (spec_qmv_format(shape), spec_measured_shape(shape.n, shape.k)) {
            (Some(format), Some(projection)) => lookup(device, format, shape.m, projection),
            _ => None,
        }
    }
}

/// Looks the route of a multiplication up.
pub fn route(device: DeviceProfile, shape: &MatmulShape, all_bf16: bool) -> (route: Option<QmvRoute>)
    ensures
        route == spec_route(device, *shape, all_bf16),
{
    if !all_bf16 || shape.m < 2 || shape.m > 7 || !shape.a_full_precision || !shape.b_transpose
        || shape.b_leading_dimension.is_some() || shape.sparse_readout || shape.expert_routed {
        return None;
    }
    let format: QmvFormat = match qmv_format(shape) {
        Some(format) => format,
        None => {
            return None;
        },
    };
    let projection: QmvShape = match measured_shape(shape.n, shape.k) {
        Some(projection) => projection,
        None => {
            return None;
        },
    };
    let found: Option<QmvRoute> = match exact_route(device.identity, format, shape.m, projection) {
        Some(route) => Some(route),
        None => family_route(device.gpu_family(), format, shape.m, projection),
    };
    match found {
        Some(QmvRoute::MainGemm(plan)) => if plan.engine == GemmEngine::Mxu
            && !device.supports_mxu {
            None
        } else {
            found
        },
        _ => found,
    }
}

/// Each projection is found by its extents.
pub proof fn law_extents_name_one_projection(shape: QmvShape, n: u32, k: u32)
    requires
        has_extents(shape, n, k),
    ensures
        spec_measured_shape(n, k) == Some(shape),
{
}

/// Every combination of a measured device, format, row count and projection has a route, and it is
/// preferred to that of the device's family.
pub proof fn law_measured_devices_have_exact_routes(
    device: DeviceProfile,
    format: QmvFormat,
    m: u32,
    shape: QmvShape,
)
    requires
        spec_exact_route(device.identity, format, m, shape) is Some,
        device.supports_mxu,
    ensures
        lookup(device, format, m, shape) == spec_exact_route(device.identity, format, m, shape),
{
}

/// A device that was not measured gets a route only where all measured devices of its family agree
/// on it.
pub proof fn law_family_route_is_unanimous(
    family: GpuFamily,
    member: DeviceProfile,
    format: QmvFormat,
    m: u32,
    shape: QmvShape,
)
    requires
        member.gpu_family() == family,
        spec_family_route(family, format, m, shape) is Some,
    ensures
        spec_exact_route(member.identity, format, m, shape) is Some ==> spec_exact_route(
            member.identity,
            format,
            m,
            shape,
        ) == spec_family_route(family, format, m, shape),
{
}

/// A tile is a whole GEMV tile; a plan uses tiles of its engine and divides the depth.
pub open spec fn is_sound(route: QmvRoute, shape: QmvShape) -> bool {
    match route {
        QmvRoute::Tuned(tile) | QmvRoute::MainGemv(tile) => {
            &&& tile.wf()
            &&& tile.k_split == 1
            &&& tile.num_simdgroups > 0
        },
        QmvRoute::MainGemm(plan) => {
            &&& plan.split_k > 0
            &&& depth(shape) % plan.split_k == 0
            &&& match plan.engine {
                GemmEngine::Mxu => plan.tiling is Tile32x64x256_Simdgroups2x2,
                GemmEngine::Simdgroup => plan.tiling is Tile8x32x32_Simdgroups1x1,
            }
        },
    }
}

broadcast proof fn lemma_tuned_is_sound(
    input: u32,
    output: u32,
    lanes: u32,
    group_lanes: u32,
    simdgroups: u32,
    shape: QmvShape,
)
    requires
        0 < simdgroups <= 8,
        output <= 64,
    ensures
        #[trigger] is_sound(
            table::spec_tuned(input, output, lanes, group_lanes, simdgroups),
            shape,
        ),
{
    assert((simdgroups / 1u32) * (output / simdgroups) <= u32::MAX) by (nonlinear_arith)
        requires
            0 < simdgroups <= 8,
            output <= 64,
    ;
}

broadcast proof fn lemma_main_gemv_is_sound(
    input: u32,
    results: u32,
    lanes: u32,
    group_lanes: u32,
    simdgroups: u32,
    shape: QmvShape,
)
    requires
        0 < simdgroups <= 8,
        results <= 64,
    ensures
        #[trigger] is_sound(
            table::spec_main_gemv(input, results, lanes, group_lanes, simdgroups),
            shape,
        ),
{
    assert((simdgroups / 1u32) * results <= u32::MAX) by (nonlinear_arith)
        requires
            0 < simdgroups <= 8,
            results <= 64,
    ;
}

/// The splits that occur, by the projections whose depth they divide.
spec fn splits(shape: QmvShape, split_k: u32) -> bool {
    match shape {
        QmvShape::Down => split_k == 1 || split_k == 2 || split_k == 4,
        QmvShape::ProjectionOut => 1 <= split_k <= 6 && split_k != 5,
        _ => split_k == 1 || split_k == 2 || split_k == 4 || split_k == 5,
    }
}

broadcast proof fn lemma_main_gemm_is_sound(
    engine: GemmEngine,
    tiling: GemmTiling,
    split_k: u32,
    shape: QmvShape,
)
    requires
        splits(shape, split_k),
        match engine {
            GemmEngine::Mxu => tiling is Tile32x64x256_Simdgroups2x2,
            GemmEngine::Simdgroup => tiling is Tile8x32x32_Simdgroups1x1,
        },
    ensures
        #[trigger] is_sound(table::spec_main_gemm(engine, tiling, split_k), shape),
{
    assert(depth(shape) % 1 == 0);
    assert(depth(shape) % 2 == 0);
    assert(depth(shape) % 4 == 0);
    if split_k == 3 {
        assert(depth(shape) % 3 == 0);
    } else if split_k == 5 {
        assert(depth(shape) % 5 == 0);
    } else if split_k == 6 {
        assert(depth(shape) % 6 == 0);
    }
}

broadcast group group_constructors_are_sound {
    lemma_tuned_is_sound,
    lemma_main_gemv_is_sound,
    lemma_main_gemm_is_sound,
}

proof fn lemma_m1_is_sound(format: QmvFormat, m: u32, shape: QmvShape)
    ensures
        is_sound(table::spec_m1_route(format, m, shape), shape),
{
    broadcast use group_constructors_are_sound;

}

proof fn lemma_m2_is_sound(format: QmvFormat, m: u32, shape: QmvShape)
    ensures
        is_sound(table::spec_m2_route(format, m, shape), shape),
{
    broadcast use group_constructors_are_sound;

}

proof fn lemma_m2_pro_is_sound(format: QmvFormat, m: u32, shape: QmvShape)
    ensures
        is_sound(table::spec_m2_pro_route(format, m, shape), shape),
{
    broadcast use group_constructors_are_sound;

}

proof fn lemma_m3_max_is_sound(format: QmvFormat, m: u32, shape: QmvShape)
    ensures
        is_sound(table::spec_m3_max_route(format, m, shape), shape),
{
    broadcast use group_constructors_are_sound;

}

proof fn lemma_m4_is_sound(format: QmvFormat, m: u32, shape: QmvShape)
    ensures
        is_sound(table::spec_m4_route(format, m, shape), shape),
{
    broadcast use group_constructors_are_sound;

}

proof fn lemma_m4_pro_is_sound(format: QmvFormat, m: u32, shape: QmvShape)
    ensures
        is_sound(table::spec_m4_pro_route(format, m, shape), shape),
{
    broadcast use group_constructors_are_sound;

}

proof fn lemma_m5_max_is_sound(format: QmvFormat, m: u32, shape: QmvShape)
    ensures
        is_sound(table::spec_m5_max_route(format, m, shape), shape),
{
    broadcast use group_constructors_are_sound;

}

proof fn lemma_lookup_is_sound(device: DeviceProfile, format: QmvFormat, m: u32, shape: QmvShape)
    ensures
        lookup(device, format, m, shape) matches Some(route) ==> is_sound(route, shape),
{
    lemma_m1_is_sound(format, m, shape);
    lemma_m2_is_sound(format, m, shape);
    lemma_m2_pro_is_sound(format, m, shape);
    lemma_m3_max_is_sound(format, m, shape);
    lemma_m4_is_sound(format, m, shape);
    lemma_m4_pro_is_sound(format, m, shape);
    lemma_m5_max_is_sound(format, m, shape);
}

/// Every route of the table can be run: a kernel exists for its tile, and its plan is legal.
pub proof fn law_routes_are_legal(
    device: DeviceProfile,
    shape: MatmulShape,
    route: QmvRoute,
    policy: GemvPolicy,
)
    requires
        spec_route(device, shape, true) == Some(route),
        policy.default_results_per_simdgroup <= 5120,
    ensures
        match route {
            QmvRoute::Tuned(tile) | QmvRoute::MainGemv(tile) => {
                &&& tile.wf()
                &&& GemvSpecialization::spec_select_tile_for_format(
                    shape,
                    DataType::BF16,
                    DataType::BF16,
                    DataType::BF16,
                    tile,
                    false,
                    policy,
                ) == Some(GemvSpecialization::of_tile(shape, tile, false, policy))
            },
            QmvRoute::MainGemm(plan) => shape.is_integer_quantized() ==> (GemmProblem {
                shape,
                weights_data_type: DataType::BF16,
                output_data_type: DataType::BF16,
                supports_mxu: device.supports_mxu,
                profile: device,
            }).spec_plan_is_legal(plan),
        },
{
    let format = spec_qmv_format(shape)->Some_0;
    let projection = spec_measured_shape(shape.n, shape.k)->Some_0;
    lemma_lookup_is_sound(device, format, shape.m, projection);
    assert(columns(projection) % 32 == 0);
}

/// Only multiplications of two to seven rows of brain floats with whole transposed weights are looked up, with
/// the extents of a measured projection, four-bit codes with zero points or symmetric eight-bit codes,
/// in groups of 32 or 64; and nothing runs on a matrix unit that is not there.
pub proof fn law_only_measured_multiplications_have_routes(
    device: DeviceProfile,
    shape: MatmulShape,
    all_bf16: bool,
    found: Option<QmvRoute>,
)
    requires
        call_ensures(route, (device, &shape, all_bf16), found),
    ensures
        found is Some ==> {
            &&& all_bf16
            &&& 2 <= shape.m <= 7
            &&& shape.a_full_precision
            &&& shape.b_transpose
            &&& shape.b_leading_dimension is None
            &&& !shape.sparse_readout
            &&& !shape.expert_routed
            &&& shape.b_group_size == Some(32u32) || shape.b_group_size == Some(64u32)
            &&& (shape.b_prologue is ScaleZeroPointDequant && shape.b_bits == Some(4u32)) || (
            shape.b_prologue is ScaleSymmetricDequant && shape.b_bits == Some(8u32))
            &&& match shape.k {
                17408 => shape.n == 5120,
                6144 => shape.n == 5120,
                5120 => shape.n == 6144 || shape.n == 34816 || shape.n == 16480 || shape.n == 8192
                    || shape.n == 248320,
                _ => false,
            }
        },
        found matches Some(QmvRoute::MainGemm(plan)) ==> (plan.engine == GemmEngine::Mxu
            ==> device.supports_mxu),
{
}

/// A projection is known by its extents.
pub proof fn law_projections_are_told_apart(
    n: u32,
    k: u32,
    other_n: u32,
    other_k: u32,
    found: Option<QmvShape>,
    other: Option<QmvShape>,
)
    requires
        call_ensures(measured_shape, (n, k), found),
        call_ensures(measured_shape, (other_n, other_k), other),
    ensures
        found is Some && found == other ==> n == other_n && k == other_k,
        found == Some(QmvShape::Down) <==> n == 5120 && k == 17408,
        found == Some(QmvShape::ProjectionOut) <==> n == 5120 && k == 6144,
        found == Some(QmvShape::Readout) <==> n == 248320 && k == 5120,
        found == Some(QmvShape::GateUp) <==> n == 34816 && k == 5120,
        found == Some(QmvShape::ProjectionIn) <==> n == 16480 && k == 5120,
        found == Some(QmvShape::Qkv) <==> n == 8192 && k == 5120,
        found == Some(QmvShape::Gate) <==> n == 6144 && k == 5120,
{
}

/// A format is known by its codes, its correction and its groups.
pub proof fn law_formats_are_told_apart(shape: MatmulShape, format: Option<QmvFormat>)
    requires
        call_ensures(qmv_format, (&shape,), format),
    ensures
        format matches Some(format) ==> match format {
            QmvFormat::W4ZeroPointG32 => shape.b_bits == Some(4u32) && shape.b_group_size == Some(32u32)
                && shape.b_prologue is ScaleZeroPointDequant,
            QmvFormat::W4ZeroPointG64 => shape.b_bits == Some(4u32) && shape.b_group_size == Some(64u32)
                && shape.b_prologue is ScaleZeroPointDequant,
            QmvFormat::W8SymmetricG32 => shape.b_bits == Some(8u32) && shape.b_group_size == Some(32u32)
                && shape.b_prologue is ScaleSymmetricDequant,
            QmvFormat::W8SymmetricG64 => shape.b_bits == Some(8u32) && shape.b_group_size == Some(64u32)
                && shape.b_prologue is ScaleSymmetricDequant,
        },
        (shape.b_bits == Some(4u32) && shape.b_prologue is ScaleZeroPointDequant || shape.b_bits == Some(
            8u32,
        ) && shape.b_prologue is ScaleSymmetricDequant) && (shape.b_group_size == Some(32u32)
            || shape.b_group_size == Some(64u32)) ==> format is Some,
{
}

/// A route of a table that suits its format and rows: the general GEMV takes one row at a time with as many
/// lanes to a group as its codes fill, a tuned tile takes all rows at once or in two steps.
pub open spec fn suits(route: QmvRoute, format: QmvFormat, m: u32) -> bool {
    match route {
        QmvRoute::MainGemv(tile) => {
            &&& tile.num_simdgroups == 8 && tile.results_per_simdgroup == 4
            &&& tile.input_row_tile == 1
            &&& tile.reduction_lanes == 32
            &&& tile.group_lanes == match format {
                QmvFormat::W4ZeroPointG32 => 2u32,
                QmvFormat::W4ZeroPointG64 => 4u32,
                QmvFormat::W8SymmetricG32 => 4u32,
                QmvFormat::W8SymmetricG64 => 8u32,
            }
        },
        QmvRoute::Tuned(tile) => {
            &&& tile.input_row_tile == m || 2 * tile.input_row_tile == m || (m == 7 && (
            tile.input_row_tile == 8 || tile.input_row_tile == 4))
            &&& tile.reduction_lanes == 4 * tile.num_simdgroups
            &&& tile.group_lanes == 1
            &&& tile.num_simdgroups == 2 || tile.num_simdgroups == 4
            &&& tile.num_simdgroups * tile.results_per_simdgroup == 16 || tile.num_simdgroups
                * tile.results_per_simdgroup == 8
        },
        QmvRoute::MainGemm(plan) => m >= 3,
    }
}

/// Every route of the tables suits its format and rows.
#[verifier::rlimit(60)]
pub proof fn law_measured_routes_suit_their_rows(
    format: QmvFormat,
    m: u32,
    shape: QmvShape,
    m1: QmvRoute,
    m2: QmvRoute,
    m2_pro: QmvRoute,
    m3_max: QmvRoute,
    m4: QmvRoute,
    m4_pro: QmvRoute,
    m5_max: QmvRoute,
)
    requires
        2 <= m <= 7,
        call_ensures(table::m1_route, (format, m, shape), m1),
        call_ensures(table::m2_route, (format, m, shape), m2),
        call_ensures(table::m2_pro_route, (format, m, shape), m2_pro),
        call_ensures(table::m3_max_route, (format, m, shape), m3_max),
        call_ensures(table::m4_route, (format, m, shape), m4),
        call_ensures(table::m4_pro_route, (format, m, shape), m4_pro),
        call_ensures(table::m5_max_route, (format, m, shape), m5_max),
    ensures
        suits(m1, format, m),
        suits(m2, format, m),
        suits(m2_pro, format, m),
        suits(m3_max, format, m),
        suits(m4, format, m),
        suits(m4_pro, format, m),
        suits(m5_max, format, m),
{
    assert(16u32 / 2u32 == 8 && 16u32 / 4u32 == 4 && 8u32 / 2u32 == 4);
}

} // verus!
