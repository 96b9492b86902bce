//! What GEMV kernels are compiled for.
use vstd::prelude::*;

use crate::arithmetic;
use crate::arithmetic::is_multiple_of;
use crate::backends::common::gpu_types::gemm::{GemmBPrologueKind, GemmDTransform};
use crate::backends::common::gpu_types::quantization::HADAMARD_TRANSFORM_BLOCK_SIZE;
use crate::backends::common::matmul::routing::MatmulShape;
use crate::backends::metal::matmul::gemv::tile::{GemvCandidates, GemvPolicy, GemvTile};
use crate::data_type::DataType;

verus! {

/// The most rows that full-precision and routed kernels multiply.
pub const GEMV_MAX_BATCH: u32 = 8;

/// The columns of which an accumulating kernel covers a multiple.
pub const ACCUMULATE_COLUMNS: u32 = 32;

/// What a kernel is compiled for.
#[derive(Clone, Copy, Debug, PartialEq, Eq, Hash, Structural)]
pub struct GemvSpecialization {
    pub b_prologue: GemmBPrologueKind,
    pub group_size: u32,
    pub bits: u32,
    pub output_transform: GemmDTransform,
    pub input_aligned: bool,
    pub k_split: u32,
    pub output_row_tile: u32,
    pub num_simdgroups: u32,
    pub input_row_tile: u32,
    pub reduction_lanes: u32,
    pub group_lanes: u32,
    pub microfloat: bool,
    pub gathered: bool,
    pub expert_routed: bool,
    pub expert_bias: bool,
    pub signed_codes: bool,
    pub full_tile: bool,
}

/// The weights are single precision and the rest is not.
pub open spec fn spec_is_mixed_precision(
    weights_data_type: DataType,
    input_data_type: DataType,
    output_data_type: DataType,
) -> bool {
    weights_data_type is F32 && (input_data_type !is F32 || output_data_type !is F32)
}

fn is_mixed_precision(
    weights_data_type: DataType,
    input_data_type: DataType,
    output_data_type: DataType,
) -> (mixed: bool)
    ensures
        mixed == spec_is_mixed_precision(weights_data_type, input_data_type, output_data_type),
{
    weights_data_type == DataType::F32 && (input_data_type != DataType::F32 || output_data_type
        != DataType::F32)
}

pub open spec fn unwrap_or_zero(value: Option<u32>) -> u32 {
    match value {
        Some(value) => value,
        None => 0,
    }
}

fn value_or_zero(value: Option<u32>) -> (result: u32)
    ensures
        result == unwrap_or_zero(value),
{
    match value {
        Some(value) => value,
        None => 0,
    }
}

/// Kernels exist for the layout of the operands and for what is done to the product.
pub open spec fn layout_is_supported(shape: MatmulShape, microfloat: bool) -> bool {
    &&& shape.b_transpose
    &&& shape.a_full_precision
    &&& match shape.b_leading_dimension {
        Some(dimension) => !shape.is_integer_quantized() && !microfloat && dimension == shape.k,
        None => true,
    }
    &&& shape.d_transform.rht ==> shape.n % HADAMARD_TRANSFORM_BLOCK_SIZE == 0
    &&& shape.d_transform.accumulate ==> shape.n % ACCUMULATE_COLUMNS == 0
}

/// Full-precision kernels exist for the types and the extents.
pub open spec fn full_precision_is_supported(
    shape: MatmulShape,
    weights_data_type: DataType,
    input_data_type: DataType,
    output_data_type: DataType,
    policy: GemvPolicy,
) -> bool {
    &&& !spec_is_mixed_precision(weights_data_type, input_data_type, output_data_type)
    &&& shape.n >= policy.default_results_per_simdgroup
    &&& shape.m <= GEMV_MAX_BATCH
}

/// The depth that a kernel steps over at a time.
pub open spec fn block_depth(shape: MatmulShape, microfloat: bool, policy: GemvPolicy) -> u32 {
    if microfloat {
        match shape.b_group_size {
            Some(group_size) => group_size,
            None => policy.fp_k_block,
        }
    } else if !shape.is_integer_quantized() {
        policy.fp_k_block
    } else if shape.b_bits == Some(4u32) {
        512
    } else {
        256
    }
}

impl GemvSpecialization {
    /// The specialization of a tile.
    pub open spec fn of_tile(
        shape: MatmulShape,
        tile: GemvTile,
        microfloat: bool,
        policy: GemvPolicy,
    ) -> GemvSpecialization {
        GemvSpecialization {
            b_prologue: shape.b_prologue,
            group_size: unwrap_or_zero(shape.b_group_size),
            bits: unwrap_or_zero(shape.b_bits),
            output_transform: shape.d_transform,
            input_aligned: arithmetic::is_multiple(
                shape.k,
                block_depth(shape, microfloat, policy),
            ),
            k_split: tile.k_split,
            output_row_tile: tile.output_row_tile(),
            num_simdgroups: tile.num_simdgroups,
            input_row_tile: tile.input_row_tile,
            reduction_lanes: tile.reduction_lanes,
            group_lanes: tile.group_lanes,
            microfloat,
            gathered: shape.sparse_readout,
            expert_routed: shape.expert_routed,
            expert_bias: shape.expert_bias,
            signed_codes: shape.signed_codes,
            full_tile: arithmetic::is_multiple(shape.m, tile.input_row_tile)
                && arithmetic::is_multiple(shape.n, tile.output_row_tile()),
        }
    }

    /// The specialization of a tile, where a kernel exists for it.
    pub open spec fn spec_select_tile_for_format(
        shape: MatmulShape,
        weights_data_type: DataType,
        input_data_type: DataType,
        output_data_type: DataType,
        tile: GemvTile,
        microfloat: bool,
        policy: GemvPolicy,
    ) -> Option<GemvSpecialization> {
        if !layout_is_supported(shape, microfloat) {
            None
        } else if !shape.is_integer_quantized() && !microfloat && !full_precision_is_supported(
            shape,
            weights_data_type,
            input_data_type,
            output_data_type,
            policy,
        ) {
            None
        } else if (shape.sparse_readout || shape.expert_routed || microfloat) && tile.input_row_tile
            > 1 {
            None
        } else {
            Some(GemvSpecialization::of_tile(shape, tile, microfloat, policy))
        }
    }

    fn select_tile_for_format(
        shape: &MatmulShape,
        weights_data_type: DataType,
        input_data_type: DataType,
        output_data_type: DataType,
        tile: GemvTile,
        microfloat: bool,
        policy: GemvPolicy,
    ) -> (specialization: Option<GemvSpecialization>)
        requires
            tile.wf(),
        ensures
            specialization == GemvSpecialization::spec_select_tile_for_format(
                *shape,
                weights_data_type,
                input_data_type,
                output_data_type,
                tile,
                microfloat,
                policy,
            ),
    {
        if !shape.b_transpose || !shape.a_full_precision {
            return None;
        }
        let integer_quantized: bool = shape.is_integer_quantized();
        let bad_leading_dimension: bool = match shape.b_leading_dimension {
            Some(dimension) => integer_quantized || microfloat || dimension != shape.k,
            None => false,
        };
        if bad_leading_dimension {
            return None;
        }
        if shape.d_transform.rht && shape.n % HADAMARD_TRANSFORM_BLOCK_SIZE != 0 {
            return None;
        }
        if shape.d_transform.accumulate && shape.n % ACCUMULATE_COLUMNS != 0 {
            return None;
        }
        let bits: u32 = value_or_zero(shape.b_bits);
        if !integer_quantized && !microfloat {
            if is_mixed_precision(weights_data_type, input_data_type, output_data_type) || shape.n
                < policy.default_results_per_simdgroup || shape.m > GEMV_MAX_BATCH {
                return None;
            }
        }
        let block_size: u32 = if microfloat {
            match shape.b_group_size {
                Some(group_size) => group_size,
                None => policy.fp_k_block,
            }
        } else if !integer_quantized {
            policy.fp_k_block
        } else if bits == 4 {
            512
        } else {
            256
        };
        let input_aligned: bool = is_multiple_of(shape.k, block_size);
        if (shape.sparse_readout || shape.expert_routed || microfloat) && tile.input_row_tile > 1 {
            return None;
        }
        Some(
            GemvSpecialization {
                b_prologue: shape.b_prologue,
                group_size: value_or_zero(shape.b_group_size),
                bits,
                output_transform: shape.d_transform,
                input_aligned,
                k_split: tile.k_split,
                output_row_tile: tile.output_row_tile(),
                num_simdgroups: tile.num_simdgroups,
                input_row_tile: tile.input_row_tile,
                reduction_lanes: tile.reduction_lanes,
                group_lanes: tile.group_lanes,
                microfloat,
                gathered: shape.sparse_readout,
                expert_routed: shape.expert_routed,
                expert_bias: shape.expert_bias,
                signed_codes: shape.signed_codes,
                full_tile: full_tile(shape, tile),
            },
        )
    }

    /// The tile that the specialization was made of.
    pub fn tile(self) -> (tile: GemvTile)
        requires
            self.k_split > 0,
            self.num_simdgroups >= self.k_split,
        ensures
            tile == (GemvTile {
                num_simdgroups: self.num_simdgroups,
                k_split: self.k_split,
                results_per_simdgroup: self.output_row_tile / (self.num_simdgroups / self.k_split),
                input_row_tile: self.input_row_tile,
                reduction_lanes: self.reduction_lanes,
                group_lanes: self.group_lanes,
            }),
    {
        let shares: u32 = self.num_simdgroups / self.k_split;
        proof {
            assert(shares > 0) by (nonlinear_arith)
                requires
                    self.k_split > 0,
                    self.num_simdgroups >= self.k_split,
                    shares == self.num_simdgroups / self.k_split,
            ;
        }
        GemvTile {
            num_simdgroups: self.num_simdgroups,
            k_split: self.k_split,
            results_per_simdgroup: self.output_row_tile / shares,
            input_row_tile: self.input_row_tile,
            reduction_lanes: self.reduction_lanes,
            group_lanes: self.group_lanes,
        }
    }

    /// The tile that the policy gives a shape, where it gives one.
    pub open spec fn policy_tile(
        shape: MatmulShape,
        weights_data_type: DataType,
        input_data_type: DataType,
        output_data_type: DataType,
        policy: GemvPolicy,
        candidates: GemvCandidates,
    ) -> Option<GemvTile> {
        if shape.is_integer_quantized() {
            if shape.sparse_readout {
                candidates.gathered
            } else {
                candidates.quantized
            }
        } else if !full_precision_is_supported(
            shape,
            weights_data_type,
            input_data_type,
            output_data_type,
            policy,
        ) {
            None
        } else if shape.d_transform.rht {
            Some(policy.default_tile)
        } else {
            Some(candidates.full_precision)
        }
    }

    pub open spec fn spec_select_shape(
        shape: MatmulShape,
        weights_data_type: DataType,
        input_data_type: DataType,
        output_data_type: DataType,
        policy: GemvPolicy,
        candidates: GemvCandidates,
    ) -> Option<GemvSpecialization> {
        if shape.expert_routed && shape.m > GEMV_MAX_BATCH {
            None
        } else {
            match GemvSpecialization::policy_tile(
                shape,
                weights_data_type,
                input_data_type,
                output_data_type,
                policy,
                candidates,
            ) {
                Some(tile) => GemvSpecialization::spec_select_tile_for_format(
                    shape,
                    weights_data_type,
                    input_data_type,
                    output_data_type,
                    if shape.expert_routed {
                        GemvTile { input_row_tile: 1, ..tile }
                    } else {
                        tile
                    },
                    false,
                    policy,
                ),
                None => None,
            }
        }
    }

    /// The specialization of the tile that the policy gives a shape.
    pub fn select_shape(
        shape: &MatmulShape,
        weights_data_type: DataType,
        input_data_type: DataType,
        output_data_type: DataType,
        policy: GemvPolicy,
        candidates: GemvCandidates,
    ) -> (specialization: Option<GemvSpecialization>)
        requires
            policy.default_tile.wf(),
            candidates.wf(),
        ensures
            specialization == GemvSpecialization::spec_select_shape(
                *shape,
                weights_data_type,
                input_data_type,
                output_data_type,
                policy,
                candidates,
            ),
    {
        if shape.expert_routed && shape.m > GEMV_MAX_BATCH {
            return None;
        }
        let tile: Option<GemvTile> = if shape.is_integer_quantized() {
            if shape.sparse_readout {
                candidates.gathered
            } else {
                candidates.quantized
            }
        } else {
            if is_mixed_precision(weights_data_type, input_data_type, output_data_type) || shape.n
                < policy.default_results_per_simdgroup || shape.m > GEMV_MAX_BATCH {
                return None;
            }
            if shape.d_transform.rht {
                Some(policy.default_tile)
            } else {
                Some(candidates.full_precision)
            }
        };
        let mut tile: GemvTile = match tile {
            Some(tile) => tile,
            None => {
                return None;
            },
        };
        if shape.expert_routed {
            tile.input_row_tile = 1;
        }
        GemvSpecialization::select_tile_for_format(
            shape,
            weights_data_type,
            input_data_type,
            output_data_type,
            tile,
            false,
            policy,
        )
    }

    /// The specialization of a given tile.
    pub fn select_tile(
        shape: &MatmulShape,
        weights_data_type: DataType,
        input_data_type: DataType,
        output_data_type: DataType,
        tile: GemvTile,
        policy: GemvPolicy,
    ) -> (specialization: Option<GemvSpecialization>)
        requires
            tile.wf(),
        ensures
            specialization == GemvSpecialization::spec_select_tile_for_format(
                *shape,
                weights_data_type,
                input_data_type,
                output_data_type,
                tile,
                false,
                policy,
            ),
    {
        GemvSpecialization::select_tile_for_format(
            shape,
            weights_data_type,
            input_data_type,
            output_data_type,
            tile,
            false,
            policy,
        )
    }

    pub open spec fn spec_select_microfloat(
        shape: MatmulShape,
        weights_data_type: DataType,
        input_data_type: DataType,
        output_data_type: DataType,
        policy: GemvPolicy,
    ) -> Option<GemvSpecialization> {
        if shape.m > GEMV_MAX_BATCH && !shape.sparse_readout {
            None
        } else {
            GemvSpecialization::spec_select_tile_for_format(
                shape,
                weights_data_type,
                input_data_type,
                output_data_type,
                policy.default_tile,
                true,
                policy,
            )
        }
    }

    /// The specialization for microfloat weights.
    pub fn select_microfloat(
        shape: &MatmulShape,
        weights_data_type: DataType,
        input_data_type: DataType,
        output_data_type: DataType,
        policy: GemvPolicy,
    ) -> (specialization: Option<GemvSpecialization>)
        requires
            policy.default_tile.wf(),
        ensures
            specialization == GemvSpecialization::spec_select_microfloat(
                *shape,
                weights_data_type,
                input_data_type,
                output_data_type,
                policy,
            ),
    {
        if shape.m > GEMV_MAX_BATCH && !shape.sparse_readout {
            return None;
        }
        GemvSpecialization::select_tile_for_format(
            shape,
            weights_data_type,
            input_data_type,
            output_data_type,
            policy.default_tile,
            true,
            policy,
        )
    }

    /// The columns of the product that one threadgroup computes.
    pub fn output_row_tile(&self) -> (columns: u32)
        ensures
            columns == self.output_row_tile,
    {
        self.output_row_tile
    }
}

fn full_tile(shape: &MatmulShape, tile: GemvTile) -> (full: bool)
    requires
        tile.wf(),
    ensures
        full == (arithmetic::is_multiple(shape.m, tile.input_row_tile) && arithmetic::is_multiple(
            shape.n,
            tile.output_row_tile(),
        )),
{
    is_multiple_of(shape.m, tile.input_row_tile) && is_multiple_of(shape.n, tile.output_row_tile())
}

/// A specialization gives back the tile that it was made of.
pub proof fn law_specialization_keeps_its_tile(
    shape: MatmulShape,
    tile: GemvTile,
    microfloat: bool,
    policy: GemvPolicy,
)
    requires
        tile.wf(),
        tile.num_simdgroups >= tile.k_split,
    ensures
        ({
            let specialization = GemvSpecialization::of_tile(shape, tile, microfloat, policy);
            specialization.output_row_tile / (specialization.num_simdgroups
                / specialization.k_split) == tile.results_per_simdgroup
        }),
{
    let shares = tile.num_simdgroups / tile.k_split;
    assert(shares > 0) by (nonlinear_arith)
        requires
            tile.k_split > 0,
            tile.num_simdgroups >= tile.k_split,
            shares == tile.num_simdgroups / tile.k_split,
    ;
    vstd::arithmetic::div_mod::lemma_div_multiples_vanish(
        tile.results_per_simdgroup as int,
        shares as int,
    );
}

} // verus!
