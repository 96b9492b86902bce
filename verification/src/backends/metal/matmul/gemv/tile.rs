//! The tiles of the GEMV kernels.
use vstd::prelude::*;

verus! {

/// How a threadgroup shares out its work.
#[derive(Clone, Copy, Debug, PartialEq, Eq, Hash, Structural)]
pub struct GemvTile {
    pub num_simdgroups: u32,
    /// The simdgroups that share the depth of one row.
    pub k_split: u32,
    /// The columns of the product that one simdgroup computes.
    pub results_per_simdgroup: u32,
    /// The rows of the product that are computed together.
    pub input_row_tile: u32,
    pub reduction_lanes: u32,
    pub group_lanes: u32,
}

impl GemvTile {
    /// The depth is shared by at least one simdgroup, and the columns of a threadgroup can be
    /// counted.
    pub open spec fn wf(self) -> bool {
        &&& self.k_split > 0
        &&& (self.num_simdgroups / self.k_split) * self.results_per_simdgroup <= u32::MAX
    }

    pub open spec fn spec_quantized(
        num_simdgroups: u32,
        results_per_simdgroup: u32,
        input_row_tile: u32,
        reduction_lanes: u32,
        group_lanes: u32,
    ) -> GemvTile {
        GemvTile {
            num_simdgroups,
            k_split: 1,
            results_per_simdgroup,
            input_row_tile,
            reduction_lanes,
            group_lanes,
        }
    }

    /// A tile for quantized weights, whose simdgroups do not share a row.
    #[verifier::when_used_as_spec(spec_quantized)]
    pub fn quantized(
        num_simdgroups: u32,
        results_per_simdgroup: u32,
        input_row_tile: u32,
        reduction_lanes: u32,
        group_lanes: u32,
    ) -> (tile: GemvTile)
        ensures
            tile == GemvTile::quantized(
                num_simdgroups,
                results_per_simdgroup,
                input_row_tile,
                reduction_lanes,
                group_lanes,
            ),
    {
        GemvTile {
            num_simdgroups,
            k_split: 1,
            results_per_simdgroup,
            input_row_tile,
            reduction_lanes,
            group_lanes,
        }
    }

    pub open spec fn spec_quantized_output_tile(
        num_simdgroups: u32,
        output_row_tile: u32,
        input_row_tile: u32,
        reduction_lanes: u32,
        group_lanes: u32,
    ) -> GemvTile {
        GemvTile::spec_quantized(
            num_simdgroups,
            output_row_tile / num_simdgroups,
            input_row_tile,
            reduction_lanes,
            group_lanes,
        )
    }

    /// A tile for quantized weights whose threadgroups compute `output_row_tile` columns.
    #[verifier::when_used_as_spec(spec_quantized_output_tile)]
    pub fn quantized_output_tile(
        num_simdgroups: u32,
        output_row_tile: u32,
        input_row_tile: u32,
        reduction_lanes: u32,
        group_lanes: u32,
    ) -> (tile: GemvTile)
        requires
            num_simdgroups > 0,
        ensures
            tile == GemvTile::quantized_output_tile(
                num_simdgroups,
                output_row_tile,
                input_row_tile,
                reduction_lanes,
                group_lanes,
            ),
    {
        GemvTile::quantized(
            num_simdgroups,
            output_row_tile / num_simdgroups,
            input_row_tile,
            reduction_lanes,
            group_lanes,
        )
    }

    pub open spec fn spec_output_row_tile(self) -> u32 {
        ((self.num_simdgroups / self.k_split) * self.results_per_simdgroup) as u32
    }

    /// The columns of the product that one threadgroup computes.
    #[verifier::when_used_as_spec(spec_output_row_tile)]
    pub fn output_row_tile(self) -> (columns: u32)
        requires
            self.wf(),
        ensures
            columns == self.output_row_tile(),
    {
        (self.num_simdgroups / self.k_split) * self.results_per_simdgroup
    }
}

/// Constants of the GEMV policy.
#[derive(Clone, Copy, Debug, PartialEq, Eq)]
pub struct GemvPolicy {
    /// The tile of shapes without a tuned one.
    pub default_tile: GemvTile,
    /// The depth that full-precision kernels step over at a time.
    pub fp_k_block: u32,
    /// The least number of columns for which full-precision kernels exist.
    pub default_results_per_simdgroup: u32,
}

/// The tiles that the policy gives a shape.
#[derive(Clone, Copy, Debug, PartialEq, Eq)]
pub struct GemvCandidates {
    /// For integer weights of which chosen rows are read.
    pub gathered: Option<GemvTile>,
    /// For integer weights.
    pub quantized: Option<GemvTile>,
    /// For full-precision weights.
    pub full_precision: GemvTile,
}

impl GemvCandidates {
    pub open spec fn wf(self) -> bool {
        &&& self.gathered matches Some(tile) ==> tile.wf()
        &&& self.quantized matches Some(tile) ==> tile.wf()
        &&& self.full_precision.wf()
    }
}

/// The simdgroups of a tile for quantized weights do not share rows, and each computes its columns.
pub proof fn law_quantized_tile_shares_no_rows(
    num_simdgroups: u32,
    results_per_simdgroup: u32,
    input_row_tile: u32,
    reduction_lanes: u32,
    group_lanes: u32,
    tile: GemvTile,
    columns: u32,
)
    requires
        num_simdgroups * results_per_simdgroup <= u32::MAX,
        call_ensures(
            GemvTile::quantized,
            (num_simdgroups, results_per_simdgroup, input_row_tile, reduction_lanes, group_lanes),
            tile,
        ),
        call_ensures(GemvTile::output_row_tile, (tile,), columns),
    ensures
        tile.k_split == 1,
        columns == num_simdgroups * results_per_simdgroup,
        tile.input_row_tile == input_row_tile,
        tile.reduction_lanes == reduction_lanes,
        tile.group_lanes == group_lanes,
        tile.num_simdgroups == num_simdgroups,
{
    assert(num_simdgroups / 1u32 == num_simdgroups);
    assert(num_simdgroups * results_per_simdgroup >= 0) by (nonlinear_arith);
}

/// A tile that is asked to compute a number of columns computes them where they can be shared out evenly.
pub proof fn law_output_tile_computes_its_columns(
    num_simdgroups: u32,
    output_row_tile: u32,
    input_row_tile: u32,
    reduction_lanes: u32,
    group_lanes: u32,
    tile: GemvTile,
    columns: u32,
)
    requires
        num_simdgroups > 0,
        call_ensures(
            GemvTile::quantized_output_tile,
            (num_simdgroups, output_row_tile, input_row_tile, reduction_lanes, group_lanes),
            tile,
        ),
        call_ensures(GemvTile::output_row_tile, (tile,), columns),
    ensures
        columns <= output_row_tile < columns + num_simdgroups,
        output_row_tile % num_simdgroups == 0 ==> columns == output_row_tile,
        tile.k_split == 1,
        tile.num_simdgroups == num_simdgroups,
        tile.input_row_tile == input_row_tile,
        tile.reduction_lanes == reduction_lanes,
        tile.group_lanes == group_lanes,
{
    assert(num_simdgroups / 1u32 == num_simdgroups);
    vstd::arithmetic::div_mod::lemma_fundamental_div_mod(
        output_row_tile as int,
        num_simdgroups as int,
    );
    assert(num_simdgroups * (output_row_tile / num_simdgroups) >= 0) by (nonlinear_arith);
}

} // verus!
