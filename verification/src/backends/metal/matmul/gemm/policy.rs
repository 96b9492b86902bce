//! Tuned GEMM tile and split-K policy.
//!
//! These functions are the retunable part of GEMM dispatch: they map shape
//! features to choices. Eligibility, fallbacks, and legality stand in `selection`.
use vstd::prelude::*;

use crate::arithmetic::{max_u32, saturating_mul};
use crate::arithmetic;
use crate::backends::common::gpu_types::gemm::GemmTiling;
use crate::backends::metal::device_profile::{DeviceProfile, GpuFamily};

verus! {

pub const MXU_DEFAULT_TILE: GemmTiling = GemmTiling::Tile64x64x256_Simdgroups2x2;

pub const MXU_SKINNY_M_MAX: u32 = 16;
pub const SKINNY_SQUARE_K_MAX: u32 = 2560;
pub const READOUT_N_TO_K_RATIO: u32 = 32;
pub const WIDE_N_DEEP_K_MIN: u32 = 4096;
pub const WIDE_N_DEEP_K_RATIO: u32 = 4;
pub const WIDE_N_MODERATE_K: u32 = 2560;
pub const WIDE_N_MODERATE_K_RATIO: u32 = 6;

/// The greatest row count of each class of row counts; greater ones form a last class.
pub const MXU_TINY_M_MAX: u32 = 16;
pub const MXU_SMALL_M_MAX: u32 = 63;
pub const MXU_MEDIUM_M_MAX: u32 = 255;
pub const MXU_LARGE_M_MAX: u32 = 511;
/// The greatest column count of each class of column counts; greater ones form a last class.
pub const MXU_NARROW_N_MAX: u32 = 63;
pub const MXU_MEDIUM_N_MAX: u32 = 127;

pub const SIMDGROUP_QUANT_SMALL_M_MAX: u32 = 32;
pub const SIMDGROUP_QUANT_NARROW_BLOCK_M: u32 = 8;
pub const SIMDGROUP_QUANT_LARGE_M_MIN: u32 = 64;
pub const SIMDGROUP_QUANT_WIDE_N_MIN: u32 = 6144;

pub const SPLIT_K_TARGET_TILES_FP: u32 = 512;
pub const SPLIT_K_TARGET_TILES_A8: u32 = 256;
pub const SPLIT_K_TARGET_TILES_A8_TILE16X32: u32 = 1024;
pub const SPLIT_K_TARGET_TILES_A8_TILE32_W4: u32 = 512;
pub const SPLIT_K_TARGET_TILES_A8_TILE32_W8: u32 = 1024;

pub open spec fn spec_mxu_mn_tile(is_a_int8: bool, m: u32, n: u32) -> GemmTiling {
    if n <= MXU_NARROW_N_MAX {
        GemmTiling::Tile64x32x256_Simdgroups4x1
    } else if is_a_int8 {
        if m <= MXU_TINY_M_MAX {
            GemmTiling::Tile16x32x256_Simdgroups1x1
        } else if m <= MXU_SMALL_M_MAX {
            GemmTiling::Tile32x64x256_Simdgroups2x2
        } else if m <= MXU_LARGE_M_MAX {
            MXU_DEFAULT_TILE
        } else {
            GemmTiling::Tile128x128x256_Simdgroups4x4
        }
    } else {
        if m <= MXU_SMALL_M_MAX {
            GemmTiling::Tile32x64x256_Simdgroups2x2
        } else if m <= MXU_MEDIUM_M_MAX || n <= MXU_MEDIUM_N_MAX {
            MXU_DEFAULT_TILE
        } else {
            GemmTiling::Tile128x128x256_Simdgroups4x4
        }
    }
}

/// The tiling of the matrix unit by rows and columns.
#[verifier::when_used_as_spec(spec_mxu_mn_tile)]
pub fn mxu_mn_tile(is_a_int8: bool, m: u32, n: u32) -> (tiling: GemmTiling)
    ensures
        tiling == mxu_mn_tile(is_a_int8, m, n),
{
    if n <= MXU_NARROW_N_MAX {
        return GemmTiling::Tile64x32x256_Simdgroups4x1;
    }
    if is_a_int8 {
        if m <= MXU_TINY_M_MAX {
            GemmTiling::Tile16x32x256_Simdgroups1x1
        } else if m <= MXU_SMALL_M_MAX {
            GemmTiling::Tile32x64x256_Simdgroups2x2
        } else if m <= MXU_LARGE_M_MAX {
            MXU_DEFAULT_TILE
        } else {
            GemmTiling::Tile128x128x256_Simdgroups4x4
        }
    } else if m <= MXU_SMALL_M_MAX {
        GemmTiling::Tile32x64x256_Simdgroups2x2
    } else if m > MXU_MEDIUM_M_MAX && n > MXU_MEDIUM_N_MAX {
        GemmTiling::Tile128x128x256_Simdgroups4x4
    } else {
        MXU_DEFAULT_TILE
    }
}

/// The columns are so many that sixteen rows are best spread over wide blocks.
pub open spec fn spec_is_wide(n: u32, k: u32) -> bool {
    ||| k >= WIDE_N_DEEP_K_MIN && n >= arithmetic::saturating_product(WIDE_N_DEEP_K_RATIO, k)
    ||| k == WIDE_N_MODERATE_K && n >= arithmetic::saturating_product(WIDE_N_MODERATE_K_RATIO, k)
}

pub open spec fn spec_mxu_fp_tile(m: u32, n: u32, k: u32) -> GemmTiling {
    if m >= 64 || n < 64 || (n != k && m >= MXU_SKINNY_M_MAX) {
        mxu_mn_tile(false, m, n)
    } else if n == k {
        if m < MXU_SKINNY_M_MAX && k <= SKINNY_SQUARE_K_MAX {
            GemmTiling::Tile16x32x256_Simdgroups1x1
        } else {
            GemmTiling::Tile32x64x256_Simdgroups2x2
        }
    } else if k > n {
        GemmTiling::Tile16x128x256_Simdgroups1x4
    } else if n > arithmetic::saturating_product(READOUT_N_TO_K_RATIO, k) {
        GemmTiling::Tile16x32x256_Simdgroups1x1
    } else if spec_is_wide(n, k) {
        GemmTiling::Tile16x128x256_Simdgroups1x4
    } else {
        GemmTiling::Tile32x64x256_Simdgroups2x2
    }
}

/// The tiling of the matrix unit for full-precision operands.
#[verifier::when_used_as_spec(spec_mxu_fp_tile)]
pub fn mxu_fp_tile(m: u32, n: u32, k: u32) -> (tiling: GemmTiling)
    ensures
        tiling == mxu_fp_tile(m, n, k),
{
    if m >= 64 || n < 64 {
        return mxu_mn_tile(false, m, n);
    }
    if n == k {
        return if m < MXU_SKINNY_M_MAX && k <= SKINNY_SQUARE_K_MAX {
            GemmTiling::Tile16x32x256_Simdgroups1x1
        } else {
            GemmTiling::Tile32x64x256_Simdgroups2x2
        };
    }
    if m >= MXU_SKINNY_M_MAX {
        return mxu_mn_tile(false, m, n);
    }
    if k > n {
        return GemmTiling::Tile16x128x256_Simdgroups1x4;
    }
    if n > saturating_mul(READOUT_N_TO_K_RATIO, k) {
        return GemmTiling::Tile16x32x256_Simdgroups1x1;
    }
    if (k >= WIDE_N_DEEP_K_MIN && n >= saturating_mul(WIDE_N_DEEP_K_RATIO, k)) || (k
        == WIDE_N_MODERATE_K && n >= saturating_mul(WIDE_N_MODERATE_K_RATIO, k)) {
        return GemmTiling::Tile16x128x256_Simdgroups1x4;
    }
    GemmTiling::Tile32x64x256_Simdgroups2x2
}

pub open spec fn spec_simdgroup_fp_tile(m: u32, n: u32, k: u32) -> GemmTiling {
    if arithmetic::saturating_product(2, max_u32(m, n)) > k {
        GemmTiling::Tile64x64x16_Simdgroups2x2
    } else {
        GemmTiling::Tile64x32x32_Simdgroups2x2
    }
}

/// The tiling of the simdgroups for full-precision operands.
#[verifier::when_used_as_spec(spec_simdgroup_fp_tile)]
pub fn simdgroup_fp_tile(m: u32, n: u32, k: u32) -> (tiling: GemmTiling)
    ensures
        tiling == simdgroup_fp_tile(m, n, k),
{
    if saturating_mul(2, max_u32(m, n)) > k {
        GemmTiling::Tile64x64x16_Simdgroups2x2
    } else {
        GemmTiling::Tile64x32x32_Simdgroups2x2
    }
}

pub open spec fn spec_prefers_wide_partial_m_tile(profile: DeviceProfile) -> bool {
    profile.gpu_family() is Legacy || profile.gpu_family() is Apple8
}

/// A partial trailing M block costs a second pass over the weights. Older GPUs are bound by that;
/// Apple9 and newer would rather keep the narrow tile's parallelism.
#[verifier::when_used_as_spec(spec_prefers_wide_partial_m_tile)]
fn prefers_wide_partial_m_tile(profile: DeviceProfile) -> (prefers: bool)
    ensures
        prefers == spec_prefers_wide_partial_m_tile(profile),
{
    match profile.gpu_family() {
        GpuFamily::Legacy | GpuFamily::Apple8 => true,
        _ => false,
    }
}

pub open spec fn spec_simdgroup_quant_tile(
    m: u32,
    n: u32,
    group_size: u32,
    profile: DeviceProfile,
) -> GemmTiling {
    if group_size < 32 {
        GemmTiling::Tile64x64x16_Simdgroups2x2
    } else if m < SIMDGROUP_QUANT_SMALL_M_MAX && (!spec_prefers_wide_partial_m_tile(profile) || m
        <= SIMDGROUP_QUANT_NARROW_BLOCK_M || m % SIMDGROUP_QUANT_NARROW_BLOCK_M == 0) {
        GemmTiling::Tile8x32x32_Simdgroups1x1
    } else if m >= SIMDGROUP_QUANT_LARGE_M_MIN && n >= SIMDGROUP_QUANT_WIDE_N_MIN && n % 64 == 0 {
        GemmTiling::Tile64x64x32_Simdgroups2x2
    } else {
        GemmTiling::Tile32x32x32_Simdgroups2x2
    }
}

/// The tiling of the simdgroups for packed weights.
#[verifier::when_used_as_spec(spec_simdgroup_quant_tile)]
pub fn simdgroup_quant_tile(m: u32, n: u32, group_size: u32, profile: DeviceProfile) -> (tiling:
    GemmTiling)
    ensures
        tiling == simdgroup_quant_tile(m, n, group_size, profile),
{
    if group_size < 32 {
        GemmTiling::Tile64x64x16_Simdgroups2x2
    } else if m < SIMDGROUP_QUANT_SMALL_M_MAX {
        if !prefers_wide_partial_m_tile(profile) || m <= SIMDGROUP_QUANT_NARROW_BLOCK_M || m
            % SIMDGROUP_QUANT_NARROW_BLOCK_M == 0 {
            GemmTiling::Tile8x32x32_Simdgroups1x1
        } else {
            GemmTiling::Tile32x32x32_Simdgroups2x2
        }
    } else if m >= SIMDGROUP_QUANT_LARGE_M_MIN && n >= SIMDGROUP_QUANT_WIDE_N_MIN && n % 64 == 0 {
        GemmTiling::Tile64x64x32_Simdgroups2x2
    } else {
        GemmTiling::Tile32x32x32_Simdgroups2x2
    }
}

/// The tiling for rows that are routed to experts.
pub fn routed_tile(group_size: Option<u32>) -> (tiling: GemmTiling)
    ensures
        tiling == if group_size == Some(16u32) {
            GemmTiling::Tile16x64x16_Simdgroups1x2
        } else {
            GemmTiling::Tile16x64x32_Simdgroups1x2
        },
{
    match group_size {
        Some(16) => GemmTiling::Tile16x64x16_Simdgroups1x2,
        _ => GemmTiling::Tile16x64x32_Simdgroups1x2,
    }
}

pub open spec fn spec_split_k_target_tiles(
    is_a_int8: bool,
    tiling: GemmTiling,
    b_bits: Option<u32>,
) -> u32 {
    if !is_a_int8 {
        SPLIT_K_TARGET_TILES_FP
    } else if tiling is Tile32x64x256_Simdgroups2x2 {
        if b_bits == Some(4u32) {
            SPLIT_K_TARGET_TILES_A8_TILE32_W4
        } else {
            SPLIT_K_TARGET_TILES_A8_TILE32_W8
        }
    } else if tiling is Tile16x32x256_Simdgroups1x1 {
        SPLIT_K_TARGET_TILES_A8_TILE16X32
    } else {
        SPLIT_K_TARGET_TILES_A8
    }
}

/// The number of blocks that a split of the depth aims at.
#[verifier::when_used_as_spec(spec_split_k_target_tiles)]
pub fn split_k_target_tiles(is_a_int8: bool, tiling: GemmTiling, b_bits: Option<u32>) -> (tiles: u32)
    ensures
        tiles == split_k_target_tiles(is_a_int8, tiling, b_bits),
{
    match (is_a_int8, tiling, b_bits) {
        (true, GemmTiling::Tile32x64x256_Simdgroups2x2, Some(4)) => {
            SPLIT_K_TARGET_TILES_A8_TILE32_W4
        },
        (true, GemmTiling::Tile32x64x256_Simdgroups2x2, _) => SPLIT_K_TARGET_TILES_A8_TILE32_W8,
        (true, GemmTiling::Tile16x32x256_Simdgroups1x1, _) => SPLIT_K_TARGET_TILES_A8_TILE16X32,
        (true, _, _) => SPLIT_K_TARGET_TILES_A8,
        (false, _, _) => SPLIT_K_TARGET_TILES_FP,
    }
}

/// On the matrix unit, few columns are cut into narrow blocks. Else the blocks of integer activations have 16,
/// 32, 64 or 128 rows as the rows come to 16, 63, 511 and more; those of full precision have 32, 64
/// or 128 as they come to 63, 255 and more, the last only from 128 columns on.
pub proof fn law_matrix_unit_blocks_grow(is_a_int8: bool, m: u32, n: u32, tiling: GemmTiling)
    requires
        call_ensures(mxu_mn_tile, (is_a_int8, m, n), tiling),
    ensures
        tiling.is_mxu_variant(),
        n < 64 ==> tiling.block_m() == 64 && tiling.block_n() == 32,
        n >= 64 && is_a_int8 ==> tiling.block_m() == (if m <= 16 {
            16u32
        } else if m < 64 {
            32u32
        } else if m < 512 {
            64u32
        } else {
            128u32
        }),
        n >= 64 && !is_a_int8 ==> tiling.block_m() == (if m < 64 {
            32u32
        } else if m < 256 || n < 128 {
            64u32
        } else {
            128u32
        }),
        n >= 64 && m > 16 ==> tiling.block_n() >= 64,
        n >= 64 ==> tiling.block_n() >= tiling.block_m(),
{
}

/// Full precision on the matrix unit goes by rows and columns where the rows are many or the columns few;
/// else blocks have sixteen rows for deep products, for small squares of fewer than sixteen rows, and
/// for products that are much wider than deep.
pub proof fn law_few_rows_take_flat_blocks(m: u32, n: u32, k: u32, tiling: GemmTiling, plain: GemmTiling)
    requires
        call_ensures(mxu_fp_tile, (m, n, k), tiling),
        call_ensures(mxu_mn_tile, (false, m, n), plain),
    ensures
        m >= 64 || n < 64 ==> tiling == plain,
        m >= 16 && n != k ==> tiling == plain,
        tiling.block_m() == 16 ==> m < 16 && n >= 64,
        m < 16 && n >= 64 && k > n ==> tiling.block_m() == 16 && tiling.block_n() == 128,
        m < 16 && n >= 64 && n == k ==> (tiling.block_m() == 16 <==> k <= 2560),
        m < 16 && n >= 64 && n > 32 * k ==> tiling.block_m() == 16 && tiling.block_n() == 32,
        m < 16 && n >= 64 && k < n <= 32 * k && n < u32::MAX ==> (tiling.block_m() == 16 <==> (k >= 4096 && n >= 4 * k)
            || (k == 2560 && n >= 6 * k)),
        m < 16 && n >= 64 && k < n <= 32 * k && tiling.block_m() == 16 ==> tiling.block_n() == 128,
        m < 64 && n >= 64 && tiling.block_m() != 16 ==> tiling.block_m() == 32 && tiling.block_n() == 64,
{
}

/// Simdgroups cut full-precision products into deep blocks where the product is at least twice as deep as it
/// is high and wide.
pub proof fn law_deep_products_take_deep_blocks(m: u32, n: u32, k: u32, tiling: GemmTiling)
    requires
        call_ensures(simdgroup_fp_tile, (m, n, k), tiling),
    ensures
        !tiling.is_mxu_variant(),
        tiling.block_m() == 64,
        2 * m <= k && 2 * n <= k ==> tiling.block_k() == 32 && tiling.block_n() == 32,
        (2 * m > k || 2 * n > k) && k < u32::MAX ==> tiling.block_k() == 16 && tiling.block_n() == 64,
{
}

/// Simdgroups cut products with packed weights no deeper than a group; few rows take low blocks, unless a
/// last block would be partly filled on an older device; many rows and columns take large ones.
pub proof fn law_packed_products_fit_their_groups(
    m: u32,
    n: u32,
    group_size: u32,
    profile: DeviceProfile,
    tiling: GemmTiling,
)
    requires
        call_ensures(simdgroup_quant_tile, (m, n, group_size, profile), tiling),
    ensures
        !tiling.is_mxu_variant(),
        tiling.block_k() == (if group_size < 32 {
            16u32
        } else {
            32u32
        }),
        group_size >= 16 ==> tiling.block_k() <= group_size,
        group_size >= 32 && tiling.block_m() == 8 ==> m < 32,
        group_size >= 32 && m < 32 && (m <= 8 || m % 8 == 0) ==> tiling.block_m() == 8,
        group_size >= 32 && m < 32 && m > 8 && m % 8 != 0 ==> (tiling.block_m() == 8
            <==> !(profile.gpu_family() is Legacy || profile.gpu_family() is Apple8)),
        group_size >= 32 ==> (tiling.block_m() == 64 <==> m >= 64 && n >= 6144 && n % 64 == 0),
        group_size >= 32 && tiling.block_m() != 8 && tiling.block_m() != 64 ==> tiling.block_m() == 32
            && tiling.block_n() == 32,
{
}

/// Full-precision products aim at 512 blocks; integer activations at 1024 for the smallest blocks and for
/// small blocks with codes of eight bits, at 512 for those with four, and at 256 else.
pub proof fn law_small_blocks_aim_higher(
    is_a_int8: bool,
    tiling: GemmTiling,
    b_bits: Option<u32>,
    tiles: u32,
)
    requires
        call_ensures(split_k_target_tiles, (is_a_int8, tiling, b_bits), tiles),
    ensures
        !is_a_int8 ==> tiles == 512,
        is_a_int8 && tiling.is_mxu_variant() && tiling.block_m() == 16 && tiling.block_n() == 32
            ==> tiles == 1024,
        is_a_int8 && tiling.is_mxu_variant() && tiling.block_m() == 32 ==> tiles == (if b_bits == Some(
            4u32,
        ) {
            512u32
        } else {
            1024u32
        }),
        is_a_int8 && tiling.block_m() >= 64 ==> tiles == 256,
{
}

} // verus!
