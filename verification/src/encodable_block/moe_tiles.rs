//! The tiles into which the rows of each expert are cut.
use vstd::prelude::*;

use crate::arithmetic;
use crate::arithmetic::div_ceil;

verus! {

/// Each expert's rows follow those of the expert before it.
pub open spec fn is_ascending(offsets: Seq<u32>) -> bool {
    forall|i: int, j: int| 0 <= i <= j < offsets.len() ==> offsets[i] <= offsets[j]
}

/// The number of tiles of `bm` rows that the rows of an expert fill.
pub open spec fn tile_count(offsets: Seq<u32>, bm: usize, expert: int) -> int {
    (offsets[expert + 1] - offsets[expert] + bm - 1) / bm as int
}

/// Counts the tiles of each expert, whose rows begin and end at consecutive offsets.
pub fn cpu_tile_counts(offsets: &[u32], bm: usize) -> (tile_counts: Vec<u32>)
    requires
        offsets@.len() > 0,
        is_ascending(offsets@),
        bm > 0,
    ensures
        tile_counts@ == Seq::new(
            (offsets@.len() - 1) as nat,
            |expert: int| tile_count(offsets@, bm, expert) as u32,
        ),
        forall|expert: int|
            0 <= expert < tile_counts@.len() ==> #[trigger] tile_counts@[expert] == tile_count(
                offsets@,
                bm,
                expert,
            ),
{
    let experts: usize = offsets.len() - 1;
    let mut tile_counts: Vec<u32> = Vec::new();
    let mut expert: usize = 0;
    while expert < experts
        invariant
            expert <= experts,
            experts == offsets@.len() - 1,
            is_ascending(offsets@),
            bm > 0,
            tile_counts@.len() == expert,
            forall|i: int| 0 <= i < expert ==> #[trigger] tile_counts@[i] == tile_count(offsets@, bm, i),
        decreases experts - expert,
    {
        let rows: u32 = offsets[expert + 1] - offsets[expert];
        let count: usize = div_ceil(rows as usize, bm);
        proof {
            arithmetic::lemma_div_ceil_is_at_most(rows as int, bm as int);
        }
        tile_counts.push(count as u32);
        expert += 1;
    }
    assert(tile_counts@ =~= Seq::new(
        (offsets@.len() - 1) as nat,
        |expert: int| tile_count(offsets@, bm, expert) as u32,
    ));
    tile_counts
}

/// The sum of the first `count` tile counts.
pub open spec fn tiles_before(tile_counts: Seq<u32>, count: int) -> int
    decreases count,
{
    if count <= 0 {
        0
    } else {
        tiles_before(tile_counts, count - 1) + tile_counts[count - 1]
    }
}

proof fn lemma_tiles_before_grows(tile_counts: Seq<u32>, left: int, right: int)
    requires
        0 <= left <= right <= tile_counts.len(),
    ensures
        tiles_before(tile_counts, left) <= tiles_before(tile_counts, right),
    decreases right - left,
{
    if left < right {
        lemma_tiles_before_grows(tile_counts, left, right - 1);
    }
}

/// The first tile of each expert, with the number of all tiles behind them, and that number.
pub fn cpu_tile_scan(tile_counts: &[u32]) -> (scan: (Vec<u32>, u32))
    requires
        tiles_before(tile_counts@, tile_counts@.len() as int) <= u32::MAX,
    ensures
        scan.0@.len() == tile_counts@.len() + 1,
        forall|i: int|
            0 <= i <= tile_counts@.len() ==> #[trigger] scan.0@[i] == tiles_before(tile_counts@, i),
        scan.1 == tiles_before(tile_counts@, tile_counts@.len() as int),
{
    let experts: usize = tile_counts.len();
    let mut tile_offsets: Vec<u32> = Vec::new();
    tile_offsets.push(0);
    let mut total: u32 = 0;
    let mut i: usize = 0;
    while i < experts
        invariant
            i <= experts,
            experts == tile_counts@.len(),
            tiles_before(tile_counts@, tile_counts@.len() as int) <= u32::MAX,
            tile_offsets@.len() == i + 1,
            total == tiles_before(tile_counts@, i as int),
            forall|j: int|
                0 <= j <= i ==> #[trigger] tile_offsets@[j] == tiles_before(tile_counts@, j),
        decreases experts - i,
    {
        proof {
            lemma_tiles_before_grows(tile_counts@, i + 1, experts as int);
        }
        total = total + tile_counts[i];
        tile_offsets.push(total);
        i += 1;
    }
    (tile_offsets, total)
}

/// The tiles of an expert hold its rows, and none is empty.
pub proof fn law_tiles_cover_the_rows(offsets: Seq<u32>, bm: usize, expert: int)
    requires
        is_ascending(offsets),
        bm > 0,
        0 <= expert < offsets.len() - 1,
    ensures
        ({
            let rows = offsets[expert + 1] - offsets[expert];
            let tiles = tile_count(offsets, bm, expert);
            &&& rows <= tiles * bm
            &&& tiles > 0 ==> (tiles - 1) * bm < rows
        }),
{
    let rows = offsets[expert + 1] - offsets[expert];
    let tiles = tile_count(offsets, bm, expert);
    vstd::arithmetic::div_mod::lemma_fundamental_div_mod(rows + bm - 1, bm as int);
    assert(tiles * bm == bm * tiles) by (nonlinear_arith);
    assert((tiles - 1) * bm == bm * tiles - bm) by (nonlinear_arith);
}

/// Each tile belongs to one expert: an expert's first tile is the one behind the last tile of the
/// expert before it.
pub proof fn law_scan_partitions_the_tiles(tile_counts: Seq<u32>, expert: int)
    requires
        0 <= expert < tile_counts.len(),
    ensures
        tiles_before(tile_counts, expert + 1) == tiles_before(tile_counts, expert)
            + tile_counts[expert],
        0 <= tiles_before(tile_counts, expert) <= tiles_before(
            tile_counts,
            tile_counts.len() as int,
        ),
{
    lemma_tiles_before_grows(tile_counts, 0, expert);
    lemma_tiles_before_grows(tile_counts, expert, tile_counts.len() as int);
}

/// Every expert's tiles hold its rows, and without the last of them they would not.
pub proof fn law_counted_tiles_hold_the_rows(
    offsets: &[u32],
    bm: usize,
    tile_counts: Vec<u32>,
    expert: int,
)
    requires
        is_ascending(offsets@),
        bm > 0,
        0 <= expert < offsets@.len() - 1,
        call_ensures(cpu_tile_counts, (offsets, bm), tile_counts),
    ensures
        tile_counts@.len() + 1 == offsets@.len(),
        tile_counts@[expert] * bm >= offsets@[expert + 1] - offsets@[expert],
        tile_counts@[expert] > 0 ==> (tile_counts@[expert] - 1) * bm < offsets@[expert + 1]
            - offsets@[expert],
        offsets@[expert + 1] == offsets@[expert] ==> tile_counts@[expert] == 0,
{
    law_tiles_cover_the_rows(offsets@, bm, expert);
    if offsets@[expert + 1] == offsets@[expert] && tile_counts@[expert] > 0 {
        assert((tile_counts@[expert] - 1) * bm >= 0) by (nonlinear_arith)
            requires
                tile_counts@[expert] > 0,
        ;
    }
}

/// The first tile is that of the first expert, each expert's tiles follow those of the one before, and
/// the number of all tiles stands behind them.
pub proof fn law_scanned_tiles_follow_each_other(
    tile_counts: &[u32],
    scan: (Vec<u32>, u32),
    expert: int,
)
    requires
        0 <= expert < tile_counts@.len(),
        call_ensures(cpu_tile_scan, (tile_counts,), scan),
    ensures
        scan.0@.len() == tile_counts@.len() + 1,
        scan.0@[0] == 0,
        scan.0@[expert + 1] - scan.0@[expert] == tile_counts@[expert],
        scan.0@.last() == scan.1,
{
    assert(scan.0@[expert + 1] == tiles_before(tile_counts@, expert + 1));
    assert(scan.0@[expert] == tiles_before(tile_counts@, expert));
    assert(scan.0@[0] == tiles_before(tile_counts@, 0));
}

} // verus!
