//! Stages: their number and the blocks that each one starts with.

use vstd::prelude::*;
use crate::block::Block;
use crate::constants::{
    BLOCK_DISPLAY_MAX, BLOCK_DISPLAY_MIN, BLOCK_INIT_POS, NANOS_PER_SEC, STEP_SIZE,
};
use crate::point::{clamp_coord, shift_coord, step_distance, Point};
use crate::timer::{Timer, TimerMode};

verus! {

/// The number of the stage being played, from 1.
#[derive(Debug, Clone, Copy, PartialEq, Eq, Structural, Hash)]
pub struct Stage(pub usize);

impl Default for Stage {
    fn default() -> (s: Self)
        ensures
            s == Stage(1),
    {
        Stage(1)
    }
}

/// Time for which the banner of a new stage stays on screen.
#[derive(Debug, Clone, Copy, PartialEq, Eq, Structural, Hash)]
pub struct DespawnStageTextTimer(pub Timer);

impl Default for DespawnStageTextTimer {
    fn default() -> (t: Self)
        ensures
            t.0 == (Timer {
                duration: (2 * NANOS_PER_SEC) as u64,
                elapsed: 0,
                mode: TimerMode::Repeating,
                finished: false,
                times_finished_this_tick: 0,
            }),
    {
        DespawnStageTextTimer(Timer::from_seconds(2, TimerMode::Repeating))
    }
}

/// Advances the banner's timer and tells whether the banner is to be taken down now.
pub fn despawn_stage_text(delta: u64, timer: &mut DespawnStageTextTimer) -> (despawn: bool)
    ensures
        final(timer).0 == old(timer).0.ticked(delta),
        despawn == final(timer).0.just_finished(),
{
    timer.0.tick(delta);
    timer.0.just_finished()
}

/// The random draws that one row of a block group is dealt from.
#[derive(Debug, Clone, Copy, PartialEq, Eq, Structural, Hash)]
pub struct RowDraw {
    /// Fills the row above, from its third column on.
    pub index: usize,
    /// Fills the bottom row from its third column on; unused in the rows above.
    pub other_index: usize,
    /// The first column.
    pub first: usize,
    /// The second column.
    pub second: usize,
}

/// The category dealt to column `j` of row `i`, rows counted in the order of their draws.
///
/// The first two columns of a row have draws of their own. The rest of a row is one run
/// of a single category.
pub open spec fn dealt(draws: Seq<RowDraw>, i: int, j: int) -> usize {
    if j == 0 {
        draws[i].first
    } else if j == 1 {
        draws[i].second
    } else if i == 0 {
        draws[0].other_index
    } else {
        draws[i - 1].index
    }
}

/// `rand::Rng::gen_range` on `rand::thread_rng()`, over an inclusive range: the result
/// lies in the range. Nothing else is known of it.
#[verifier::external_body]
fn random_index(low: usize, high: usize) -> (r: usize)
    requires
        low <= high,
    ensures
        low <= r <= high,
{
    rand::Rng::gen_range(&mut rand::thread_rng(), low..=high)
}

/// Deals the rows of a block group from `draws`, `col` columns each. The row of the last
/// draw comes first.
pub fn arrange_block_group(col: usize, draws: &Vec<RowDraw>) -> (group: Vec<Vec<usize>>)
    ensures
        group.len() == draws.len(),
        forall|r: int| 0 <= r < group.len() ==> (#[trigger] group[r]).len() == col,
        forall|r: int, c: int|
            0 <= r < group.len() && 0 <= c < col ==> #[trigger] group[r][c] == dealt(
                draws@,
                draws.len() - 1 - r,
                c,
            ),
{
    let row = draws.len();
    let mut block_group: Vec<Vec<usize>> = Vec::new();
    let mut r: usize = 0;
    while r < row
        invariant
            row == draws.len(),
            r <= row,
            block_group.len() == r,
            forall|k: int| 0 <= k < r ==> (#[trigger] block_group[k]).len() == col,
            forall|k: int, c: int|
                0 <= k < r && 0 <= c < col ==> #[trigger] block_group[k][c] == dealt(
                    draws@,
                    row - 1 - k,
                    c,
                ),
        decreases row - r,
    {
        let i: usize = row - 1 - r;
        let fill: usize = if i == 0 {
            draws[0].other_index
        } else {
            draws[i - 1].index
        };
        let mut cells: Vec<usize> = Vec::new();
        let mut j: usize = 0;
        while j < col
            invariant
                j <= col,
                i < draws.len(),
                cells.len() == j,
                fill == if i == 0 {
                    draws[0].other_index
                } else {
                    draws[i - 1].index
                },
                forall|c: int| 0 <= c < j ==> #[trigger] cells[c] == dealt(draws@, i as int, c),
            decreases col - j,
        {
            if j == 0 {
                cells.push(draws[i].first);
            } else if j == 1 {
                cells.push(draws[i].second);
            } else {
                cells.push(fill);
            }
            j += 1;
        }
        block_group.push(cells);
        r += 1;
    }
    block_group
}

/// Deals a random block group of `row` rows and `col` columns.
///
/// Whatever is drawn, every category lies in the range of the block categories, and each
/// row holds one single category from its third column on.
pub fn create_block(row: usize, col: usize) -> (group: Vec<Vec<usize>>)
    ensures
        group.len() == row,
        forall|r: int| 0 <= r < row ==> (#[trigger] group[r]).len() == col,
        forall|r: int, c: int|
            0 <= r < row && 0 <= c < col ==> BLOCK_DISPLAY_MIN <= #[trigger] group[r][c]
                <= BLOCK_DISPLAY_MAX,
        forall|r: int, c: int|
            0 <= r < row && 2 <= c < col ==> #[trigger] group[r][c] == group[r][2],
{
    let mut draws: Vec<RowDraw> = Vec::new();
    let mut i: usize = 0;
    while i < row
        invariant
            i <= row,
            draws.len() == i,
            forall|k: int|
                0 <= k < i ==> {
                    &&& BLOCK_DISPLAY_MIN <= (#[trigger] draws[k]).index <= BLOCK_DISPLAY_MAX
                    &&& BLOCK_DISPLAY_MIN <= draws[k].other_index <= BLOCK_DISPLAY_MAX
                    &&& BLOCK_DISPLAY_MIN <= draws[k].first <= BLOCK_DISPLAY_MAX
                    &&& BLOCK_DISPLAY_MIN <= draws[k].second <= BLOCK_DISPLAY_MAX
                },
        decreases row - i,
    {
        let index = random_index(BLOCK_DISPLAY_MIN, BLOCK_DISPLAY_MAX);
        let other_index = random_index(BLOCK_DISPLAY_MIN, BLOCK_DISPLAY_MAX);
        let first = random_index(BLOCK_DISPLAY_MIN, BLOCK_DISPLAY_MAX);
        let second = random_index(BLOCK_DISPLAY_MIN, BLOCK_DISPLAY_MAX);
        draws.push(RowDraw { index, other_index, first, second });
        i += 1;
    }
    let group = arrange_block_group(col, &draws);
    proof {
        assert forall|r: int, c: int| 0 <= r < row && 0 <= c < col implies BLOCK_DISPLAY_MIN
            <= #[trigger] group[r][c] <= BLOCK_DISPLAY_MAX by {
            let k = row - 1 - r;
            assert(group[r][c] == dealt(draws@, k, c));
            assert(BLOCK_DISPLAY_MIN <= draws[k].index);
            if k > 0 {
                assert(BLOCK_DISPLAY_MIN <= draws[k - 1].index);
            }
            assert(BLOCK_DISPLAY_MIN <= draws[0].index);
        }
        assert forall|r: int, c: int| 0 <= r < row && 2 <= c < col implies #[trigger] group[r][c]
            == group[r][2] by {
            assert(group[r][c] == dealt(draws@, row - 1 - r, c));
            assert(group[r][2] == dealt(draws@, row - 1 - r, 2));
        }
    }
    group
}

/// Where the cell in column `pos_x` of row `pos_y` of a block group stands on the field.
pub open spec fn group_cell(pos_x: int, pos_y: int) -> Point {
    Point {
        x: clamp_coord(BLOCK_INIT_POS.0 + pos_x * STEP_SIZE),
        y: clamp_coord(BLOCK_INIT_POS.1 + pos_y * STEP_SIZE),
    }
}

/// The blocks of the first `n` cells of row `pos_y`, numbered from `first_entity`. A cell
/// of category 0 is empty.
pub open spec fn row_blocks(cells: Seq<usize>, n: int, pos_y: int, first_entity: int) -> Seq<Block>
    decreases n,
{
    if n <= 0 {
        Seq::empty()
    } else {
        let before = row_blocks(cells, n - 1, pos_y, first_entity);
        if cells[n - 1] > 0 {
            before.push(
                Block {
                    entity: (first_entity + before.len()) as u64,
                    show: true,
                    pos: group_cell(n - 1, pos_y),
                    translation: group_cell(n - 1, pos_y),
                    index: cells[n - 1],
                },
            )
        } else {
            before
        }
    }
}

/// The blocks of the first `n` rows of a group, bottom row first, each row from the left,
/// numbered from 0 in that order.
pub open spec fn group_blocks(group: Seq<Vec<usize>>, n: int) -> Seq<Block>
    decreases n,
{
    if n <= 0 {
        Seq::empty()
    } else {
        let before = group_blocks(group, n - 1);
        before + row_blocks(group[n - 1]@, group[n - 1]@.len() as int, n - 1, before.len() as int)
    }
}

/// Places the blocks of a group on the field: the first row at the bottom, each block one
/// step from its neighbours, all visible and at rest.
pub fn layout_block_group(group: &Vec<Vec<usize>>) -> (blocks: Vec<Block>)
    ensures
        blocks@ == group_blocks(group@, group.len() as int),
{
    let mut blocks: Vec<Block> = Vec::new();
    let mut pos_y: usize = 0;
    while pos_y < group.len()
        invariant
            pos_y <= group.len(),
            blocks@ == group_blocks(group@, pos_y as int),
        decreases group.len() - pos_y,
    {
        let ghost before = blocks@;
        let cells = &group[pos_y];
        let mut pos_x: usize = 0;
        while pos_x < cells.len()
            invariant
                pos_x <= cells.len(),
                pos_y < group.len(),
                cells == &group[pos_y as int],
                blocks@ == before + row_blocks(
                    cells@,
                    pos_x as int,
                    pos_y as int,
                    before.len() as int,
                ),
            decreases cells.len() - pos_x,
        {
            let index = cells[pos_x];
            if index > 0 {
                let ghost row_before = row_blocks(
                    cells@,
                    pos_x as int,
                    pos_y as int,
                    before.len() as int,
                );
                assert(before.len() + row_before.len() == blocks.len());
                let x = shift_coord(BLOCK_INIT_POS.0, step_distance(pos_x));
                let y = shift_coord(BLOCK_INIT_POS.1, step_distance(pos_y));
                let block = Block::new(blocks.len() as u64, Point { x, y }, index);
                blocks.push(block);
                assert(blocks@ =~= before + row_before.push(block));
            }
            pos_x += 1;
        }
        pos_y += 1;
    }
    blocks
}

/// Deals the blocks of a new stage: a random group of four rows and five columns, placed
/// on the field.
pub fn create_block_group() -> (blocks: Vec<Block>)
    ensures
        blocks.len() == 20,
        forall|k: int|
            0 <= k < 20 ==> #[trigger] blocks[k] == (Block {
                entity: k as u64,
                show: true,
                pos: group_cell(k % 5, k / 5),
                translation: group_cell(k % 5, k / 5),
                index: blocks[k].index,
            }),
        forall|k: int|
            0 <= k < 20 ==> BLOCK_DISPLAY_MIN <= (#[trigger] blocks[k]).index <= BLOCK_DISPLAY_MAX,
        forall|k: int|
            0 <= k < 20 && k % 5 >= 2 ==> (#[trigger] blocks[k]).index == blocks[k - k % 5
                + 2].index,
{
    let group = create_block(4, 5);
    let blocks = layout_block_group(&group);
    proof {
        lemma_full_group(group@, 4);
        assert forall|k: int| 0 <= k < 20 implies {
            &&& (#[trigger] blocks[k]).entity == k
            &&& blocks[k].show
            &&& blocks[k].pos == group_cell(k % 5, k / 5)
            &&& blocks[k].translation == group_cell(k % 5, k / 5)
            &&& blocks[k].index == group[k / 5][k % 5]
        } by {
            let r = k / 5;
            let c = k % 5;
            assert(blocks[k] == group_blocks(group@, 4)[5 * r + c]);
        }
        assert forall|k: int| 0 <= k < 20 && k % 5 >= 2 implies (#[trigger] blocks[k]).index
            == blocks[k - k % 5 + 2].index by {
            let r = k / 5;
            let c = k % 5;
            let m = k - k % 5 + 2;
            assert(m / 5 == r && m % 5 == 2);
            assert(blocks[m].index == group[r][2]);
            assert(blocks[k].index == group[r][c]);
        }
    }
    blocks
}

/// In a group of five-wide rows without empty cells, the block of column `c` of row `r` is
/// block number `5 r + c`.
proof fn lemma_full_group(group: Seq<Vec<usize>>, n: int)
    requires
        0 <= n <= group.len(),
        forall|r: int| 0 <= r < group.len() ==> (#[trigger] group[r]).len() == 5,
        forall|r: int, c: int| 0 <= r < group.len() && 0 <= c < 5 ==> #[trigger] group[r][c] > 0,
    ensures
        group_blocks(group, n).len() == 5 * n,
        forall|r: int, c: int|
            0 <= r < n && 0 <= c < 5 ==> #[trigger] group_blocks(group, n)[5 * r + c] == (Block {
                entity: (5 * r + c) as u64,
                show: true,
                pos: group_cell(c, r),
                translation: group_cell(c, r),
                index: group[r][c],
            }),
    decreases n,
{
    if n > 0 {
        lemma_full_group(group, n - 1);
        let before = group_blocks(group, n - 1);
        let cells = group[n - 1]@;
        lemma_full_row(cells, 5, n - 1, before.len() as int);
        let row = row_blocks(cells, 5, n - 1, before.len() as int);
        assert(group_blocks(group, n) == before + row);
        assert forall|r: int, c: int| 0 <= r < n && 0 <= c < 5 implies #[trigger] group_blocks(
            group,
            n,
        )[5 * r + c] == (Block {
            entity: (5 * r + c) as u64,
            show: true,
            pos: group_cell(c, r),
            translation: group_cell(c, r),
            index: group[r][c],
        }) by {
            if r < n - 1 {
                assert(group_blocks(group, n)[5 * r + c] == before[5 * r + c]);
            } else {
                assert(group_blocks(group, n)[5 * r + c] == row[c]);
            }
        }
    }
}

/// In a row without empty cells, the block of column `c` is block number `c` of the row.
proof fn lemma_full_row(cells: Seq<usize>, n: int, pos_y: int, first_entity: int)
    requires
        0 <= n <= cells.len(),
        forall|c: int| 0 <= c < cells.len() ==> #[trigger] cells[c] > 0,
    ensures
        row_blocks(cells, n, pos_y, first_entity).len() == n,
        forall|c: int|
            0 <= c < n ==> #[trigger] row_blocks(cells, n, pos_y, first_entity)[c] == (Block {
                entity: (first_entity + c) as u64,
                show: true,
                pos: group_cell(c, pos_y),
                translation: group_cell(c, pos_y),
                index: cells[c],
            }),
    decreases n,
{
    if n > 0 {
        lemma_full_row(cells, n - 1, pos_y, first_entity);
    }
}

} // verus!
