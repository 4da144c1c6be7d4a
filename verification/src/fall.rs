//! Settling: the blocks above eliminated cells fall into the gaps.

use vstd::prelude::*;
use crate::block::{Block, RemoveBlock, RemoveBlockResource};
use crate::constants::STEP_SIZE;
use crate::point::{clamp_coord, shift_coord, step_distance, Point};
use crate::state::BlockGroupState;
use crate::timer::Timer;

verus! {

/// The test for the eliminated cells that lie in the column of `b`, at its height or below.
pub open spec fn lies_beneath(b: Block) -> spec_fn(RemoveBlock) -> bool {
    |r: RemoveBlock| r.pos.x == b.translation.x && b.translation.y >= r.pos.y
}

/// The number of steps that `b` has to fall: one for each eliminated cell beneath it.
pub open spec fn drops(batch: Seq<RemoveBlock>, b: Block) -> nat {
    batch.filter(lies_beneath(b)).len()
}

/// The block with its resting place lowered by its drops. An eliminated block stays.
pub open spec fn lowered(batch: Seq<RemoveBlock>, b: Block) -> Block {
    if b.show {
        Block {
            pos: Point { x: b.pos.x, y: clamp_coord(b.pos.y - drops(batch, b) * STEP_SIZE) },
            ..b
        }
    } else {
        b
    }
}

/// A height on the way from `shown` to `target`: the distance left shrinks as the time
/// left does, from `before` to `after`.
pub open spec fn approach(target: i32, shown: i32, before: u64, after: u64) -> i32 {
    let left = if after > before {
        before
    } else {
        after
    };
    if before == 0 {
        target
    } else if shown >= target {
        (target + (shown - target) * left / (before as int)) as i32
    } else {
        (target - (target - shown) * left / (before as int)) as i32
    }
}

/// The block displayed further on its way to its resting place, and at that place when
/// the fall is `finished`. An eliminated block stays.
pub open spec fn slid(b: Block, before: u64, after: u64, finished: bool) -> Block {
    if !b.show {
        b
    } else if finished {
        Block { translation: Point { x: b.translation.x, y: b.pos.y }, ..b }
    } else {
        Block {
            translation: Point {
                x: b.translation.x,
                y: approach(b.pos.y, b.translation.y, before, after),
            },
            ..b
        }
    }
}

/// What a fall works on.
pub struct FallState {
    pub batch: Option<Seq<RemoveBlock>>,
    pub timer: Timer,
    pub falling: bool,
    pub blocks: Seq<Block>,
}

/// The state that a batch resource and a board make up.
pub open spec fn fall_state(resource: RemoveBlockResource, blocks: Seq<Block>) -> FallState {
    FallState {
        batch: resource.batch(),
        timer: resource.fall_down_timer,
        falling: resource.falling,
        blocks,
    }
}

/// One block after `delta` more nanoseconds of a fall.
pub open spec fn fall_step_block(s: FallState, delta: u64, b: Block) -> Block {
    let timer = s.timer.ticked(delta);
    slid(
        if s.falling {
            b
        } else {
            lowered(s.batch.unwrap(), b)
        },
        s.timer.spec_remaining(),
        timer.spec_remaining(),
        timer.finished,
    )
}

/// The state after `delta` more nanoseconds.
///
/// Without a batch nothing moves. With one, the first step lowers the resting place of
/// every visible block by its drops; every step moves the blocks on; the step on which the
/// timer finishes puts them to rest, drops the batch and rewinds the timer.
pub open spec fn fall_step(s: FallState, delta: u64) -> FallState {
    if s.batch is None {
        s
    } else {
        let timer = s.timer.ticked(delta);
        FallState {
            batch: if timer.finished {
                None
            } else {
                s.batch
            },
            timer: if timer.finished {
                timer.rewound()
            } else {
                timer
            },
            falling: !timer.finished,
            blocks: Seq::new(s.blocks.len(), |i: int| fall_step_block(s, delta, s.blocks[i])),
        }
    }
}

/// The state after a run of steps.
pub open spec fn fall_run(s: FallState, deltas: Seq<u64>) -> FallState
    decreases deltas.len(),
{
    if deltas.len() == 0 {
        s
    } else {
        fall_run(fall_step(s, deltas[0]), deltas.drop_first())
    }
}

fn count_drops(batch: &Vec<RemoveBlock>, b: &Block) -> (n: usize)
    ensures
        n == drops(batch@, *b),
{
    let mut n: usize = 0;
    let mut j: usize = 0;
    while j < batch.len()
        invariant
            j <= batch.len(),
            n <= j,
            n == drops(batch@.take(j as int), *b),
        decreases batch.len() - j,
    {
        let r = batch[j];
        proof {
            assert(batch@.take(j + 1) =~= batch@.take(j as int).push(r));
            batch@.take(j as int).lemma_filter_push(r, lies_beneath(*b));
        }
        if r.pos.x == b.translation.x && b.translation.y >= r.pos.y {
            n += 1;
        }
        j += 1;
    }
    assert(batch@.take(batch.len() as int) =~= batch@);
    n
}

fn approach_height(target: i32, shown: i32, before: u64, after: u64) -> (y: i32)
    ensures
        y == approach(target, shown, before, after),
{
    let left: i128 = if after > before {
        before as i128
    } else {
        after as i128
    };
    if before == 0 {
        return target;
    }
    let whole: i128 = before as i128;
    if shown >= target {
        let gap: i128 = shown as i128 - target as i128;
        assert(0 <= gap * left <= gap * whole && gap * whole <= 0x1_0000_0000
            * 0x1_0000_0000_0000_0000) by (nonlinear_arith)
            requires
                0 <= gap < 0x1_0000_0000,
                0 <= left <= whole < 0x1_0000_0000_0000_0000,
        ;
        assert(0 <= gap * left / (whole as int) <= gap) by (nonlinear_arith)
            requires
                0 <= gap * left <= gap * whole,
                whole > 0,
        ;
        (target as i128 + gap * left / whole) as i32
    } else {
        let gap: i128 = target as i128 - shown as i128;
        assert(0 <= gap * left <= gap * whole && gap * whole <= 0x1_0000_0000
            * 0x1_0000_0000_0000_0000) by (nonlinear_arith)
            requires
                0 <= gap < 0x1_0000_0000,
                0 <= left <= whole < 0x1_0000_0000_0000_0000,
        ;
        assert(0 <= gap * left / (whole as int) <= gap) by (nonlinear_arith)
            requires
                0 <= gap * left <= gap * whole,
                whole > 0,
        ;
        (target as i128 - gap * left / whole) as i32
    }
}

/// Advances the fall of the blocks above the eliminated batch by `delta` nanoseconds.
///
/// The board keeps its blocks and their order; what becomes of each block and of the
/// batch is `fall_step`. The fall ends, and the blocks rest again, on the step on which
/// the timer finishes.
pub fn handle_block_fall_down(
    delta: u64,
    remove_block_resource: &mut RemoveBlockResource,
    blocks: &mut Vec<Block>,
) -> (next: Option<BlockGroupState>)
    ensures
        fall_state(*final(remove_block_resource), final(blocks)@) == fall_step(
            fall_state(*old(remove_block_resource), old(blocks)@),
            delta,
        ),
        old(remove_block_resource).blocks is None ==> *final(remove_block_resource) == *old(
            remove_block_resource,
        ),
        old(remove_block_resource).blocks is Some && final(remove_block_resource).blocks is Some
            ==> final(remove_block_resource).blocks == old(remove_block_resource).blocks,
        next == if old(remove_block_resource).blocks is Some && old(
            remove_block_resource,
        ).fall_down_timer.ticked(delta).finished {
            Some(BlockGroupState::Static)
        } else {
            None
        },
{
    let ghost start = fall_state(*remove_block_resource, blocks@);
    if remove_block_resource.blocks.is_none() {
        return None;
    }
    let before: u64 = remove_block_resource.fall_down_timer.remaining();
    let was_falling: bool = remove_block_resource.falling;
    remove_block_resource.fall_down_timer.tick(delta);
    let after: u64 = remove_block_resource.fall_down_timer.remaining();
    let finished: bool = remove_block_resource.fall_down_timer.finished();

    let mut i: usize = 0;
    while i < blocks.len()
        invariant
            i <= blocks.len(),
            blocks.len() == start.blocks.len(),
            remove_block_resource.blocks is Some,
            remove_block_resource.batch() == start.batch,
            remove_block_resource.blocks == old(remove_block_resource).blocks,
            remove_block_resource.fall_down_timer == start.timer.ticked(delta),
            was_falling == start.falling,
            before == start.timer.spec_remaining(),
            after == start.timer.ticked(delta).spec_remaining(),
            finished == start.timer.ticked(delta).finished,
            forall|k: int|
                0 <= k < i ==> blocks[k] == fall_step_block(start, delta, start.blocks[k]),
            forall|k: int| i <= k < blocks.len() ==> blocks[k] == start.blocks[k],
        decreases blocks.len() - i,
    {
        let mut b = blocks[i];
        if b.show {
            if !was_falling {
                let n = match &remove_block_resource.blocks {
                    Some(batch) => count_drops(batch, &b),
                    None => 0,
                };
                b.pos.y = shift_coord(b.pos.y, -step_distance(n));
            }
            b.translation.y = if finished {
                b.pos.y
            } else {
                approach_height(b.pos.y, b.translation.y, before, after)
            };
        }
        blocks.set(i, b);
        i += 1;
    }
    let next = if finished {
        remove_block_resource.fall_down_timer.reset();
        remove_block_resource.blocks = None;
        remove_block_resource.falling = false;
        Some(BlockGroupState::Static)
    } else {
        remove_block_resource.falling = true;
        None
    };
    proof {
        assert(blocks@ =~= fall_step(start, delta).blocks);
    }
    next
}

/// Once a fall has ended, further steps change nothing.
pub proof fn lemma_rest_is_kept(s: FallState, deltas: Seq<u64>)
    requires
        s.batch is None,
    ensures
        fall_run(s, deltas) == s,
    decreases deltas.len(),
{
    if deltas.len() > 0 {
        lemma_rest_is_kept(s, deltas.drop_first());
    }
}

/// A visible block that is falling ends at the resting place it has, when the fall ends.
pub proof fn lemma_fall_ends_at_rest(s: FallState, deltas: Seq<u64>, i: int)
    requires
        s.batch is Some,
        s.falling,
        0 <= i < s.blocks.len(),
        s.blocks[i].show,
        fall_run(s, deltas).batch is None,
    ensures
        fall_run(s, deltas).blocks.len() == s.blocks.len(),
        fall_run(s, deltas).blocks[i] == (Block {
            translation: Point { x: s.blocks[i].translation.x, y: s.blocks[i].pos.y },
            ..s.blocks[i]
        }),
    decreases deltas.len(),
{
    if deltas.len() > 0 {
        let next = fall_step(s, deltas[0]);
        if next.batch is None {
            lemma_rest_is_kept(next, deltas.drop_first());
        } else {
            lemma_fall_ends_at_rest(next, deltas.drop_first(), i);
        }
    }
}

/// A visible block at rest above `k` eliminated cells of its column rests exactly `k`
/// steps lower once the fall has ended, however the time of the fall was cut into steps.
/// Nothing else about the block changes.
pub proof fn lemma_fall_lands_exactly(s: FallState, deltas: Seq<u64>, i: int)
    requires
        s.batch is Some,
        !s.falling,
        0 <= i < s.blocks.len(),
        s.blocks[i].show,
        s.blocks[i].translation == s.blocks[i].pos,
        s.blocks[i].pos.y - drops(s.batch.unwrap(), s.blocks[i]) * STEP_SIZE >= i32::MIN,
        fall_run(s, deltas).batch is None,
    ensures
        fall_run(s, deltas).blocks.len() == s.blocks.len(),
        fall_run(s, deltas).blocks[i] == (Block {
            pos: Point {
                x: s.blocks[i].pos.x,
                y: (s.blocks[i].pos.y - drops(s.batch.unwrap(), s.blocks[i]) * STEP_SIZE) as i32,
            },
            translation: Point {
                x: s.blocks[i].pos.x,
                y: (s.blocks[i].pos.y - drops(s.batch.unwrap(), s.blocks[i]) * STEP_SIZE) as i32,
            },
            ..s.blocks[i]
        }),
{
    if deltas.len() > 0 {
        let next = fall_step(s, deltas[0]);
        if next.batch is None {
            lemma_rest_is_kept(next, deltas.drop_first());
        } else {
            lemma_fall_ends_at_rest(next, deltas.drop_first(), i);
        }
    }
}

} // verus!
