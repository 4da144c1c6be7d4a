//! The blocks of the grid and the block in the player's hand.

use vstd::prelude::*;
use crate::constants::{
    FALL_DOWN_TIMER, HAND_BLOCK_INDEX, HAND_BLOCK_SPEED, PLAYER_INIT_POS, STEP_SIZE,
};
use crate::point::{clamp_coord, shift_coord, travel_offset, way_carried, way_covered, Point};
use crate::score::Score;
use crate::state::BlockGroupState;
use crate::timer::{Timer, TimerMode};

verus! {

/// One block of the grid.
#[derive(Debug, Clone, Copy, PartialEq, Eq, Structural, Hash)]
pub struct Block {
    /// By which the block is found again.
    pub entity: u64,
    /// Cleared once the block is eliminated; it then awaits its removal.
    pub show: bool,
    /// Where the block rests, or will rest once it has fallen.
    pub pos: Point,
    /// Where the block is displayed.
    pub translation: Point,
    /// The match category.
    pub index: usize,
}

impl Block {
    /// A visible block at rest at `pos`.
    pub fn new(entity: u64, pos: Point, index: usize) -> (b: Block)
        ensures
            b == (Block { entity, show: true, pos, translation: pos, index }),
    {
        Block { entity, show: true, pos, translation: pos, index }
    }
}

/// Where a thrown hand block is heading: left until it meets a wall, then down.
#[derive(Debug, Clone, Copy, PartialEq, Eq, Structural, Hash)]
pub enum Direction {
    Left,
    Down,
}

impl Default for Direction {
    fn default() -> (d: Self)
        ensures
            d == Direction::Left,
    {
        Direction::Left
    }
}

/// The block that the player carries and throws.
#[derive(Debug, Clone, Copy, PartialEq, Eq, Structural, Hash)]
pub struct HandBlock {
    /// The match category.
    pub index: usize,
    pub direction: Direction,
    /// Where the hand block is displayed.
    pub translation: Point,
    /// How far a thrown hand block is ahead of where it is displayed, in billionths of a
    /// unit.
    pub carry: u64,
}

impl Default for HandBlock {
    fn default() -> (h: Self)
        ensures
            h == (HandBlock {
                index: HAND_BLOCK_INDEX,
                direction: Direction::Left,
                translation: Point {
                    x: (PLAYER_INIT_POS.0 - STEP_SIZE) as i32,
                    y: PLAYER_INIT_POS.1,
                },
                carry: 0,
            }),
    {
        HandBlock {
            index: HAND_BLOCK_INDEX,
            direction: Direction::default(),
            translation: Point { x: PLAYER_INIT_POS.0 - STEP_SIZE, y: PLAYER_INIT_POS.1 },
            carry: 0,
        }
    }
}

/// The place of an eliminated block.
#[derive(Debug, Clone, Copy, PartialEq, Eq, Structural, Hash)]
pub struct RemoveBlock {
    pub pos: Point,
}

/// The batch of blocks eliminated by one throw, while the blocks above them fall.
#[derive(Debug)]
pub struct RemoveBlockResource {
    pub blocks: Option<Vec<RemoveBlock>>,
    pub fall_down_timer: Timer,
    /// Set once the blocks above the batch have been given their new resting places.
    pub falling: bool,
}

impl Default for RemoveBlockResource {
    fn default() -> (r: Self)
        ensures
            r.blocks is None,
            r.fall_down_timer == (Timer {
                duration: FALL_DOWN_TIMER,
                elapsed: 0,
                mode: TimerMode::Once,
                finished: false,
                times_finished_this_tick: 0,
            }),
            !r.falling,
    {
        RemoveBlockResource {
            blocks: None,
            fall_down_timer: Timer::new(FALL_DOWN_TIMER, TimerMode::Once),
            falling: false,
        }
    }
}

impl RemoveBlockResource {
    /// The places of the batch, if there is one.
    pub open spec fn batch(&self) -> Option<Seq<RemoveBlock>> {
        match self.blocks {
            Some(v) => Some(v@),
            None => None,
        }
    }
}

/// The blocks that stay on the board: the visible ones.
pub open spec fn kept_blocks(blocks: Seq<Block>) -> Seq<Block> {
    blocks.filter(|b: Block| b.show)
}

/// The places that the eliminated blocks leave, in the order of the blocks.
pub open spec fn removed_places(blocks: Seq<Block>) -> Seq<RemoveBlock> {
    blocks.filter(|b: Block| !b.show).map_values(|b: Block| RemoveBlock { pos: b.translation })
}

/// The size of a batch as the score holds it.
pub open spec fn batch_size(n: nat) -> u32 {
    if n > u32::MAX {
        u32::MAX
    } else {
        n as u32
    }
}

/// Takes the eliminated blocks off the board after a throw.
///
/// On a board that holds blocks, the visible blocks stay, in their order. The places of
/// the others form the batch whose size the score is told; a batch that is not empty
/// makes the blocks fall. An empty board is left alone.
pub fn handle_block_remove(
    score: &mut Score,
    remove_block_resource: &mut RemoveBlockResource,
    blocks: &mut Vec<Block>,
) -> (next: Option<BlockGroupState>)
    ensures
        final(blocks)@ == kept_blocks(old(blocks)@),
        final(score).total_score == old(score).total_score,
        final(remove_block_resource).fall_down_timer == old(remove_block_resource).fall_down_timer,
        old(blocks).len() == 0 ==> {
            &&& *final(score) == *old(score)
            &&& *final(remove_block_resource) == *old(remove_block_resource)
            &&& next is None
        },
        old(blocks).len() > 0 ==> {
            &&& final(score).once_remove_block == batch_size(removed_places(old(blocks)@).len())
            &&& !final(remove_block_resource).falling
        },
        old(blocks).len() > 0 && removed_places(old(blocks)@).len() == 0 ==> {
            &&& final(remove_block_resource).blocks is None
            &&& next is None
        },
        old(blocks).len() > 0 && removed_places(old(blocks)@).len() > 0 ==> {
            &&& final(remove_block_resource).batch() == Some(removed_places(old(blocks)@))
            &&& next == Some(BlockGroupState::FallDown)
        },
{
    if blocks.len() == 0 {
        proof {
            reveal(Seq::filter);
        }
        return None;
    }
    let mut kept: Vec<Block> = Vec::new();
    let mut remove_blocks: Vec<RemoveBlock> = Vec::new();
    let mut i: usize = 0;
    while i < blocks.len()
        invariant
            i <= blocks.len(),
            kept@ == kept_blocks(blocks@.take(i as int)),
            remove_blocks@ == removed_places(blocks@.take(i as int)),
        decreases blocks.len() - i,
    {
        let b = blocks[i];
        proof {
            let shown = |b: Block| b.show;
            let hidden = |b: Block| !b.show;
            let place = |b: Block| RemoveBlock { pos: b.translation };
            let head = blocks@.take(i as int);
            assert(blocks@.take(i + 1) =~= head.push(b));
            head.lemma_filter_push(b, shown);
            head.lemma_filter_push(b, hidden);
            assert(head.filter(hidden).push(b).map_values(place) =~= head.filter(
                hidden,
            ).map_values(place).push(place(b)));
        }
        if b.show {
            kept.push(b);
        } else {
            remove_blocks.push(RemoveBlock { pos: b.translation });
        }
        i += 1;
    }
    assert(blocks@.take(blocks.len() as int) =~= blocks@);
    *blocks = kept;
    score.once_remove_block = if remove_blocks.len() > u32::MAX as usize {
        u32::MAX
    } else {
        remove_blocks.len() as u32
    };
    remove_block_resource.falling = false;
    if remove_blocks.len() > 0 {
        remove_block_resource.blocks = Some(remove_blocks);
        Some(BlockGroupState::FallDown)
    } else {
        remove_block_resource.blocks = None;
        None
    }
}

/// The hand block after flying for `delta` nanoseconds in its direction.
pub open spec fn flown(hand_block: HandBlock, delta: u64) -> HandBlock {
    let way = way_covered(HAND_BLOCK_SPEED, delta, hand_block.carry);
    HandBlock {
        translation: match hand_block.direction {
            Direction::Left => Point {
                x: clamp_coord(hand_block.translation.x - way),
                y: hand_block.translation.y,
            },
            Direction::Down => Point {
                x: hand_block.translation.x,
                y: clamp_coord(hand_block.translation.y - way),
            },
        },
        carry: way_carried(HAND_BLOCK_SPEED, delta, hand_block.carry),
        ..hand_block
    }
}

/// Moves a thrown hand block on by `delta` nanoseconds.
pub fn handle_hand_block_move(delta: u64, hand_block: &mut HandBlock)
    ensures
        *final(hand_block) == flown(*old(hand_block), delta),
{
    let (way, carry) = travel_offset(HAND_BLOCK_SPEED, delta, hand_block.carry);
    match hand_block.direction {
        Direction::Left => {
            hand_block.translation.x = shift_coord(hand_block.translation.x, -way);
        },
        Direction::Down => {
            hand_block.translation.y = shift_coord(hand_block.translation.y, -way);
        },
    }
    hand_block.carry = carry;
}

/// Keeps an idle hand block at the player's side: exactly one step to the left.
pub fn handle_block_movement(player: &Point, hand_block: &mut HandBlock)
    ensures
        *final(hand_block) == (HandBlock {
            translation: Point { x: clamp_coord(player.x - STEP_SIZE), y: player.y },
            carry: 0,
            ..*old(hand_block)
        }),
{
    hand_block.translation.y = player.y;
    hand_block.translation.x = shift_coord(player.x, -(STEP_SIZE as i64));
    hand_block.carry = 0;
}

/// Turns the hand block back to the left after a throw.
pub fn handle_reset_hand_block(hand_block: &mut HandBlock)
    ensures
        *final(hand_block) == (HandBlock { direction: Direction::Left, ..*old(hand_block) }),
{
    hand_block.direction = Direction::Left;
}

} // verus!
