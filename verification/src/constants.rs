//! Fixed inputs of the game rules.
//!
//! Lengths are whole grid units (one block is `STEP_SIZE` units wide), times are
//! nanoseconds, speeds are units per second.

use vstd::prelude::*;

verus! {

/// Nanoseconds in one second.
pub const NANOS_PER_SEC: u64 = 1_000_000_000;

/// Width of the play field.
pub const WW: i32 = 1200;

/// Height of the play field.
pub const WH: i32 = 720;

/// Spacing of the grid: every block, wall and ground cell sits on a multiple of it.
pub const STEP_SIZE: i32 = 48;

/// Where the player stands when a stage starts: the lowest rung of the ladder.
pub const PLAYER_INIT_POS: (i32, i32) = (240, -288);

/// Number of rungs of the ladder.
pub const LADDER_NUM: usize = 13;

/// Sprite of the aiming arrow.
pub const ARROW_TEXTATLAS_INDEX: usize = 7;

/// Time between two rebuilds of the block index while the hand block is idle.
pub const KD_TREE_REFRESH_RATE: u64 = 200_000_000;

/// Lower left cell of the block group.
pub const BLOCK_INIT_POS: (i32, i32) = (-528, -288);

/// Lowest match category a generated block can have.
pub const BLOCK_DISPLAY_MIN: usize = 8;

/// Highest match category a generated block can have.
pub const BLOCK_DISPLAY_MAX: usize = 11;

/// Speed of a thrown hand block.
pub const HAND_BLOCK_SPEED: u64 = 1280;

/// Category of the hand block at the start of a stage.
pub const HAND_BLOCK_INDEX: usize = 15;

/// Duration of one fall of the blocks above eliminated cells.
pub const FALL_DOWN_TIMER: u64 = 120_000_000;

/// Sprite a leftover block takes just before it is removed at the end of a stage.
pub const BLOCK_BEFORE_REMOVE_INDEX: usize = 14;

/// The wildcard category: it matches whatever it touches first.
pub const LIGHT_BLOCK_INDEX: usize = 15;

/// Points for one block of an elimination batch, before squaring the batch size.
pub const ONEC_BLOCK_SCORE: u32 = 100;

/// Time a bonus score popup stays on screen.
pub const HIGH_SCORE_ANIMATION_DURATION: u64 = 500_000_000;

/// Speed at which a bonus score popup rises.
pub const HIGH_SCORE_ANIMATION_SPEED: u64 = 64;

/// Bonus points for every whole second left on the countdown.
pub const EVERY_SECOND_SCORE: u64 = 100;

/// A stage is cleared once no more than this many blocks are left.
pub const CLEAR_NUM: usize = 4;

/// Seconds on the countdown of a stage.
pub const COUNT_DOWN_SEC: u64 = 180;

/// Reach of the hand block against blocks.
pub const BLOCK_HIT_RADIUS: i32 = 48;

/// Reach of the hand block against walls and ground.
pub const WALL_HIT_RADIUS: i32 = 42;

/// Distance to the player under which a returning hand block has arrived.
pub const BACK_ARRIVE_DISTANCE: i32 = 50;

/// Duration of the return flight of the hand block.
pub const COLLISION_BACK_TIMER: u64 = 333_333_333;

} // verus!
