//! The rules of Smart Block, a puzzle in which the player throws a block at a grid of
//! blocks to eliminate those of its category.
//!
//! The rules work on plain values: positions in whole grid units, times in nanoseconds,
//! blocks named by an integer. Whoever draws the game and reads the input keeps the
//! blocks, calls the rules once per frame with the time that has passed, and shows what
//! they decided.
//!
//! - [`point`], [`timer`], [`state`], [`constants`]: the values that the rules share.
//! - [`spatial`]: the point index behind every collision test.
//! - [`world`], [`stage`]: what a stage starts with.
//! - [`player`], [`block`], [`collision`]: the throw, from the player's intent to the
//!   return of the hand block.
//! - [`fall`]: the settling of the grid after an elimination.
//! - [`evaluator`]: whether the player can still match anything, and what follows if not.
//! - [`score`], [`settlement`]: points, countdown and the end of a stage.
//! - [`arrow`], [`animation`]: hints and poses.

pub mod animation;
pub mod arrow;
pub mod block;
pub mod collision;
pub mod constants;
pub mod evaluator;
pub mod fall;
pub mod player;
pub mod point;
pub mod score;
pub mod settlement;
pub mod spatial;
pub mod stage;
pub mod state;
pub mod timer;
pub mod world;
