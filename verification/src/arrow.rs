//! The arrow that shows the player where a throw would land.

use vstd::prelude::*;
use crate::block::{Block, Direction};
use crate::constants::STEP_SIZE;
use crate::evaluator::{
    column_top, drop_column, find_column_top, find_row_front, find_wall_front, row_front,
};
use crate::point::{clamp_coord, shift_coord, Point};
use crate::spatial::Collidable;

verus! {

/// Where the arrow stands and where it points.
#[derive(Debug, Clone, Copy, PartialEq, Eq, Structural, Hash)]
pub struct Arrow {
    pub translation: Point,
    pub direction: Direction,
}

/// The arrow for a player at height `y`.
///
/// Where the row holds a block, the arrow stands one step right of the block that faces
/// the player and points left. In an empty row it stands one step above the top of the
/// column along the wall and points down. Without blocks or walls, and where the column is
/// empty too, there is no arrow.
pub open spec fn arrow_for(blocks: Seq<Block>, walls: Seq<Collidable>, y: i32) -> Option<Arrow> {
    if blocks.len() == 0 || walls.len() == 0 {
        None
    } else {
        match row_front(blocks, y) {
            Some(x) => Some(
                Arrow {
                    translation: Point { x: clamp_coord(x + STEP_SIZE), y },
                    direction: Direction::Left,
                },
            ),
            None => match column_top(blocks, drop_column(walls, y)) {
                Some(top) => Some(
                    Arrow {
                        translation: Point {
                            x: drop_column(walls, y),
                            y: clamp_coord(top + STEP_SIZE),
                        },
                        direction: Direction::Down,
                    },
                ),
                None => None,
            },
        }
    }
}

/// Places the arrow for the player.
pub fn update_arrow(player: &Point, blocks: &Vec<Block>, walls: &Vec<Collidable>) -> (arrow: Option<
    Arrow,
>)
    ensures
        arrow == arrow_for(blocks@, walls@, player.y),
{
    if blocks.len() == 0 || walls.len() == 0 {
        return None;
    }
    let base_y = player.y;
    match find_row_front(blocks, base_y) {
        Some(x) => Some(
            Arrow {
                translation: Point { x: shift_coord(x, STEP_SIZE as i64), y: base_y },
                direction: Direction::Left,
            },
        ),
        None => {
            let base_x: i32 = match find_wall_front(walls, base_y) {
                Some(x) => x + STEP_SIZE,
                None => 0,
            };
            match find_column_top(blocks, base_x) {
                Some(top) => Some(
                    Arrow {
                        translation: Point { x: base_x, y: shift_coord(top, STEP_SIZE as i64) },
                        direction: Direction::Down,
                    },
                ),
                None => None,
            }
        },
    }
}

} // verus!
