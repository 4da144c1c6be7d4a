//! Round outcome: which categories the player can still reach, and what follows when the
//! hand block matches none of them.

use vstd::prelude::*;
use std::collections::HashSet;
use crate::block::{Block, HandBlock};
use crate::constants::{LIGHT_BLOCK_INDEX, PLAYER_INIT_POS, STEP_SIZE};
use crate::state::SettlementState;
use crate::point::Point;
use crate::spatial::Collidable;

verus! {

broadcast use vstd::std_specs::hash::group_hash_axioms;

/// What the player is told when the hand block is swapped for a wildcard.
pub const NO_REMOVE_ALERT: &'static str = "Can't Remove\nGive You A LightningBlock.";

/// A request to show a text to the player for a moment.
#[derive(Debug, PartialEq, Eq)]
pub struct AlertEvent(pub Option<String>);

impl AlertEvent {
    /// The text to show, if the request carries one.
    pub open spec fn text(self) -> Option<Seq<char>> {
        match self.0 {
            Some(s) => Some(s@),
            None => None,
        }
    }
}

impl Default for AlertEvent {
    fn default() -> (e: Self)
        ensures
            e.0 is None,
    {
        AlertEvent(None)
    }
}

/// What follows a round in which nothing could be matched.
#[derive(Debug)]
pub struct GameOver {
    /// Set to `Start` when the stage is won.
    pub next_state: Option<SettlementState>,
    /// Set when the player is sent back with a wildcard.
    pub alert: Option<AlertEvent>,
}

/// A visible block displayed at height `y`.
pub open spec fn stands_in_row(b: Block, y: i32) -> bool {
    b.show && b.translation.y == y
}

/// A visible block displayed in column `x`.
pub open spec fn stands_in_column(b: Block, x: i32) -> bool {
    b.show && b.translation.x == x
}

/// A visible block displayed at `p`.
pub open spec fn stands_at(b: Block, p: Point) -> bool {
    b.show && b.translation == p
}

/// A wall at height `y` on the left half of the field.
pub open spec fn is_left_wall(w: Collidable, y: i32) -> bool {
    w.pos.y == y && w.pos.x < 0
}

/// `x` is the column of the block of row `y` that faces the player: the rightmost one.
pub open spec fn is_row_front(blocks: Seq<Block>, y: i32, x: i32) -> bool {
    &&& exists|i: int|
        0 <= i < blocks.len() && stands_in_row(#[trigger] blocks[i], y) && blocks[i].translation.x
            == x
    &&& forall|i: int|
        0 <= i < blocks.len() && stands_in_row(#[trigger] blocks[i], y) ==> blocks[i].translation.x
            <= x
}

/// The column of the block of row `y` that faces the player, if the row holds a block.
pub open spec fn row_front(blocks: Seq<Block>, y: i32) -> Option<i32> {
    if exists|x: i32| is_row_front(blocks, y, x) {
        Some(choose|x: i32| is_row_front(blocks, y, x))
    } else {
        None
    }
}

/// `x` is the column of the innermost left wall at height `y`.
pub open spec fn is_wall_front(walls: Seq<Collidable>, y: i32, x: i32) -> bool {
    &&& exists|i: int|
        0 <= i < walls.len() && is_left_wall(#[trigger] walls[i], y) && walls[i].pos.x == x
    &&& forall|i: int|
        0 <= i < walls.len() && is_left_wall(#[trigger] walls[i], y) ==> walls[i].pos.x <= x
}

/// The column of the innermost left wall at height `y`, if there is a left wall there.
pub open spec fn wall_front(walls: Seq<Collidable>, y: i32) -> Option<i32> {
    if exists|x: i32| is_wall_front(walls, y, x) {
        Some(choose|x: i32| is_wall_front(walls, y, x))
    } else {
        None
    }
}

/// `y` is the height of the topmost block of column `x`.
pub open spec fn is_column_top(blocks: Seq<Block>, x: i32, y: i32) -> bool {
    &&& exists|i: int|
        0 <= i < blocks.len() && stands_in_column(#[trigger] blocks[i], x)
            && blocks[i].translation.y == y
    &&& forall|i: int|
        0 <= i < blocks.len() && stands_in_column(#[trigger] blocks[i], x)
            ==> blocks[i].translation.y <= y
}

/// The height of the topmost block of column `x`, if the column holds a block.
pub open spec fn column_top(blocks: Seq<Block>, x: i32) -> Option<i32> {
    if exists|y: i32| is_column_top(blocks, x, y) {
        Some(choose|y: i32| is_column_top(blocks, x, y))
    } else {
        None
    }
}

/// `i` is the last block of the list that stands at `p`.
pub open spec fn is_last_at(blocks: Seq<Block>, p: Point, i: int) -> bool {
    &&& 0 <= i < blocks.len()
    &&& stands_at(blocks[i], p)
    &&& forall|j: int| i < j < blocks.len() ==> !stands_at(#[trigger] blocks[j], p)
}

/// The category shown at `p`: that of the last block of the list that stands there.
pub open spec fn category_at(blocks: Seq<Block>, p: Point) -> Option<usize> {
    if exists|i: int| is_last_at(blocks, p, i) {
        Some(blocks[choose|i: int| is_last_at(blocks, p, i)].index)
    } else {
        None
    }
}

/// The column along which a block thrown at height `y` falls when the row is empty: one
/// step right of the innermost left wall, or column 0 where there is no left wall.
pub open spec fn drop_column(walls: Seq<Collidable>, y: i32) -> i32 {
    match wall_front(walls, y) {
        Some(x) => (x + STEP_SIZE) as i32,
        None => 0,
    }
}

/// Where a block thrown from the rung at height `y` lands its first hit: on the block of
/// the row that faces the player or, in an empty row, on top of the column along the wall.
pub open spec fn rung_target(blocks: Seq<Block>, walls: Seq<Collidable>, y: i32) -> Option<Point> {
    match row_front(blocks, y) {
        Some(x) => Some(Point { x, y }),
        None => match column_top(blocks, drop_column(walls, y)) {
            Some(top) => Some(Point { x: drop_column(walls, y), y: top }),
            None => None,
        },
    }
}

/// The category that a throw from the rung at height `y` meets first, if it meets a block.
pub open spec fn rung_category(blocks: Seq<Block>, walls: Seq<Collidable>, y: i32) -> Option<
    usize,
> {
    match rung_target(blocks, walls, y) {
        Some(p) => category_at(blocks, p),
        None => None,
    }
}

/// The categories that a throw from some rung of the ladder meets first.
pub open spec fn reachable_categories(
    ladders: Seq<Point>,
    blocks: Seq<Block>,
    walls: Seq<Collidable>,
) -> Set<usize> {
    Set::new(
        |c: usize|
            exists|k: int|
                0 <= k < ladders.len() && rung_category(blocks, walls, (#[trigger] ladders[k]).y)
                    == Some(c),
    )
}

/// Whether the hand block can match nothing: the board, the walls and the ladder are there,
/// and no rung gives a first hit of the hand block's category.
pub open spec fn no_match(
    ladders: Seq<Point>,
    blocks: Seq<Block>,
    walls: Seq<Collidable>,
    hand_block: HandBlock,
) -> bool {
    &&& blocks.len() > 0
    &&& walls.len() > 0
    &&& ladders.len() > 0
    &&& !reachable_categories(ladders, blocks, walls).contains(hand_block.index)
}

/// Only one column can be that of the block that faces the player.
pub proof fn lemma_row_front_is(blocks: Seq<Block>, y: i32, x: i32)
    requires
        is_row_front(blocks, y, x),
    ensures
        row_front(blocks, y) == Some(x),
{
    let c = choose|c: i32| is_row_front(blocks, y, c);
    assert(is_row_front(blocks, y, c));
}

/// A row without visible blocks has no block that faces the player.
pub proof fn lemma_row_without_front(blocks: Seq<Block>, y: i32)
    requires
        forall|i: int| 0 <= i < blocks.len() ==> !stands_in_row(#[trigger] blocks[i], y),
    ensures
        row_front(blocks, y) is None,
{
    assert forall|x: i32| !is_row_front(blocks, y, x) by {}
}

/// Only one column can be that of the innermost left wall.
pub proof fn lemma_wall_front_is(walls: Seq<Collidable>, y: i32, x: i32)
    requires
        is_wall_front(walls, y, x),
    ensures
        wall_front(walls, y) == Some(x),
{
    let c = choose|c: i32| is_wall_front(walls, y, c);
    assert(is_wall_front(walls, y, c));
}

/// A height without left walls has no innermost left wall.
pub proof fn lemma_height_without_wall_front(walls: Seq<Collidable>, y: i32)
    requires
        forall|i: int| 0 <= i < walls.len() ==> !is_left_wall(#[trigger] walls[i], y),
    ensures
        wall_front(walls, y) is None,
{
    assert forall|x: i32| !is_wall_front(walls, y, x) by {}
}

/// Only one height can be that of the topmost block of a column.
pub proof fn lemma_column_top_is(blocks: Seq<Block>, x: i32, y: i32)
    requires
        is_column_top(blocks, x, y),
    ensures
        column_top(blocks, x) == Some(y),
{
    let c = choose|c: i32| is_column_top(blocks, x, c);
    assert(is_column_top(blocks, x, c));
}

/// A column without visible blocks has no top.
pub proof fn lemma_column_without_top(blocks: Seq<Block>, x: i32)
    requires
        forall|i: int| 0 <= i < blocks.len() ==> !stands_in_column(#[trigger] blocks[i], x),
    ensures
        column_top(blocks, x) is None,
{
    assert forall|y: i32| !is_column_top(blocks, x, y) by {}
}

/// Only one block can be the last one at a place.
pub proof fn lemma_category_at_is(blocks: Seq<Block>, p: Point, i: int)
    requires
        is_last_at(blocks, p, i),
    ensures
        category_at(blocks, p) == Some(blocks[i].index),
{
    let k = choose|k: int| is_last_at(blocks, p, k);
    assert(is_last_at(blocks, p, k));
    if k < i {
        assert(!stands_at(blocks[i], p));
    }
    if i < k {
        assert(!stands_at(blocks[k], p));
    }
}

/// A place without visible blocks shows no category.
pub proof fn lemma_place_without_category(blocks: Seq<Block>, p: Point)
    requires
        forall|i: int| 0 <= i < blocks.len() ==> !stands_at(#[trigger] blocks[i], p),
    ensures
        category_at(blocks, p) is None,
{
    assert forall|k: int| !is_last_at(blocks, p, k) by {
        if 0 <= k < blocks.len() {
            assert(!stands_at(blocks[k], p));
        }
    }
}

/// The column of the block of row `y` that faces the player.
pub fn find_row_front(blocks: &Vec<Block>, y: i32) -> (r: Option<i32>)
    ensures
        r == row_front(blocks@, y),
{
    let mut best: Option<i32> = None;
    let mut i: usize = 0;
    while i < blocks.len()
        invariant
            i <= blocks.len(),
            match best {
                Some(x) => {
                    &&& exists|j: int|
                        0 <= j < i && stands_in_row(#[trigger] blocks[j], y)
                            && blocks[j].translation.x == x
                    &&& forall|j: int|
                        0 <= j < i && stands_in_row(#[trigger] blocks[j], y)
                            ==> blocks[j].translation.x <= x
                },
                None => forall|j: int| 0 <= j < i ==> !stands_in_row(#[trigger] blocks[j], y),
            },
        decreases blocks.len() - i,
    {
        let b = blocks[i];
        if b.show && b.translation.y == y {
            best = match best {
                Some(x) => if b.translation.x > x {
                    Some(b.translation.x)
                } else {
                    Some(x)
                },
                None => Some(b.translation.x),
            };
        }
        i += 1;
    }
    proof {
        match best {
            Some(x) => lemma_row_front_is(blocks@, y, x),
            None => lemma_row_without_front(blocks@, y),
        }
    }
    best
}

/// The column of the innermost left wall at height `y`.
pub fn find_wall_front(walls: &Vec<Collidable>, y: i32) -> (r: Option<i32>)
    ensures
        r == wall_front(walls@, y),
        r is Some ==> r->0 < 0,
{
    let mut best: Option<i32> = None;
    let mut i: usize = 0;
    while i < walls.len()
        invariant
            i <= walls.len(),
            match best {
                Some(x) => {
                    &&& exists|j: int|
                        0 <= j < i && is_left_wall(#[trigger] walls[j], y) && walls[j].pos.x == x
                    &&& forall|j: int|
                        0 <= j < i && is_left_wall(#[trigger] walls[j], y) ==> walls[j].pos.x <= x
                },
                None => forall|j: int| 0 <= j < i ==> !is_left_wall(#[trigger] walls[j], y),
            },
        decreases walls.len() - i,
    {
        let w = walls[i];
        if w.pos.y == y && w.pos.x < 0 {
            best = match best {
                Some(x) => if w.pos.x > x {
                    Some(w.pos.x)
                } else {
                    Some(x)
                },
                None => Some(w.pos.x),
            };
        }
        i += 1;
    }
    proof {
        match best {
            Some(x) => lemma_wall_front_is(walls@, y, x),
            None => lemma_height_without_wall_front(walls@, y),
        }
    }
    best
}

/// The height of the topmost block of column `x`.
pub fn find_column_top(blocks: &Vec<Block>, x: i32) -> (r: Option<i32>)
    ensures
        r == column_top(blocks@, x),
{
    let mut best: Option<i32> = None;
    let mut i: usize = 0;
    while i < blocks.len()
        invariant
            i <= blocks.len(),
            match best {
                Some(y) => {
                    &&& exists|j: int|
                        0 <= j < i && stands_in_column(#[trigger] blocks[j], x)
                            && blocks[j].translation.y == y
                    &&& forall|j: int|
                        0 <= j < i && stands_in_column(#[trigger] blocks[j], x)
                            ==> blocks[j].translation.y <= y
                },
                None => forall|j: int| 0 <= j < i ==> !stands_in_column(#[trigger] blocks[j], x),
            },
        decreases blocks.len() - i,
    {
        let b = blocks[i];
        if b.show && b.translation.x == x {
            best = match best {
                Some(y) => if b.translation.y > y {
                    Some(b.translation.y)
                } else {
                    Some(y)
                },
                None => Some(b.translation.y),
            };
        }
        i += 1;
    }
    proof {
        match best {
            Some(y) => lemma_column_top_is(blocks@, x, y),
            None => lemma_column_without_top(blocks@, x),
        }
    }
    best
}

/// The category shown at `p`.
pub fn find_category_at(blocks: &Vec<Block>, p: Point) -> (r: Option<usize>)
    ensures
        r == category_at(blocks@, p),
{
    let mut found: Option<usize> = None;
    let ghost mut at: int = 0;
    let mut i: usize = 0;
    while i < blocks.len()
        invariant
            i <= blocks.len(),
            match found {
                Some(c) => {
                    &&& 0 <= at < i
                    &&& stands_at(blocks[at], p)
                    &&& blocks[at].index == c
                    &&& forall|j: int| at < j < i ==> !stands_at(#[trigger] blocks[j], p)
                },
                None => forall|j: int| 0 <= j < i ==> !stands_at(#[trigger] blocks[j], p),
            },
        decreases blocks.len() - i,
    {
        let b = blocks[i];
        if b.show && b.translation.x == p.x && b.translation.y == p.y {
            found = Some(b.index);
            proof {
                at = i as int;
            }
        }
        i += 1;
    }
    proof {
        match found {
            Some(c) => lemma_category_at_is(blocks@, p, at),
            None => lemma_place_without_category(blocks@, p),
        }
    }
    found
}

/// The category that a throw from the rung at height `y` meets first.
pub fn find_rung_category(blocks: &Vec<Block>, walls: &Vec<Collidable>, y: i32) -> (r: Option<
    usize,
>)
    ensures
        r == rung_category(blocks@, walls@, y),
{
    let target = match find_row_front(blocks, y) {
        Some(x) => Some(Point { x, y }),
        None => {
            let base_x: i32 = match find_wall_front(walls, y) {
                Some(x) => x + STEP_SIZE,
                None => 0,
            };
            match find_column_top(blocks, base_x) {
                Some(top) => Some(Point { x: base_x, y: top }),
                None => None,
            }
        },
    };
    match target {
        Some(p) => find_category_at(blocks, p),
        None => None,
    }
}

/// The categories that a throw from some rung of the ladder meets first.
pub fn get_target_block_by_player_position(
    ladders: &Vec<Point>,
    blocks: &Vec<Block>,
    walls: &Vec<Collidable>,
) -> (res: HashSet<usize>)
    ensures
        res@ == reachable_categories(ladders@, blocks@, walls@),
{
    let mut res: HashSet<usize> = HashSet::new();
    let mut k: usize = 0;
    while k < ladders.len()
        invariant
            k <= ladders.len(),
            forall|c: usize|
                res@.contains(c) <==> exists|j: int|
                    0 <= j < k && rung_category(blocks@, walls@, (#[trigger] ladders[j]).y) == Some(
                        c,
                    ),
        decreases ladders.len() - k,
    {
        let ghost before = res@;
        let found = find_rung_category(blocks, walls, ladders[k].y);
        if let Some(index) = found {
            res.insert(index);
        }
        proof {
            assert forall|c: usize|
                res@.contains(c) <==> exists|j: int|
                    0 <= j < k + 1 && rung_category(blocks@, walls@, (#[trigger] ladders[j]).y)
                        == Some(c) by {
                if res@.contains(c) {
                    if before.contains(c) {
                        let j = choose|j: int|
                            0 <= j < k && rung_category(blocks@, walls@, (#[trigger] ladders[j]).y)
                                == Some(c);
                        assert(0 <= j < k + 1 && rung_category(blocks@, walls@, ladders[j].y)
                            == Some(c));
                    } else {
                        assert(rung_category(blocks@, walls@, ladders[k as int].y) == Some(c));
                    }
                }
                if exists|j: int|
                    0 <= j < k + 1 && rung_category(blocks@, walls@, (#[trigger] ladders[j]).y)
                        == Some(c) {
                    let j = choose|j: int|
                        0 <= j < k + 1 && rung_category(blocks@, walls@, (#[trigger] ladders[j]).y)
                            == Some(c);
                    if j < k {
                        assert(before.contains(c));
                    }
                }
            }
        }
        k += 1;
    }
    assert(res@ =~= reachable_categories(ladders@, blocks@, walls@));
    res
}

/// Tells whether the hand block can match nothing on the board as it stands.
pub fn handle_no_remove_block_by_player(
    ladders: &Vec<Point>,
    blocks: &Vec<Block>,
    walls: &Vec<Collidable>,
    hand_block: &HandBlock,
) -> (no_remove: bool)
    ensures
        no_remove == no_match(ladders@, blocks@, walls@, *hand_block),
{
    if blocks.len() == 0 || walls.len() == 0 || ladders.len() == 0 {
        return false;
    }
    let res_index = get_target_block_by_player_position(ladders, blocks, walls);
    !res_index.contains(&hand_block.index)
}

/// Number of visible blocks.
pub open spec fn visible_count(blocks: Seq<Block>) -> nat {
    blocks.filter(|b: Block| b.show).len()
}

/// Counts the visible blocks.
pub fn count_visible(blocks: &Vec<Block>) -> (n: usize)
    ensures
        n == visible_count(blocks@),
{
    let mut n: usize = 0;
    let mut i: usize = 0;
    while i < blocks.len()
        invariant
            i <= blocks.len(),
            n <= i,
            n == visible_count(blocks@.take(i as int)),
        decreases blocks.len() - i,
    {
        proof {
            let shown = |b: Block| b.show;
            assert(blocks@.take(i + 1) =~= blocks@.take(i as int).push(blocks@[i as int]));
            blocks@.take(i as int).lemma_filter_push(blocks@[i as int], shown);
        }
        if blocks[i].show {
            n += 1;
        }
        i += 1;
    }
    assert(blocks@.take(blocks.len() as int) =~= blocks@);
    n
}

/// Decides what follows when the evaluator found `no_remove`.
///
/// Nothing happens without that signal or on an empty board. Otherwise the stage is won if
/// no more than `clear_number` visible blocks are left; if more are left, the player and
/// the hand block go back to where they started, the hand block turns into the wildcard,
/// and the player is told so.
pub fn handle_game_over(
    no_remove: bool,
    blocks: &Vec<Block>,
    clear_number: usize,
    player: &mut Point,
    hand_block: &mut HandBlock,
) -> (out: GameOver)
    ensures
        !no_remove || blocks.len() == 0 ==> {
            &&& out.next_state is None
            &&& out.alert is None
            &&& *final(player) == *old(player)
            &&& *final(hand_block) == *old(hand_block)
        },
        no_remove && blocks.len() > 0 && visible_count(blocks@) <= clear_number ==> {
            &&& out.next_state == Some(SettlementState::Start)
            &&& out.alert is None
            &&& *final(player) == *old(player)
            &&& *final(hand_block) == *old(hand_block)
        },
        no_remove && blocks.len() > 0 && visible_count(blocks@) > clear_number ==> {
            &&& out.next_state is None
            &&& out.alert is Some
            &&& out.alert.unwrap().text() == Some(NO_REMOVE_ALERT@)
            &&& *final(player) == (Point { x: PLAYER_INIT_POS.0, y: PLAYER_INIT_POS.1 })
            &&& *final(hand_block) == (HandBlock {
                index: LIGHT_BLOCK_INDEX,
                translation: Point {
                    x: (PLAYER_INIT_POS.0 - STEP_SIZE) as i32,
                    y: PLAYER_INIT_POS.1,
                },
                ..*old(hand_block)
            })
        },
{
    if !no_remove || blocks.len() == 0 {
        return GameOver { next_state: None, alert: None };
    }
    let block_number = count_visible(blocks);
    if block_number <= clear_number {
        GameOver { next_state: Some(SettlementState::Start), alert: None }
    } else {
        let (player_x, player_y) = PLAYER_INIT_POS;
        *player = Point { x: player_x, y: player_y };
        hand_block.translation = Point { x: player_x - STEP_SIZE, y: player_y };
        hand_block.index = LIGHT_BLOCK_INDEX;
        GameOver { next_state: None, alert: Some(AlertEvent(Some(NO_REMOVE_ALERT.to_owned()))) }
    }
}

/// The verdict of the evaluator depends on the board alone: two evaluations of the same
/// ladder, blocks, walls and hand block agree.
pub proof fn lemma_verdict_is_stable(
    ladders: Seq<Point>,
    blocks: Seq<Block>,
    walls: Seq<Collidable>,
    hand_block: HandBlock,
    first: bool,
    second: bool,
)
    requires
        first == no_match(ladders, blocks, walls, hand_block),
        second == no_match(ladders, blocks, walls, hand_block),
    ensures
        first == second,
{
}

} // verus!
