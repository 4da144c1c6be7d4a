//! The throw: what a flying hand block does to the blocks, the walls and the ground that
//! it meets, and how it comes back.

use vstd::prelude::*;
use vstd::multiset::Multiset;
use crate::block::{Block, Direction, HandBlock};
use crate::constants::{
    BACK_ARRIVE_DISTANCE, BLOCK_HIT_RADIUS, COLLISION_BACK_TIMER, LIGHT_BLOCK_INDEX, STEP_SIZE,
    WALL_HIT_RADIUS, WH,
};
use crate::point::{clamp_coord, shift_coord, within_radius, Point};
use crate::spatial::{hit_by, Collidable, SpatialIndex};
use crate::state::HandBlockState;
use crate::timer::{Timer, TimerMode};

verus! {

/// The index over the visible blocks, as of its last rebuild.
pub struct BlockKdTree(pub SpatialIndex);

impl Default for BlockKdTree {
    fn default() -> (t: Self)
        ensures
            t.0@ == Multiset::<Collidable>::empty(),
    {
        BlockKdTree(SpatialIndex::new())
    }
}

/// The index over the walls of the stage.
pub struct WallKdTree(pub SpatialIndex);

impl Default for WallKdTree {
    fn default() -> (t: Self)
        ensures
            t.0@ == Multiset::<Collidable>::empty(),
    {
        WallKdTree(SpatialIndex::new())
    }
}

/// The index over the ground of the stage.
pub struct GroundKdTree(pub SpatialIndex);

impl Default for GroundKdTree {
    fn default() -> (t: Self)
        ensures
            t.0@ == Multiset::<Collidable>::empty(),
    {
        GroundKdTree(SpatialIndex::new())
    }
}

/// Whether the last block that an ordinary hand block struck in this throw was a match.
#[derive(Debug, Clone, Copy, PartialEq, Eq, Structural, Hash)]
pub struct IsEliminate(pub bool);

/// The category that a wildcard hand block has locked onto in this throw.
#[derive(Debug, Clone, Copy, PartialEq, Eq, Structural, Hash)]
pub struct LightFirstRemoveBlock(pub Option<usize>);

impl Default for LightFirstRemoveBlock {
    fn default() -> (l: Self)
        ensures
            l.0 is None,
    {
        LightFirstRemoveBlock(None)
    }
}

/// Indexes the walls of the stage.
pub fn spawn_wall_kd_tree(tree: &mut WallKdTree, walls: &Vec<Collidable>)
    ensures
        final(tree).0@ == walls@.to_multiset(),
{
    tree.0.rebuild(walls);
}

/// Indexes the ground of the stage.
pub fn spawn_ground_kd_tree(tree: &mut GroundKdTree, grounds: &Vec<Collidable>)
    ensures
        final(tree).0@ == grounds@.to_multiset(),
{
    tree.0.rebuild(grounds);
}

/// The points under which the visible blocks are indexed: where each is displayed.
pub open spec fn visible_points(blocks: Seq<Block>) -> Seq<Collidable> {
    blocks.filter(|b: Block| b.show).map_values(
        |b: Block| Collidable { pos: b.translation, entity: b.entity },
    )
}

/// Indexes the blocks anew. An eliminated block is left out.
pub fn update_block_kd_tree(tree: &mut BlockKdTree, blocks: &Vec<Block>)
    ensures
        final(tree).0@ == visible_points(blocks@).to_multiset(),
{
    let mut items: Vec<Collidable> = Vec::new();
    let mut i: usize = 0;
    while i < blocks.len()
        invariant
            i <= blocks.len(),
            items@ == visible_points(blocks@.take(i as int)),
        decreases blocks.len() - i,
    {
        let b = blocks[i];
        proof {
            let shown = |b: Block| b.show;
            let point = |b: Block| Collidable { pos: b.translation, entity: b.entity };
            let head = blocks@.take(i as int);
            assert(blocks@.take(i + 1) =~= head.push(b));
            head.lemma_filter_push(b, shown);
            assert(head.filter(shown).push(b).map_values(point) =~= head.filter(shown).map_values(
                point,
            ).push(point(b)));
        }
        if b.show {
            items.push(Collidable { pos: b.translation, entity: b.entity });
        }
        i += 1;
    }
    assert(blocks@.take(blocks.len() as int) =~= blocks@);
    tree.0.rebuild(&items);
}

/// `i` is the first block of the list that is known as `entity`.
pub open spec fn is_first_of(blocks: Seq<Block>, entity: u64, i: int) -> bool {
    &&& 0 <= i < blocks.len()
    &&& blocks[i].entity == entity
    &&& forall|j: int| 0 <= j < i ==> (#[trigger] blocks[j]).entity != entity
}

/// The place in the list of the block known as `entity`, if it is still on the board.
pub open spec fn block_of(blocks: Seq<Block>, entity: u64) -> Option<int> {
    if exists|i: int| is_first_of(blocks, entity, i) {
        Some(choose|i: int| is_first_of(blocks, entity, i))
    } else {
        None
    }
}

/// Only one block can be the first of its name.
pub proof fn lemma_block_of_is(blocks: Seq<Block>, entity: u64, i: int)
    requires
        is_first_of(blocks, entity, i),
    ensures
        block_of(blocks, entity) == Some(i),
{
    let k = choose|k: int| is_first_of(blocks, entity, k);
    assert(is_first_of(blocks, entity, k));
    if k < i {
        assert(blocks[k].entity != entity);
    }
    if i < k {
        assert(blocks[i].entity != entity);
    }
}

/// A name that no block of the board has finds no block.
pub proof fn lemma_block_is_gone(blocks: Seq<Block>, entity: u64)
    requires
        forall|i: int| 0 <= i < blocks.len() ==> (#[trigger] blocks[i]).entity != entity,
    ensures
        block_of(blocks, entity) is None,
{
    assert forall|k: int| !is_first_of(blocks, entity, k) by {
        if 0 <= k < blocks.len() {
            assert(blocks[k].entity != entity);
        }
    }
}

/// Finds the block known as `entity`.
pub fn find_block(blocks: &Vec<Block>, entity: u64) -> (r: Option<usize>)
    ensures
        match r {
            Some(i) => block_of(blocks@, entity) == Some(i as int) && i < blocks.len()
                && blocks[i as int].entity == entity,
            None => block_of(blocks@, entity) is None,
        },
{
    let mut i: usize = 0;
    while i < blocks.len()
        invariant
            i <= blocks.len(),
            forall|j: int| 0 <= j < i ==> (#[trigger] blocks[j]).entity != entity,
        decreases blocks.len() - i,
    {
        if blocks[i].entity == entity {
            proof {
                lemma_block_of_is(blocks@, entity, i as int);
            }
            return Some(i);
        }
        i += 1;
    }
    proof {
        lemma_block_is_gone(blocks@, entity);
    }
    None
}

/// What an ordinary throw has come to.
pub struct Resolution {
    pub blocks: Seq<Block>,
    /// The category of the hand block.
    pub hand_index: usize,
    pub is_eliminate: bool,
    /// Whether the hand block is to turn back.
    pub backing: bool,
}

/// An ordinary hand block strikes the block known as `entity`.
///
/// A block that is gone or already eliminated is passed. A block of the hand block's
/// category is eliminated, and the throw goes on. Any other block turns the hand block
/// back; if the block struck before it was a match, the two swap their categories first.
pub open spec fn strike(s: Resolution, entity: u64) -> Resolution {
    match block_of(s.blocks, entity) {
        None => s,
        Some(i) => {
            let b = s.blocks[i];
            if !b.show {
                s
            } else if b.index == s.hand_index {
                Resolution {
                    blocks: s.blocks.update(i, Block { show: false, ..b }),
                    is_eliminate: true,
                    ..s
                }
            } else if s.is_eliminate {
                Resolution {
                    blocks: s.blocks.update(i, Block { index: s.hand_index, ..b }),
                    hand_index: b.index,
                    is_eliminate: false,
                    backing: true,
                }
            } else {
                Resolution { backing: true, ..s }
            }
        },
    }
}

/// An ordinary hand block strikes the blocks of `hits`, one after the other.
pub open spec fn strike_all(s: Resolution, hits: Seq<Collidable>) -> Resolution
    decreases hits.len(),
{
    if hits.len() == 0 {
        s
    } else {
        strike(strike_all(s, hits.drop_last()), hits.last().entity)
    }
}

/// An ordinary throw before the hand block strikes anything on this step.
pub open spec fn throw_start(
    blocks: Seq<Block>,
    hand_block: HandBlock,
    is_eliminate: IsEliminate,
) -> Resolution {
    Resolution {
        blocks,
        hand_index: hand_block.index,
        is_eliminate: is_eliminate.0,
        backing: false,
    }
}

/// Whether the board, the hand block, the flag and the next state are what the throw has
/// come to: the hand block has changed its category at most.
pub open spec fn settles_as(
    end: Resolution,
    thrown: HandBlock,
    blocks: Seq<Block>,
    hand_block: HandBlock,
    is_eliminate: IsEliminate,
    next: Option<HandBlockState>,
) -> bool {
    &&& blocks == end.blocks
    &&& hand_block == (HandBlock { index: end.hand_index, ..thrown })
    &&& is_eliminate.0 == end.is_eliminate
    &&& next == if end.backing {
        Some(HandBlockState::Backing)
    } else {
        None
    }
}

/// Whether `hits` lists what `tree` holds within `radius` of `center`, in some order.
pub open spec fn lists_hits(
    hits: Seq<Collidable>,
    tree: SpatialIndex,
    center: Point,
    radius: i32,
) -> bool {
    hits.to_multiset() == tree@.filter(hit_by(center, radius))
}

/// Applies the rules of an ordinary throw to the blocks of `hits`, in their order, and
/// tells whether the hand block turns back.
pub fn resolve_block_hits(
    hits: &Vec<Collidable>,
    is_eliminate: &mut IsEliminate,
    hand_block: &mut HandBlock,
    blocks: &mut Vec<Block>,
) -> (next: Option<HandBlockState>)
    ensures
        settles_as(
            strike_all(throw_start(old(blocks)@, *old(hand_block), *old(is_eliminate)), hits@),
            *old(hand_block),
            final(blocks)@,
            *final(hand_block),
            *final(is_eliminate),
            next,
        ),
{
    let ghost start = throw_start(blocks@, *hand_block, *is_eliminate);
    let mut backing: bool = false;
    let mut k: usize = 0;
    while k < hits.len()
        invariant
            k <= hits.len(),
            hand_block.direction == old(hand_block).direction,
            hand_block.translation == old(hand_block).translation,
            hand_block.carry == old(hand_block).carry,
            strike_all(start, hits@.take(k as int)) == (Resolution {
                blocks: blocks@,
                hand_index: hand_block.index,
                is_eliminate: is_eliminate.0,
                backing,
            }),
        decreases hits.len() - k,
    {
        proof {
            assert(hits@.take(k + 1).drop_last() =~= hits@.take(k as int));
        }
        if let Some(i) = find_block(blocks, hits[k].entity) {
            let mut b = blocks[i];
            if b.show {
                if b.index == hand_block.index {
                    b.show = false;
                    is_eliminate.0 = true;
                    blocks.set(i, b);
                } else {
                    if is_eliminate.0 {
                        let index = b.index;
                        b.index = hand_block.index;
                        hand_block.index = index;
                        blocks.set(i, b);
                        is_eliminate.0 = false;
                    }
                    backing = true;
                }
            }
        }
        k += 1;
    }
    assert(hits@.take(hits.len() as int) =~= hits@);
    if backing {
        Some(HandBlockState::Backing)
    } else {
        None
    }
}

/// Lets an ordinary hand block strike the blocks within its reach.
///
/// Nothing happens on an empty board or to a wildcard. Otherwise the blocks that the index
/// holds within reach of the hand block are struck in the order in which the index lists
/// them.
pub fn handle_block_collision(
    tree: &BlockKdTree,
    is_eliminate: &mut IsEliminate,
    hand_block: &mut HandBlock,
    blocks: &mut Vec<Block>,
) -> (next: Option<HandBlockState>)
    ensures
        old(blocks).len() == 0 || old(hand_block).index == LIGHT_BLOCK_INDEX ==> {
            &&& final(blocks)@ == old(blocks)@
            &&& *final(hand_block) == *old(hand_block)
            &&& *final(is_eliminate) == *old(is_eliminate)
            &&& next is None
        },
        old(blocks).len() > 0 && old(hand_block).index != LIGHT_BLOCK_INDEX ==> exists|
            hits: Seq<Collidable>,
        |
            #[trigger] lists_hits(hits, tree.0, old(hand_block).translation, BLOCK_HIT_RADIUS)
                && settles_as(
                strike_all(throw_start(old(blocks)@, *old(hand_block), *old(is_eliminate)), hits),
                *old(hand_block),
                final(blocks)@,
                *final(hand_block),
                *final(is_eliminate),
                next,
            ),
{
    if blocks.len() == 0 {
        return None;
    }
    if hand_block.index == LIGHT_BLOCK_INDEX {
        return None;
    }
    let hits = tree.0.query_within_radius(hand_block.translation, BLOCK_HIT_RADIUS);
    let next = resolve_block_hits(&hits, is_eliminate, hand_block, blocks);
    assert(lists_hits(hits@, tree.0, old(hand_block).translation, BLOCK_HIT_RADIUS));
    next
}

/// What a wildcard throw has come to.
pub struct WildResolution {
    pub blocks: Seq<Block>,
    /// The category that the wildcard has locked onto.
    pub lock: Option<usize>,
    /// Whether the hand block is to turn back.
    pub backing: bool,
}

/// A wildcard hand block touches the block known as `entity`.
///
/// A block that is gone or already eliminated is passed. The first block that a wildcard
/// touches is eliminated and its category locked. After that a block of the locked
/// category is eliminated, and any other block turns the hand block back and stays.
pub open spec fn touch(s: WildResolution, entity: u64) -> WildResolution {
    match block_of(s.blocks, entity) {
        None => s,
        Some(i) => {
            let b = s.blocks[i];
            if !b.show {
                s
            } else {
                match s.lock {
                    Some(index) => if b.index == index {
                        WildResolution {
                            blocks: s.blocks.update(i, Block { show: false, ..b }),
                            ..s
                        }
                    } else {
                        WildResolution { backing: true, ..s }
                    },
                    None => WildResolution {
                        blocks: s.blocks.update(i, Block { show: false, ..b }),
                        lock: Some(b.index),
                        ..s
                    },
                }
            }
        },
    }
}

/// A wildcard hand block touches the blocks of `hits`, one after the other.
pub open spec fn touch_all(s: WildResolution, hits: Seq<Collidable>) -> WildResolution
    decreases hits.len(),
{
    if hits.len() == 0 {
        s
    } else {
        touch(touch_all(s, hits.drop_last()), hits.last().entity)
    }
}

/// A wildcard throw before the hand block touches anything on this step.
pub open spec fn wild_start(blocks: Seq<Block>, lock: LightFirstRemoveBlock) -> WildResolution {
    WildResolution { blocks, lock: lock.0, backing: false }
}

/// Whether the board, the lock and the next state are what the wildcard throw has come to.
pub open spec fn wild_settles_as(
    end: WildResolution,
    blocks: Seq<Block>,
    lock: LightFirstRemoveBlock,
    next: Option<HandBlockState>,
) -> bool {
    &&& blocks == end.blocks
    &&& lock.0 == end.lock
    &&& next == if end.backing {
        Some(HandBlockState::Backing)
    } else {
        None
    }
}

/// Applies the rules of a wildcard throw to the blocks of `hits`, in their order, and
/// tells whether the hand block turns back.
pub fn resolve_lightning_hits(
    hits: &Vec<Collidable>,
    lighting_first_remove_block: &mut LightFirstRemoveBlock,
    blocks: &mut Vec<Block>,
) -> (next: Option<HandBlockState>)
    ensures
        wild_settles_as(
            touch_all(wild_start(old(blocks)@, *old(lighting_first_remove_block)), hits@),
            final(blocks)@,
            *final(lighting_first_remove_block),
            next,
        ),
{
    let ghost start = wild_start(blocks@, *lighting_first_remove_block);
    let mut backing: bool = false;
    let mut k: usize = 0;
    while k < hits.len()
        invariant
            k <= hits.len(),
            touch_all(start, hits@.take(k as int)) == (WildResolution {
                blocks: blocks@,
                lock: lighting_first_remove_block.0,
                backing,
            }),
        decreases hits.len() - k,
    {
        proof {
            assert(hits@.take(k + 1).drop_last() =~= hits@.take(k as int));
        }
        if let Some(i) = find_block(blocks, hits[k].entity) {
            let mut b = blocks[i];
            if b.show {
                if let Some(index) = lighting_first_remove_block.0 {
                    if b.index == index {
                        b.show = false;
                        blocks.set(i, b);
                    } else {
                        backing = true;
                    }
                } else {
                    b.show = false;
                    blocks.set(i, b);
                    lighting_first_remove_block.0 = Some(b.index);
                }
            }
        }
        k += 1;
    }
    assert(hits@.take(hits.len() as int) =~= hits@);
    if backing {
        Some(HandBlockState::Backing)
    } else {
        None
    }
}

/// Lets a wildcard hand block touch the blocks within its reach.
///
/// Nothing happens on an empty board or to an ordinary hand block. Otherwise the blocks
/// that the index holds within reach of the hand block are touched in the order in which
/// the index lists them.
pub fn handle_lightning_block_collision(
    tree: &BlockKdTree,
    lighting_first_remove_block: &mut LightFirstRemoveBlock,
    hand_block: &HandBlock,
    blocks: &mut Vec<Block>,
) -> (next: Option<HandBlockState>)
    ensures
        old(blocks).len() == 0 || hand_block.index != LIGHT_BLOCK_INDEX ==> {
            &&& final(blocks)@ == old(blocks)@
            &&& *final(lighting_first_remove_block) == *old(lighting_first_remove_block)
            &&& next is None
        },
        old(blocks).len() > 0 && hand_block.index == LIGHT_BLOCK_INDEX ==> exists|
            hits: Seq<Collidable>,
        |
            #[trigger] lists_hits(hits, tree.0, hand_block.translation, BLOCK_HIT_RADIUS)
                && wild_settles_as(
                touch_all(wild_start(old(blocks)@, *old(lighting_first_remove_block)), hits),
                final(blocks)@,
                *final(lighting_first_remove_block),
                next,
            ),
{
    if blocks.len() == 0 {
        return None;
    }
    if hand_block.index != LIGHT_BLOCK_INDEX {
        return None;
    }
    let hits = tree.0.query_within_radius(hand_block.translation, BLOCK_HIT_RADIUS);
    let next = resolve_lightning_hits(&hits, lighting_first_remove_block, blocks);
    assert(lists_hits(hits@, tree.0, hand_block.translation, BLOCK_HIT_RADIUS));
    next
}

/// Ends a wildcard throw as the hand block turns back: the hand block takes the category
/// that the wildcard had locked onto, if any, and the lock is released.
pub fn lighting_first_remove_block_index_reset(
    lighting_first_remove_block: &mut LightFirstRemoveBlock,
    hand_block: &mut HandBlock,
)
    ensures
        final(lighting_first_remove_block).0 is None,
        *final(hand_block) == (HandBlock {
            index: match old(lighting_first_remove_block).0 {
                Some(index) => index,
                None => old(hand_block).index,
            },
            ..*old(hand_block)
        }),
{
    if let Some(index) = lighting_first_remove_block.0 {
        hand_block.index = index;
    }
    lighting_first_remove_block.0 = None;
}

/// `i` is the first wall of the list that is known as `entity`.
pub open spec fn is_first_wall_of(walls: Seq<Collidable>, entity: u64, i: int) -> bool {
    &&& 0 <= i < walls.len()
    &&& walls[i].entity == entity
    &&& forall|j: int| 0 <= j < i ==> (#[trigger] walls[j]).entity != entity
}

/// The place in the list of the wall known as `entity`, if there is such a wall.
pub open spec fn wall_of(walls: Seq<Collidable>, entity: u64) -> Option<int> {
    if exists|i: int| is_first_wall_of(walls, entity, i) {
        Some(choose|i: int| is_first_wall_of(walls, entity, i))
    } else {
        None
    }
}

/// Only one wall can be the first of its name.
pub proof fn lemma_wall_of_is(walls: Seq<Collidable>, entity: u64, i: int)
    requires
        is_first_wall_of(walls, entity, i),
    ensures
        wall_of(walls, entity) == Some(i),
{
    let k = choose|k: int| is_first_wall_of(walls, entity, k);
    assert(is_first_wall_of(walls, entity, k));
    if k < i {
        assert(walls[k].entity != entity);
    }
    if i < k {
        assert(walls[i].entity != entity);
    }
}

/// A name that no wall of the list has finds no wall.
pub proof fn lemma_wall_is_unknown(walls: Seq<Collidable>, entity: u64)
    requires
        forall|i: int| 0 <= i < walls.len() ==> (#[trigger] walls[i]).entity != entity,
    ensures
        wall_of(walls, entity) is None,
{
    assert forall|k: int| !is_first_wall_of(walls, entity, k) by {
        if 0 <= k < walls.len() {
            assert(walls[k].entity != entity);
        }
    }
}

/// Finds the wall known as `entity`.
pub fn find_wall(walls: &Vec<Collidable>, entity: u64) -> (r: Option<usize>)
    ensures
        match r {
            Some(i) => wall_of(walls@, entity) == Some(i as int) && i < walls.len(),
            None => wall_of(walls@, entity) is None,
        },
{
    let mut i: usize = 0;
    while i < walls.len()
        invariant
            i <= walls.len(),
            forall|j: int| 0 <= j < i ==> (#[trigger] walls[j]).entity != entity,
        decreases walls.len() - i,
    {
        if walls[i].entity == entity {
            proof {
                lemma_wall_of_is(walls@, entity, i as int);
            }
            return Some(i);
        }
        i += 1;
    }
    proof {
        lemma_wall_is_unknown(walls@, entity);
    }
    None
}

/// The hand block meets the wall known as `entity`: it turns downwards, one step to the
/// right of the wall. A wall that is not on the list changes nothing.
pub open spec fn bounce(hand_block: HandBlock, walls: Seq<Collidable>, entity: u64) -> HandBlock {
    match wall_of(walls, entity) {
        Some(i) => HandBlock {
            direction: Direction::Down,
            translation: Point {
                x: clamp_coord(walls[i].pos.x + STEP_SIZE),
                y: hand_block.translation.y,
            },
            ..hand_block
        },
        None => hand_block,
    }
}

/// The hand block meets the walls of `hits`, one after the other.
pub open spec fn bounce_all(
    hand_block: HandBlock,
    walls: Seq<Collidable>,
    hits: Seq<Collidable>,
) -> HandBlock
    decreases hits.len(),
{
    if hits.len() == 0 {
        hand_block
    } else {
        bounce(bounce_all(hand_block, walls, hits.drop_last()), walls, hits.last().entity)
    }
}

/// Turns the hand block at the walls of `hits`, in their order.
pub fn resolve_wall_hits(
    hits: &Vec<Collidable>,
    hand_block: &mut HandBlock,
    walls: &Vec<Collidable>,
)
    ensures
        *final(hand_block) == bounce_all(*old(hand_block), walls@, hits@),
{
    let mut k: usize = 0;
    while k < hits.len()
        invariant
            k <= hits.len(),
            *hand_block == bounce_all(*old(hand_block), walls@, hits@.take(k as int)),
        decreases hits.len() - k,
    {
        proof {
            assert(hits@.take(k + 1).drop_last() =~= hits@.take(k as int));
        }
        if let Some(i) = find_wall(walls, hits[k].entity) {
            hand_block.direction = Direction::Down;
            hand_block.translation.x = shift_coord(walls[i].pos.x, STEP_SIZE as i64);
        }
        k += 1;
    }
    assert(hits@.take(hits.len() as int) =~= hits@);
}

/// Turns the hand block downwards where it has reached a wall.
///
/// Without walls nothing happens. Otherwise the hand block meets the walls that the index
/// holds within its reach, in the order in which the index lists them.
pub fn handle_block_wall_collision(
    tree: &WallKdTree,
    hand_block: &mut HandBlock,
    walls: &Vec<Collidable>,
)
    ensures
        walls.len() == 0 ==> *final(hand_block) == *old(hand_block),
        walls.len() > 0 ==> exists|hits: Seq<Collidable>|
            #[trigger] lists_hits(hits, tree.0, old(hand_block).translation, WALL_HIT_RADIUS)
                && *final(hand_block) == bounce_all(*old(hand_block), walls@, hits),
{
    if walls.len() == 0 {
        return;
    }
    let hits = tree.0.query_within_radius(hand_block.translation, WALL_HIT_RADIUS);
    resolve_wall_hits(&hits, hand_block, walls);
    assert(lists_hits(hits@, tree.0, old(hand_block).translation, WALL_HIT_RADIUS));
}

/// Whether the index holds a point within `radius` of `center`.
pub open spec fn touches(tree: SpatialIndex, center: Point, radius: i32) -> bool {
    exists|c: Collidable|
        #[trigger] tree@.contains(c) && within_radius(c.pos, center, radius as int)
}

/// Turns the hand block back where it has reached the ground; nothing can be eliminated
/// below the floor, so the match flag is cleared too.
pub fn handle_block_ground_collision(
    tree: &GroundKdTree,
    is_eliminate: &mut IsEliminate,
    hand_block: &HandBlock,
) -> (next: Option<HandBlockState>)
    ensures
        touches(tree.0, hand_block.translation, WALL_HIT_RADIUS) ==> {
            &&& next == Some(HandBlockState::Backing)
            &&& final(is_eliminate).0 == false
        },
        !touches(tree.0, hand_block.translation, WALL_HIT_RADIUS) ==> {
            &&& next is None
            &&& *final(is_eliminate) == *old(is_eliminate)
        },
{
    let grounds = tree.0.query_within_radius(hand_block.translation, WALL_HIT_RADIUS);
    if grounds.len() > 0 {
        proof {
            assert(tree.0@.contains(grounds[0]));
        }
        is_eliminate.0 = false;
        Some(HandBlockState::Backing)
    } else {
        proof {
            if touches(tree.0, hand_block.translation, WALL_HIT_RADIUS) {
                let c = choose|c: Collidable| #[trigger]
                    tree.0@.contains(c) && within_radius(
                        c.pos,
                        hand_block.translation,
                        WALL_HIT_RADIUS as int,
                    );
                assert(grounds@.contains(c));
            }
        }
        None
    }
}

/// A wildcard throw over several steps, each with the hits that the index lists on it. The
/// lock is carried from step to step.
pub open spec fn touch_motion(s: WildResolution, passes: Seq<Seq<Collidable>>) -> WildResolution
    decreases passes.len(),
{
    if passes.len() == 0 {
        s
    } else {
        let before = touch_motion(s, passes.drop_last());
        touch_all(WildResolution { backing: false, ..before }, passes.last())
    }
}

/// Whether block `i` was eliminated between the boards `before` and `after`.
pub open spec fn eliminated_between(before: Seq<Block>, after: Seq<Block>, i: int) -> bool {
    0 <= i < before.len() && i < after.len() && before[i].show && !after[i].show
}

/// Whether a wildcard throw led from `s` to `e` as it may: a lock that was set is kept;
/// every block is as it was, or was visible and is now eliminated, and then is of the
/// locked category.
pub open spec fn wildcard_kept_to_lock(s: WildResolution, e: WildResolution) -> bool {
    &&& e.blocks.len() == s.blocks.len()
    &&& s.lock is Some ==> e.lock == s.lock
    &&& forall|i: int|
        0 <= i < s.blocks.len() ==> #[trigger] e.blocks[i] == s.blocks[i] || {
            &&& s.blocks[i].show
            &&& e.blocks[i] == (Block { show: false, ..s.blocks[i] })
            &&& e.lock == Some(s.blocks[i].index)
        }
}

proof fn lemma_touch_keeps_to_lock(s: WildResolution, entity: u64)
    ensures
        wildcard_kept_to_lock(s, touch(s, entity)),
{
    if let Some(i) = block_of(s.blocks, entity) {
        assert(is_first_of(s.blocks, entity, i));
    }
}

proof fn lemma_kept_to_lock_chains(a: WildResolution, b: WildResolution, c: WildResolution)
    requires
        wildcard_kept_to_lock(a, b),
        wildcard_kept_to_lock(b, c),
    ensures
        wildcard_kept_to_lock(a, c),
{
    assert forall|i: int| 0 <= i < a.blocks.len() implies #[trigger] c.blocks[i] == a.blocks[i] || {
        &&& a.blocks[i].show
        &&& c.blocks[i] == (Block { show: false, ..a.blocks[i] })
        &&& c.lock == Some(a.blocks[i].index)
    } by {
        assert(b.blocks[i] == a.blocks[i] || b.lock == Some(a.blocks[i].index));
        assert(c.blocks[i] == b.blocks[i] || c.lock == Some(b.blocks[i].index));
    }
}

/// One step of a wildcard throw keeps to the lock, whatever the index lists.
pub proof fn lemma_touch_all_keeps_to_lock(s: WildResolution, hits: Seq<Collidable>)
    ensures
        wildcard_kept_to_lock(s, touch_all(s, hits)),
    decreases hits.len(),
{
    if hits.len() > 0 {
        let before = touch_all(s, hits.drop_last());
        lemma_touch_all_keeps_to_lock(s, hits.drop_last());
        lemma_touch_keeps_to_lock(before, hits.last().entity);
        lemma_kept_to_lock_chains(s, before, touch_all(s, hits));
    }
}

/// A whole wildcard throw keeps to the lock.
pub proof fn lemma_touch_motion_keeps_to_lock(s: WildResolution, passes: Seq<Seq<Collidable>>)
    ensures
        wildcard_kept_to_lock(s, touch_motion(s, passes)),
    decreases passes.len(),
{
    if passes.len() > 0 {
        let before = touch_motion(s, passes.drop_last());
        let resumed = WildResolution { backing: false, ..before };
        lemma_touch_motion_keeps_to_lock(s, passes.drop_last());
        lemma_touch_all_keeps_to_lock(resumed, passes.last());
        lemma_kept_to_lock_chains(s, resumed, touch_motion(s, passes));
    }
}

/// All blocks that one wildcard throw eliminates are of one category: that of the lock,
/// which is the category of the block eliminated first.
pub proof fn lemma_wildcard_eliminates_one_category(
    s: WildResolution,
    passes: Seq<Seq<Collidable>>,
    i: int,
    j: int,
)
    requires
        eliminated_between(s.blocks, touch_motion(s, passes).blocks, i),
        eliminated_between(s.blocks, touch_motion(s, passes).blocks, j),
    ensures
        s.blocks[i].index == s.blocks[j].index,
        touch_motion(s, passes).lock == Some(s.blocks[i].index),
        touch_motion(s, passes).blocks[i].index == touch_motion(s, passes).blocks[j].index,
{
    lemma_touch_motion_keeps_to_lock(s, passes);
    let e = touch_motion(s, passes);
    assert(e.blocks[i] != s.blocks[i]);
    assert(e.blocks[j] != s.blocks[j]);
}

/// A visible block of another category than the lock turns the wildcard back and stays
/// as it is.
pub proof fn lemma_wildcard_mismatch_turns_back(s: WildResolution, entity: u64, i: int)
    requires
        block_of(s.blocks, entity) == Some(i),
        s.blocks[i].show,
        s.lock is Some,
        s.lock != Some(s.blocks[i].index),
    ensures
        touch(s, entity).backing,
        touch(s, entity).blocks == s.blocks,
        touch(s, entity).lock == s.lock,
{
}

/// The control points of the curve along which the hand block flies back, while it does.
#[derive(Debug, Clone, Copy)]
pub struct BezierPoints(pub Option<[Point; 4]>);

impl Default for BezierPoints {
    fn default() -> (p: Self)
        ensures
            p.0 is None,
    {
        BezierPoints(None)
    }
}

/// The time that the hand block has been flying back.
#[derive(Debug, Clone, Copy, PartialEq, Eq, Structural, Hash)]
pub struct CollisionBackTimer(pub Timer);

impl Default for CollisionBackTimer {
    fn default() -> (t: Self)
        ensures
            t.0 == (Timer {
                duration: COLLISION_BACK_TIMER,
                elapsed: 0,
                mode: TimerMode::Once,
                finished: false,
                times_finished_this_tick: 0,
            }),
    {
        CollisionBackTimer(Timer::new(COLLISION_BACK_TIMER, TimerMode::Once))
    }
}

/// Column of the two inner control points of the way back.
pub const BACK_CURVE_X: i32 = -50;

/// How far above the player the way back rises, unless the field ends below.
pub const BACK_CURVE_RISE: i32 = 220;

/// The height of the inner control points: above the player, but inside the field.
pub open spec fn back_curve_top(player: Point) -> i32 {
    if clamp_coord(player.y + BACK_CURVE_RISE) < WH / 2 - STEP_SIZE {
        clamp_coord(player.y + BACK_CURVE_RISE)
    } else {
        (WH / 2 - STEP_SIZE) as i32
    }
}

/// The control points of the way back from `from` to the side of the player.
pub open spec fn back_curve(from: Point, player: Point) -> Seq<Point> {
    seq![
        from,
        Point { x: BACK_CURVE_X, y: back_curve_top(player) },
        Point { x: BACK_CURVE_X, y: back_curve_top(player) },
        Point { x: clamp_coord(player.x - STEP_SIZE), y: player.y },
    ]
}

/// Where on its way back the hand block is to be shown.
#[derive(Debug, Clone, Copy)]
pub struct BackFlight {
    /// The control points of the curve.
    pub points: [Point; 4],
    /// Time flown.
    pub elapsed: u64,
    /// Time that the whole flight takes.
    pub duration: u64,
}

/// One step of the way back.
#[derive(Debug, Clone, Copy)]
pub struct BackStep {
    /// Set while the hand block flies: the caller shows it on the curve.
    pub flight: Option<BackFlight>,
    /// Set to `Idle` when the hand block has arrived.
    pub next: Option<HandBlockState>,
}

/// Advances the way back of the hand block by `delta` nanoseconds.
///
/// The first step lays the curve from where the hand block is to the side of the player.
/// Every later step reports the curve and the time flown; the hand block has arrived when,
/// before that step, it was nearer to the player than the arrival distance. Then the curve
/// is dropped and the timer rewound.
pub fn handle_collision_back_animation(
    delta: u64,
    timer: &mut CollisionBackTimer,
    points: &mut BezierPoints,
    player: &Point,
    hand_block: &HandBlock,
) -> (step: BackStep)
    ensures
        old(points).0 is None ==> {
            &&& final(timer).0 == old(timer).0.ticked(delta)
            &&& final(points).0 is Some
            &&& final(points).0.unwrap()@ == back_curve(hand_block.translation, *player)
            &&& step.flight is None
            &&& step.next is None
        },
        old(points).0 is Some ==> {
            &&& step.flight is Some
            &&& step.flight.unwrap().points == old(points).0.unwrap()
            &&& step.flight.unwrap().elapsed == old(timer).0.ticked(delta).elapsed
            &&& step.flight.unwrap().duration == old(timer).0.duration
        },
        old(points).0 is Some && within_radius(
            hand_block.translation,
            *player,
            BACK_ARRIVE_DISTANCE as int,
        ) ==> {
            &&& final(timer).0 == old(timer).0.ticked(delta).rewound()
            &&& final(points).0 is None
            &&& step.next == Some(HandBlockState::Idle)
        },
        old(points).0 is Some && !within_radius(
            hand_block.translation,
            *player,
            BACK_ARRIVE_DISTANCE as int,
        ) ==> {
            &&& final(timer).0 == old(timer).0.ticked(delta)
            &&& final(points).0 == old(points).0
            &&& step.next is None
        },
{
    timer.0.tick(delta);
    if let Some(b_points) = points.0 {
        let flight = BackFlight {
            points: b_points,
            elapsed: timer.0.elapsed(),
            duration: timer.0.duration(),
        };
        if hand_block.translation.is_within(player, BACK_ARRIVE_DISTANCE) {
            points.0 = None;
            timer.0.reset();
            BackStep { flight: Some(flight), next: Some(HandBlockState::Idle) }
        } else {
            BackStep { flight: Some(flight), next: None }
        }
    } else {
        let raised: i32 = shift_coord(player.y, BACK_CURVE_RISE as i64);
        let top_y: i32 = if raised < WH / 2 - STEP_SIZE {
            raised
        } else {
            WH / 2 - STEP_SIZE
        };
        let curve: [Point; 4] = [
            hand_block.translation,
            Point { x: BACK_CURVE_X, y: top_y },
            Point { x: BACK_CURVE_X, y: top_y },
            Point { x: shift_coord(player.x, -(STEP_SIZE as i64)), y: player.y },
        ];
        assert(curve@ =~= back_curve(hand_block.translation, *player));
        points.0 = Some(curve);
        BackStep { flight: None, next: None }
    }
}

/// After a rebuild of the block index, whatever a query lists is a block that was visible
/// at the rebuild, at the place where it was displayed then.
pub proof fn lemma_hits_are_visible_blocks(
    blocks: Seq<Block>,
    index: Multiset<Collidable>,
    center: Point,
    radius: i32,
    hits: Seq<Collidable>,
    k: int,
)
    requires
        index == visible_points(blocks).to_multiset(),
        hits.to_multiset() == index.filter(hit_by(center, radius)),
        0 <= k < hits.len(),
    ensures
        exists|i: int|
            0 <= i < blocks.len() && (#[trigger] blocks[i]).show && blocks[i].entity
                == hits[k].entity && blocks[i].translation == hits[k].pos,
{
    broadcast use vstd::seq_lib::group_to_multiset_ensures;

    let shown = |b: Block| b.show;
    let point = |b: Block| Collidable { pos: b.translation, entity: b.entity };
    hits.to_multiset_ensures();
    assert(hits.contains(hits[k]));
    assert(hits.to_multiset().count(hits[k]) > 0);
    assert(index.count(hits[k]) > 0);
    let points = visible_points(blocks);
    points.to_multiset_ensures();
    assert(points.contains(hits[k]));
    let j = choose|j: int| 0 <= j < points.len() && points[j] == hits[k];
    let visible = blocks.filter(shown);
    assert(points[j] == point(visible[j]));
    blocks.lemma_filter_pred(shown, j);
    assert(visible.contains(visible[j]));
    blocks.lemma_filter_contains_rev(shown, visible[j]);
    let i = choose|i: int| 0 <= i < blocks.len() && blocks[i] == visible[j];
    assert(blocks[i].show && blocks[i].entity == hits[k].entity && blocks[i].translation
        == hits[k].pos);
}

/// After a rebuild of the block index, no query lists a block that was eliminated before
/// the rebuild, as long as no two blocks of the board are known by the same name.
pub proof fn lemma_hidden_block_is_never_hit(
    blocks: Seq<Block>,
    index: Multiset<Collidable>,
    center: Point,
    radius: i32,
    hits: Seq<Collidable>,
    hidden: int,
)
    requires
        index == visible_points(blocks).to_multiset(),
        hits.to_multiset() == index.filter(hit_by(center, radius)),
        forall|i: int, j: int|
            0 <= i < j < blocks.len() ==> (#[trigger] blocks[i]).entity != (
            #[trigger] blocks[j]).entity,
        0 <= hidden < blocks.len(),
        !blocks[hidden].show,
    ensures
        forall|k: int| 0 <= k < hits.len() ==> (#[trigger] hits[k]).entity != blocks[hidden].entity,
{
    assert forall|k: int| 0 <= k < hits.len() implies (#[trigger] hits[k]).entity
        != blocks[hidden].entity by {
        lemma_hits_are_visible_blocks(blocks, index, center, radius, hits, k);
        let i = choose|i: int|
            0 <= i < blocks.len() && (#[trigger] blocks[i]).show && blocks[i].entity
                == hits[k].entity && blocks[i].translation == hits[k].pos;
        if hits[k].entity == blocks[hidden].entity {
            if i < hidden {
                assert(blocks[i].entity != blocks[hidden].entity);
            } else if hidden < i {
                assert(blocks[hidden].entity != blocks[i].entity);
            }
        }
    }
}

} // verus!
