use smart_block::block::{
    handle_block_movement, handle_block_remove, handle_hand_block_move, handle_reset_hand_block,
    Block, Direction, HandBlock, RemoveBlock, RemoveBlockResource,
};
use smart_block::collision::{
    find_block, find_wall, handle_block_collision, handle_block_ground_collision,
    handle_block_wall_collision, handle_collision_back_animation, handle_lightning_block_collision,
    lighting_first_remove_block_index_reset, resolve_block_hits, resolve_lightning_hits,
    resolve_wall_hits, spawn_ground_kd_tree, spawn_wall_kd_tree, update_block_kd_tree,
    BezierPoints, BlockKdTree, CollisionBackTimer, GroundKdTree, IsEliminate,
    LightFirstRemoveBlock, WallKdTree,
};
use smart_block::point::Point;
use smart_block::score::{update_score, Score};
use smart_block::spatial::Collidable;
use smart_block::state::{BlockGroupState, HandBlockState};

fn hand(index: usize, x: i32, y: i32) -> HandBlock {
    HandBlock { index, direction: Direction::Left, translation: Point::new(x, y), carry: 0 }
}

fn hit(entity: u64) -> Collidable {
    Collidable { pos: Point::new(0, 0), entity }
}

fn tree_of(blocks: &Vec<Block>) -> BlockKdTree {
    let mut tree = BlockKdTree::default();
    update_block_kd_tree(&mut tree, blocks);
    tree
}

#[test]
fn single_match_is_eliminated_and_scores_100() {
    let mut blocks = vec![Block::new(1, Point::new(-336, -288), 9)];
    let tree = tree_of(&blocks);
    let mut flag = IsEliminate(false);
    let mut hand_block = hand(9, -300, -288);
    let mut state = HandBlockState::Moving;

    let next = handle_block_collision(&tree, &mut flag, &mut hand_block, &mut blocks);
    assert_eq!(next, None);
    assert!(!blocks[0].show);
    assert!(flag.0);
    assert_eq!(hand_block.index, 9);

    // A second scan at the same place passes the eliminated block.
    let next = handle_block_collision(&tree, &mut flag, &mut hand_block, &mut blocks);
    assert_eq!(next, None);
    assert!(flag.0);
    state = state.advance(next);
    assert_eq!(state, HandBlockState::Moving);

    // The throw ends on the ground.
    let mut grounds = GroundKdTree::default();
    spawn_ground_kd_tree(&mut grounds, &vec![Collidable { pos: Point::new(-576, -336), entity: 50 }]);
    hand_block.translation = Point::new(-576, -300);
    let next = handle_block_ground_collision(&grounds, &mut flag, &hand_block);
    assert_eq!(next, Some(HandBlockState::Backing));
    state = state.advance(next);
    assert_eq!(state, HandBlockState::Backing);

    let mut score = Score::default();
    let mut batch = RemoveBlockResource::default();
    let falls = handle_block_remove(&mut score, &mut batch, &mut blocks);
    assert_eq!(falls, Some(BlockGroupState::FallDown));
    assert!(blocks.is_empty());
    assert_eq!(score.once_remove_block, 1);
    assert_eq!(batch.blocks, Some(vec![RemoveBlock { pos: Point::new(-336, -288) }]));
    assert!(score.can_award());
    let popup = update_score(&mut score);
    assert_eq!(popup, None);
    assert_eq!(score.total_score, 100);
    assert_eq!(score.once_remove_block, 0);
}

#[test]
fn chain_of_two_then_mismatch_swaps_and_scores_400() {
    let mut blocks = vec![
        Block::new(1, Point::new(-336, -288), 9),
        Block::new(2, Point::new(-384, -288), 9),
        Block::new(3, Point::new(-432, -288), 10),
    ];
    let tree = tree_of(&blocks);
    let mut flag = IsEliminate(false);
    let mut hand_block = hand(9, -300, -288);

    assert_eq!(handle_block_collision(&tree, &mut flag, &mut hand_block, &mut blocks), None);
    hand_block.translation.x = -345;
    assert_eq!(handle_block_collision(&tree, &mut flag, &mut hand_block, &mut blocks), None);
    assert!(!blocks[0].show && !blocks[1].show && blocks[2].show);
    assert!(flag.0);

    hand_block.translation.x = -390;
    let next = handle_block_collision(&tree, &mut flag, &mut hand_block, &mut blocks);
    assert_eq!(next, Some(HandBlockState::Backing));
    assert!(blocks[2].show);
    assert_eq!(blocks[2].index, 9);
    assert_eq!(hand_block.index, 10);
    assert!(!flag.0);

    let mut score = Score::default();
    let mut batch = RemoveBlockResource::default();
    handle_block_remove(&mut score, &mut batch, &mut blocks);
    assert_eq!(score.once_remove_block, 2);
    assert_eq!(blocks.len(), 1);
    assert_eq!(blocks[0].entity, 3);
    let popup = update_score(&mut score);
    assert_eq!(popup, Some(400));
    assert_eq!(score.total_score, 400);
}

#[test]
fn hits_are_resolved_in_their_order() {
    let board = vec![
        Block::new(1, Point::new(0, 0), 9),
        Block::new(2, Point::new(0, 0), 9),
        Block::new(3, Point::new(0, 0), 10),
    ];

    let mut blocks = board.clone();
    let mut flag = IsEliminate(false);
    let mut hand_block = hand(9, 0, 0);
    let next = resolve_block_hits(&vec![hit(1), hit(2), hit(3)], &mut flag, &mut hand_block, &mut blocks);
    assert_eq!(next, Some(HandBlockState::Backing));
    assert_eq!(blocks.iter().map(|b| b.show).collect::<Vec<_>>(), vec![false, false, true]);
    assert_eq!(blocks[2].index, 9);
    assert_eq!(hand_block.index, 10);
    assert!(!flag.0);

    // The mismatch first: no swap, and the matches behind it are still taken.
    let mut blocks = board.clone();
    let mut flag = IsEliminate(false);
    let mut hand_block = hand(9, 0, 0);
    let next = resolve_block_hits(&vec![hit(3), hit(1), hit(2)], &mut flag, &mut hand_block, &mut blocks);
    assert_eq!(next, Some(HandBlockState::Backing));
    assert_eq!(blocks.iter().map(|b| b.show).collect::<Vec<_>>(), vec![false, false, true]);
    assert_eq!(blocks[2].index, 10);
    assert_eq!(hand_block.index, 9);
    assert!(flag.0);
}

#[test]
fn mismatch_without_earlier_match_keeps_the_categories() {
    let mut blocks = vec![Block::new(1, Point::new(0, 0), 10)];
    let mut flag = IsEliminate(false);
    let mut hand_block = hand(9, 10, 0);
    let next = resolve_block_hits(&vec![hit(1)], &mut flag, &mut hand_block, &mut blocks);
    assert_eq!(next, Some(HandBlockState::Backing));
    assert_eq!(blocks[0], Block::new(1, Point::new(0, 0), 10));
    assert_eq!(hand_block, hand(9, 10, 0));
    assert!(!flag.0);
}

#[test]
fn unknown_and_eliminated_hits_are_passed() {
    let mut gone = Block::new(1, Point::new(0, 0), 10);
    gone.show = false;
    let mut blocks = vec![gone];
    let mut flag = IsEliminate(true);
    let mut hand_block = hand(9, 10, 0);
    let next = resolve_block_hits(&vec![hit(1), hit(77)], &mut flag, &mut hand_block, &mut blocks);
    assert_eq!(next, None);
    assert_eq!(blocks, vec![gone]);
    assert!(flag.0);
    assert_eq!(find_block(&blocks, 1), Some(0));
    assert_eq!(find_block(&blocks, 77), None);
}

#[test]
fn ordinary_rules_leave_the_wildcard_alone() {
    let mut blocks = vec![Block::new(1, Point::new(0, 0), 9)];
    let tree = tree_of(&blocks);
    let mut flag = IsEliminate(false);
    let mut hand_block = hand(15, 10, 0);
    assert_eq!(handle_block_collision(&tree, &mut flag, &mut hand_block, &mut blocks), None);
    assert!(blocks[0].show);
    assert!(!flag.0);

    let mut none: Vec<Block> = Vec::new();
    let mut hand_block = hand(9, 10, 0);
    assert_eq!(handle_block_collision(&tree, &mut flag, &mut hand_block, &mut none), None);
}

#[test]
fn stale_index_entries_are_harmless() {
    let mut blocks = vec![Block::new(1, Point::new(0, 0), 9), Block::new(2, Point::new(48, 0), 9)];
    let tree = tree_of(&blocks);
    blocks.remove(0);
    let mut flag = IsEliminate(false);
    let mut hand_block = hand(9, 10, 0);
    assert_eq!(handle_block_collision(&tree, &mut flag, &mut hand_block, &mut blocks), None);
    assert_eq!(blocks.len(), 1);
    assert!(!blocks[0].show);
}

#[test]
fn wildcard_locks_onto_the_first_category() {
    let mut blocks = vec![
        Block::new(1, Point::new(-336, -288), 9),
        Block::new(2, Point::new(-384, -288), 9),
        Block::new(3, Point::new(-432, -288), 11),
        Block::new(4, Point::new(-480, -288), 9),
    ];
    let tree = tree_of(&blocks);
    let mut lock = LightFirstRemoveBlock::default();
    let mut hand_block = hand(15, -300, -288);

    assert_eq!(handle_lightning_block_collision(&tree, &mut lock, &hand_block, &mut blocks), None);
    assert!(!blocks[0].show);
    assert_eq!(lock.0, Some(9));

    hand_block.translation.x = -345;
    assert_eq!(handle_lightning_block_collision(&tree, &mut lock, &hand_block, &mut blocks), None);
    assert!(!blocks[1].show);
    assert_eq!(lock.0, Some(9));

    hand_block.translation.x = -393;
    let next = handle_lightning_block_collision(&tree, &mut lock, &hand_block, &mut blocks);
    assert_eq!(next, Some(HandBlockState::Backing));
    assert!(blocks[2].show);
    assert_eq!(blocks[2].index, 11);
    assert!(blocks[3].show);
    assert_eq!(lock.0, Some(9));

    let hidden: Vec<usize> = blocks.iter().filter(|b| !b.show).map(|b| b.index).collect();
    assert_eq!(hidden, vec![9, 9]);

    lighting_first_remove_block_index_reset(&mut lock, &mut hand_block);
    assert_eq!(hand_block.index, 9);
    assert_eq!(lock.0, None);
}

#[test]
fn wildcard_hits_in_one_step() {
    let mut blocks = vec![
        Block::new(1, Point::new(0, 0), 10),
        Block::new(2, Point::new(0, 0), 8),
        Block::new(3, Point::new(0, 0), 10),
    ];
    let mut lock = LightFirstRemoveBlock(None);
    let next = resolve_lightning_hits(&vec![hit(1), hit(2), hit(3)], &mut lock, &mut blocks);
    assert_eq!(next, Some(HandBlockState::Backing));
    assert_eq!(blocks.iter().map(|b| b.show).collect::<Vec<_>>(), vec![false, true, false]);
    assert_eq!(lock.0, Some(10));
}

#[test]
fn wildcard_rules_leave_an_ordinary_block_alone() {
    let mut blocks = vec![Block::new(1, Point::new(0, 0), 9)];
    let tree = tree_of(&blocks);
    let mut lock = LightFirstRemoveBlock::default();
    let hand_block = hand(9, 10, 0);
    assert_eq!(handle_lightning_block_collision(&tree, &mut lock, &hand_block, &mut blocks), None);
    assert!(blocks[0].show);
    assert_eq!(lock.0, None);
}

#[test]
fn reset_without_lock_keeps_the_wildcard() {
    let mut lock = LightFirstRemoveBlock(None);
    let mut hand_block = hand(15, 0, 0);
    lighting_first_remove_block_index_reset(&mut lock, &mut hand_block);
    assert_eq!(hand_block, hand(15, 0, 0));
    assert_eq!(lock.0, None);
}

#[test]
fn wall_turns_the_hand_block_down_and_ground_turns_it_back() {
    let walls = vec![
        Collidable { pos: Point::new(-576, -288), entity: 7 },
        Collidable { pos: Point::new(-576, -240), entity: 8 },
    ];
    let mut wall_tree = WallKdTree::default();
    spawn_wall_kd_tree(&mut wall_tree, &walls);
    let mut hand_block = hand(9, -500, -288);

    handle_block_wall_collision(&wall_tree, &mut hand_block, &walls);
    assert_eq!(hand_block, hand(9, -500, -288));

    hand_block.translation.x = -540;
    handle_block_wall_collision(&wall_tree, &mut hand_block, &walls);
    assert_eq!(hand_block.direction, Direction::Down);
    assert_eq!(hand_block.translation, Point::new(-576 + 48, -288));

    let mut grounds = GroundKdTree::default();
    spawn_ground_kd_tree(
        &mut grounds,
        &vec![Collidable { pos: Point::new(-528, -336), entity: 30 }],
    );
    let mut flag = IsEliminate(true);
    assert_eq!(handle_block_ground_collision(&grounds, &mut flag, &hand_block), None);
    assert!(flag.0);
    handle_hand_block_move(10_000_000, &mut hand_block);
    assert_eq!(hand_block.translation, Point::new(-528, -300));
    assert_eq!(hand_block.carry, 800_000_000);
    let next = handle_block_ground_collision(&grounds, &mut flag, &hand_block);
    assert_eq!(next, Some(HandBlockState::Backing));
    assert!(!flag.0);
}

#[test]
fn wall_hits_need_a_known_wall() {
    let walls = vec![Collidable { pos: Point::new(-576, 0), entity: 7 }];
    let mut hand_block = hand(9, -540, 0);
    resolve_wall_hits(&vec![hit(99)], &mut hand_block, &walls);
    assert_eq!(hand_block, hand(9, -540, 0));
    resolve_wall_hits(&vec![hit(7)], &mut hand_block, &walls);
    assert_eq!(hand_block.translation.x, -528);
    assert_eq!(find_wall(&walls, 7), Some(0));
    assert_eq!(find_wall(&walls, 99), None);

    let mut wall_tree = WallKdTree::default();
    spawn_wall_kd_tree(&mut wall_tree, &walls);
    let mut hand_block = hand(9, -540, 0);
    handle_block_wall_collision(&wall_tree, &mut hand_block, &Vec::new());
    assert_eq!(hand_block, hand(9, -540, 0));
}

#[test]
fn last_wall_of_the_hits_decides() {
    let walls = vec![
        Collidable { pos: Point::new(-576, 0), entity: 7 },
        Collidable { pos: Point::new(-528, 0), entity: 8 },
    ];
    let mut hand_block = hand(9, -540, 0);
    resolve_wall_hits(&vec![hit(8), hit(7)], &mut hand_block, &walls);
    assert_eq!(hand_block.translation.x, -528);
    let mut hand_block = hand(9, -540, 0);
    resolve_wall_hits(&vec![hit(7), hit(8)], &mut hand_block, &walls);
    assert_eq!(hand_block.translation.x, -480);
}

#[test]
fn thrown_block_flies_left_then_down() {
    let mut hand_block = hand(9, 192, -288);
    handle_hand_block_move(1_000_000_000, &mut hand_block);
    assert_eq!(hand_block.translation, Point::new(192 - 1280, -288));
    hand_block.direction = Direction::Down;
    handle_hand_block_move(500_000_000, &mut hand_block);
    assert_eq!(hand_block.translation, Point::new(192 - 1280, -288 - 640));
    handle_hand_block_move(u64::MAX, &mut hand_block);
    assert_eq!(hand_block.translation.y, i32::MIN);
    handle_reset_hand_block(&mut hand_block);
    assert_eq!(hand_block.direction, Direction::Left);
    handle_hand_block_move(0, &mut hand_block);
    assert_eq!(hand_block.translation, Point::new(192 - 1280, i32::MIN));
}

#[test]
fn flight_does_not_depend_on_the_frame_rate() {
    let mut sixty = hand(9, 192, -288);
    for _ in 0..60 {
        handle_hand_block_move(16_666_667, &mut sixty);
    }
    let mut fast = hand(9, 192, -288);
    for _ in 0..240 {
        handle_hand_block_move(4_166_667, &mut fast);
    }
    let mut once = hand(9, 192, -288);
    handle_hand_block_move(60 * 16_666_667, &mut once);
    assert_eq!(sixty, once);
    assert_eq!(sixty.translation, Point::new(192 - 1280, -288));
    assert_eq!(fast.translation, Point::new(192 - 1280, -288));
}

#[test]
fn idle_hand_block_stays_at_the_players_side() {
    let mut hand_block = hand(9, 0, 0);
    hand_block.carry = 5;
    handle_block_movement(&Point::new(240, -96), &mut hand_block);
    assert_eq!(hand_block, hand(9, 192, -96));
    handle_block_movement(&Point::new(i32::MIN, 5), &mut hand_block);
    assert_eq!(hand_block.translation, Point::new(i32::MIN, 5));
}

#[test]
fn default_hand_block() {
    let hand_block = HandBlock::default();
    assert_eq!(hand_block.index, 15);
    assert_eq!(hand_block.direction, Direction::Left);
    assert_eq!(hand_block.translation, Point::new(192, -288));
    assert_eq!(Direction::default(), Direction::Left);
}

#[test]
fn removal_keeps_the_visible_blocks_in_order() {
    let mut blocks = vec![
        Block::new(1, Point::new(0, 0), 9),
        Block::new(2, Point::new(48, 0), 9),
        Block::new(3, Point::new(96, 0), 9),
        Block::new(4, Point::new(144, 0), 9),
    ];
    blocks[0].show = false;
    blocks[2].show = false;
    blocks[2].translation = Point::new(96, 7);
    let mut score = Score { total_score: 5, once_remove_block: 0 };
    let mut batch = RemoveBlockResource::default();
    batch.falling = true;
    let next = handle_block_remove(&mut score, &mut batch, &mut blocks);
    assert_eq!(next, Some(BlockGroupState::FallDown));
    assert_eq!(blocks.iter().map(|b| b.entity).collect::<Vec<_>>(), vec![2, 4]);
    assert_eq!(
        batch.blocks,
        Some(vec![RemoveBlock { pos: Point::new(0, 0) }, RemoveBlock { pos: Point::new(96, 7) }])
    );
    assert!(!batch.falling);
    assert_eq!(score, Score { total_score: 5, once_remove_block: 2 });
}

#[test]
fn removal_without_eliminated_blocks() {
    let mut blocks = vec![Block::new(1, Point::new(0, 0), 9)];
    let mut score = Score { total_score: 5, once_remove_block: 3 };
    let mut batch = RemoveBlockResource::default();
    batch.blocks = Some(vec![RemoveBlock { pos: Point::new(1, 1) }]);
    assert_eq!(handle_block_remove(&mut score, &mut batch, &mut blocks), None);
    assert_eq!(blocks.len(), 1);
    assert_eq!(batch.blocks, None);
    assert_eq!(score.once_remove_block, 0);

    let mut nothing: Vec<Block> = Vec::new();
    let mut score = Score { total_score: 5, once_remove_block: 3 };
    batch.blocks = Some(vec![RemoveBlock { pos: Point::new(1, 1) }]);
    assert_eq!(handle_block_remove(&mut score, &mut batch, &mut nothing), None);
    assert_eq!(score.once_remove_block, 3);
    assert_eq!(batch.blocks, Some(vec![RemoveBlock { pos: Point::new(1, 1) }]));
}

#[test]
fn way_back_is_laid_then_flown() {
    let mut timer = CollisionBackTimer::default();
    let mut points = BezierPoints::default();
    let player = Point::new(240, -288);
    let mut hand_block = hand(9, -528, -300);

    let step = handle_collision_back_animation(16_000_000, &mut timer, &mut points, &player, &hand_block);
    assert!(step.flight.is_none());
    assert_eq!(step.next, None);
    assert_eq!(
        points.0,
        Some([
            Point::new(-528, -300),
            Point::new(-50, -68),
            Point::new(-50, -68),
            Point::new(192, -288),
        ])
    );
    assert_eq!(timer.0.elapsed(), 16_000_000);

    let step = handle_collision_back_animation(16_000_000, &mut timer, &mut points, &player, &hand_block);
    let flight = step.flight.unwrap();
    assert_eq!(flight.points[0], Point::new(-528, -300));
    assert_eq!(flight.elapsed, 32_000_000);
    assert_eq!(flight.duration, 333_333_333);
    assert_eq!(step.next, None);
    assert!(points.0.is_some());

    hand_block.translation = Point::new(192, -288);
    let step = handle_collision_back_animation(16_000_000, &mut timer, &mut points, &player, &hand_block);
    assert_eq!(step.flight.unwrap().elapsed, 48_000_000);
    assert_eq!(step.next, Some(HandBlockState::Idle));
    assert!(points.0.is_none());
    assert_eq!(timer.0.elapsed(), 0);
    assert_eq!(HandBlockState::Backing.advance(step.next), HandBlockState::Idle);
}

#[test]
fn way_back_stays_inside_the_field() {
    let mut timer = CollisionBackTimer::default();
    let mut points = BezierPoints::default();
    let player = Point::new(240, 240);
    let hand_block = hand(9, 240, 240);
    handle_collision_back_animation(0, &mut timer, &mut points, &player, &hand_block);
    let curve = points.0.unwrap();
    assert_eq!(curve[1], Point::new(-50, 312));
    assert_eq!(curve[2], Point::new(-50, 312));
    // The hand block is at the player already: it arrives on the next step.
    let step = handle_collision_back_animation(0, &mut timer, &mut points, &player, &hand_block);
    assert_eq!(step.next, Some(HandBlockState::Idle));
}

#[test]
fn arrival_distance_is_strict() {
    let mut timer = CollisionBackTimer::default();
    let player = Point::new(0, 0);
    let curve = [Point::new(0, 0); 4];
    let mut points = BezierPoints(Some(curve));
    let step = handle_collision_back_animation(1, &mut timer, &mut points, &player, &hand(9, 50, 0));
    assert_eq!(step.next, None);
    assert!(points.0.is_some());
    let step = handle_collision_back_animation(1, &mut timer, &mut points, &player, &hand(9, 49, 0));
    assert_eq!(step.next, Some(HandBlockState::Idle));
}

#[test]
fn hand_block_states_follow_the_throw() {
    let (idle, moving, backing) =
        (HandBlockState::Idle, HandBlockState::Moving, HandBlockState::Backing);
    assert_eq!(HandBlockState::default(), idle);
    assert_eq!(idle.advance(Some(moving)), moving);
    assert_eq!(moving.advance(Some(backing)), backing);
    assert_eq!(backing.advance(Some(idle)), idle);
    assert_eq!(idle.advance(Some(backing)), idle);
    assert_eq!(moving.advance(Some(idle)), moving);
    assert_eq!(backing.advance(Some(moving)), backing);
    assert_eq!(moving.advance(None), moving);
    assert_eq!(idle.advance(Some(idle)), idle);
}
