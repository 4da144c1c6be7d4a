use smart_block::arrow::{update_arrow, Arrow};
use smart_block::block::{Block, Direction, HandBlock};
use smart_block::evaluator::{
    count_visible, find_category_at, find_column_top, find_row_front, find_rung_category,
    find_wall_front, get_target_block_by_player_position, handle_game_over,
    handle_no_remove_block_by_player, AlertEvent,
};
use smart_block::point::Point;
use smart_block::spatial::Collidable;
use smart_block::state::SettlementState;
use std::collections::HashSet;

fn ladder() -> Vec<Point> {
    (0..13).map(|i| Point::new(240, -288 + 48 * i)).collect()
}

fn left_walls() -> Vec<Collidable> {
    let mut walls = Vec::new();
    for j in 1..=13 {
        walls.push(Collidable { pos: Point::new(-576, 336 - 48 * j), entity: 100 + j as u64 });
        walls.push(Collidable { pos: Point::new(288, 336 - 48 * j), entity: 200 + j as u64 });
    }
    walls
}

/// Rows from the bottom, columns from the left; 0 is an empty cell.
fn board(rows: &[&[usize]]) -> Vec<Block> {
    let mut blocks = Vec::new();
    for (r, row) in rows.iter().enumerate() {
        for (c, &index) in row.iter().enumerate() {
            if index > 0 {
                let pos = Point::new(-528 + 48 * c as i32, -288 + 48 * r as i32);
                blocks.push(Block::new(blocks.len() as u64, pos, index));
            }
        }
    }
    blocks
}

fn hand(index: usize) -> HandBlock {
    HandBlock { index, direction: Direction::Left, translation: Point::new(192, -288), carry: 0 }
}

fn set(items: &[usize]) -> HashSet<usize> {
    items.iter().copied().collect()
}

#[test]
fn rows_show_their_rightmost_block() {
    let blocks = board(&[&[8, 9, 10], &[11, 8], &[9]]);
    assert_eq!(find_row_front(&blocks, -288), Some(-432));
    assert_eq!(find_row_front(&blocks, -240), Some(-480));
    assert_eq!(find_row_front(&blocks, -192), Some(-528));
    assert_eq!(find_row_front(&blocks, -144), None);
    assert_eq!(find_rung_category(&blocks, &left_walls(), -288), Some(10));
    assert_eq!(find_rung_category(&blocks, &left_walls(), -240), Some(8));
    assert_eq!(find_rung_category(&blocks, &left_walls(), -192), Some(9));
}

#[test]
fn empty_rows_show_the_top_of_the_column_along_the_wall() {
    let blocks = board(&[&[8, 9, 10], &[11, 8], &[9]]);
    let walls = left_walls();
    assert_eq!(find_wall_front(&walls, -144), Some(-576));
    assert_eq!(find_wall_front(&walls, 1000), None);
    assert_eq!(find_column_top(&blocks, -528), Some(-192));
    assert_eq!(find_column_top(&blocks, -432), Some(-288));
    assert_eq!(find_column_top(&blocks, 0), None);
    assert_eq!(find_rung_category(&blocks, &walls, -144), Some(9));
    assert_eq!(find_rung_category(&blocks, &walls, 288), Some(9));
    assert_eq!(
        get_target_block_by_player_position(&ladder(), &blocks, &walls),
        set(&[10, 8, 9])
    );
}

#[test]
fn innermost_left_wall_decides_the_column() {
    let mut walls = left_walls();
    walls.push(Collidable { pos: Point::new(-528, -96), entity: 1 });
    walls.push(Collidable { pos: Point::new(-480, -96), entity: 2 });
    let blocks = board(&[&[8, 9, 10]]);
    assert_eq!(find_wall_front(&walls, -96), Some(-480));
    assert_eq!(find_rung_category(&blocks, &walls, -96), Some(10));
    assert_eq!(find_rung_category(&blocks, &walls, -48), Some(8));
}

#[test]
fn without_a_left_wall_the_column_is_zero() {
    let blocks = vec![Block::new(1, Point::new(0, -288), 11), Block::new(2, Point::new(0, -240), 8)];
    let walls = vec![Collidable { pos: Point::new(288, 0), entity: 1 }];
    assert_eq!(find_rung_category(&blocks, &walls, 0), Some(8));
    assert_eq!(find_rung_category(&blocks, &Vec::new(), 48), Some(8));
}

#[test]
fn eliminated_blocks_are_not_reachable() {
    let mut blocks = board(&[&[8, 9, 10]]);
    blocks[2].show = false;
    assert_eq!(find_row_front(&blocks, -288), Some(-480));
    assert_eq!(find_category_at(&blocks, Point::new(-432, -288)), None);
    assert_eq!(find_category_at(&blocks, Point::new(-480, -288)), Some(9));
    assert_eq!(count_visible(&blocks), 2);
    assert_eq!(
        get_target_block_by_player_position(&ladder(), &blocks, &left_walls()),
        set(&[9, 8])
    );
}

#[test]
fn last_block_at_a_place_is_shown() {
    let blocks = vec![Block::new(1, Point::new(0, 0), 8), Block::new(2, Point::new(0, 0), 9)];
    assert_eq!(find_category_at(&blocks, Point::new(0, 0)), Some(9));
}

#[test]
fn blocks_count_where_they_are_displayed() {
    let mut blocks = board(&[&[8]]);
    blocks[0].translation = Point::new(-528, -240);
    assert_eq!(find_row_front(&blocks, -288), None);
    assert_eq!(find_row_front(&blocks, -240), Some(-528));
}

#[test]
fn verdict_is_the_same_on_an_unchanged_board() {
    let blocks = board(&[&[8, 9, 10], &[11, 8], &[9]]);
    let walls = left_walls();
    for index in 0..16 {
        let first = handle_no_remove_block_by_player(&ladder(), &blocks, &walls, &hand(index));
        let second = handle_no_remove_block_by_player(&ladder(), &blocks, &walls, &hand(index));
        assert_eq!(first, second);
        assert_eq!(first, ![8, 9, 10].contains(&index));
    }
}

#[test]
fn no_verdict_without_board_walls_or_ladder() {
    let blocks = board(&[&[8]]);
    let walls = left_walls();
    assert!(handle_no_remove_block_by_player(&ladder(), &blocks, &walls, &hand(9)));
    assert!(!handle_no_remove_block_by_player(&ladder(), &Vec::new(), &walls, &hand(9)));
    assert!(!handle_no_remove_block_by_player(&ladder(), &blocks, &Vec::new(), &hand(9)));
    assert!(!handle_no_remove_block_by_player(&Vec::new(), &blocks, &walls, &hand(9)));
    assert!(get_target_block_by_player_position(&Vec::new(), &blocks, &walls).is_empty());
}

#[test]
fn nearly_cleared_board_is_won_on_no_match() {
    let blocks = board(&[&[8, 9], &[10, 11]]);
    let walls = left_walls();
    let mut hand_block = hand(12);
    let no_remove = handle_no_remove_block_by_player(&ladder(), &blocks, &walls, &hand_block);
    assert!(no_remove);
    let mut player = Point::new(240, 0);
    let out = handle_game_over(no_remove, &blocks, 4, &mut player, &mut hand_block);
    assert_eq!(out.next_state, Some(SettlementState::Start));
    assert_eq!(out.alert, None);
    assert_eq!(player, Point::new(240, 0));
    assert_eq!(hand_block, hand(12));
    assert_eq!(SettlementState::Not.advance(out.next_state), SettlementState::Start);
}

#[test]
fn no_match_on_a_full_board_gives_a_wildcard() {
    let blocks = board(&[&[8, 9, 10], &[11, 8]]);
    let mut hand_block = HandBlock {
        index: 12,
        direction: Direction::Down,
        translation: Point::new(100, 100),
        carry: 7,
    };
    let mut player = Point::new(240, 0);
    let out = handle_game_over(true, &blocks, 4, &mut player, &mut hand_block);
    assert_eq!(out.next_state, None);
    assert_eq!(
        out.alert,
        Some(AlertEvent(Some(String::from("Can't Remove\nGive You A LightningBlock."))))
    );
    assert_eq!(player, Point::new(240, -288));
    assert_eq!(
        hand_block,
        HandBlock {
            index: 15,
            direction: Direction::Down,
            translation: Point::new(192, -288),
            carry: 7,
        }
    );
}

#[test]
fn threshold_counts_visible_blocks_only() {
    let mut blocks = board(&[&[8, 9, 10], &[11, 8]]);
    blocks[0].show = false;
    let mut hand_block = hand(12);
    let mut player = Point::new(240, 0);
    let out = handle_game_over(true, &blocks, 4, &mut player, &mut hand_block);
    assert_eq!(out.next_state, Some(SettlementState::Start));
    let out = handle_game_over(true, &blocks, 3, &mut player, &mut hand_block);
    assert_eq!(out.next_state, None);
    assert!(out.alert.is_some());
}

#[test]
fn nothing_is_decided_without_the_signal_or_the_board() {
    let blocks = board(&[&[8]]);
    let mut hand_block = hand(12);
    let mut player = Point::new(240, 0);
    let out = handle_game_over(false, &blocks, 4, &mut player, &mut hand_block);
    assert_eq!((out.next_state, out.alert), (None, None));
    let out = handle_game_over(true, &Vec::new(), 4, &mut player, &mut hand_block);
    assert_eq!((out.next_state, out.alert), (None, None));
    assert_eq!(player, Point::new(240, 0));
    assert_eq!(hand_block, hand(12));
    assert_eq!(AlertEvent::default(), AlertEvent(None));
}

#[test]
fn arrow_points_at_the_first_hit() {
    let blocks = board(&[&[8, 9, 10], &[11, 8], &[9]]);
    let walls = left_walls();
    assert_eq!(
        update_arrow(&Point::new(240, -240), &blocks, &walls),
        Some(Arrow { translation: Point::new(-432, -240), direction: Direction::Left })
    );
    assert_eq!(
        update_arrow(&Point::new(240, 0), &blocks, &walls),
        Some(Arrow { translation: Point::new(-528, -144), direction: Direction::Down })
    );
    assert_eq!(update_arrow(&Point::new(240, 1000), &blocks, &walls), None);
    assert_eq!(update_arrow(&Point::new(240, 0), &Vec::new(), &walls), None);
    assert_eq!(update_arrow(&Point::new(240, -240), &blocks, &Vec::new()), None);
}
