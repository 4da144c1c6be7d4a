use smart_block::block::Block;
use smart_block::point::Point;
use smart_block::score::{
    high_score_animation, reset_resources, update_count_down, update_count_down_text, update_score,
    CountDown, HighScore, Score,
};
use smart_block::settlement::{
    despawn_remainder_block, settle_start, time_to_score, time_to_score_fits, total_score_fits,
    update_total_score, DespawnBlockTimer, RemainTime, SettleStartTimer, TimeToScore,
};
use smart_block::stage::Stage;
use smart_block::state::{GameState, SettlementState};
use smart_block::timer::TimerMode;

#[test]
fn batch_scores_are_squares() {
    let expected = [(1u32, 100u32, None), (2, 400, Some(400)), (3, 900, Some(900)), (4, 1600, Some(1600)), (20, 40000, Some(40000))];
    for (n, points, popup) in expected {
        let mut score = Score { total_score: 7, once_remove_block: n };
        assert!(score.can_award());
        assert_eq!(update_score(&mut score), popup);
        assert_eq!(score, Score { total_score: 7 + points, once_remove_block: 0 });
    }
}

#[test]
fn no_batch_no_points() {
    let mut score = Score { total_score: 7, once_remove_block: 0 };
    assert_eq!(update_score(&mut score), None);
    assert_eq!(score, Score { total_score: 7, once_remove_block: 0 });
    assert_eq!(Score::default(), Score { total_score: 0, once_remove_block: 0 });
}

#[test]
fn score_that_does_not_fit_is_told() {
    assert!(Score { total_score: u32::MAX - 100, once_remove_block: 1 }.can_award());
    assert!(!Score { total_score: u32::MAX - 99, once_remove_block: 1 }.can_award());
    assert!(Score { total_score: 0, once_remove_block: 6553 }.can_award());
    assert!(!Score { total_score: 0, once_remove_block: 6554 }.can_award());
    assert!(!Score { total_score: 0, once_remove_block: u32::MAX }.can_award());
}

#[test]
fn popup_rises_and_goes() {
    let mut popup = HighScore::default();
    assert_eq!(popup.animation_timer.duration(), 500_000_000);
    assert_eq!(popup.animation_timer.mode(), TimerMode::Once);
    let mut place = Point::new(-300, 100);
    assert!(!high_score_animation(250_000_000, &mut popup, &mut place));
    assert_eq!(place, Point::new(-300, 116));
    assert!(high_score_animation(250_000_000, &mut popup, &mut place));
    assert_eq!(place, Point::new(-300, 132));
    assert!(!high_score_animation(250_000_000, &mut popup, &mut place));

    // Short frames add up.
    let mut popup = HighScore::default();
    let mut place = Point::new(-300, 100);
    let mut gone = 0;
    for _ in 0..125 {
        if high_score_animation(4_000_000, &mut popup, &mut place) {
            gone += 1;
        }
    }
    assert_eq!(place, Point::new(-300, 132));
    assert_eq!(gone, 1);
}

#[test]
fn countdown_ends_in_the_main_menu() {
    let mut count_down = CountDown::default();
    assert_eq!(count_down.0.duration(), 180_000_000_000);
    assert_eq!(update_count_down(179_999_999_999, &mut count_down), None);
    assert_eq!(update_count_down_text(&count_down), (0, 0));
    assert_eq!(update_count_down(1, &mut count_down), Some(GameState::MainMenu));
    assert_eq!(count_down.0.elapsed(), 0);
    assert!(!count_down.0.just_finished());
    assert_eq!(update_count_down_text(&count_down), (3, 0));
}

#[test]
fn countdown_shows_minutes_and_seconds() {
    let mut count_down = CountDown::default();
    assert_eq!(update_count_down_text(&count_down), (3, 0));
    count_down.0.tick(500_000_000);
    assert_eq!(update_count_down_text(&count_down), (2, 59));
    count_down.0.tick(119_500_000_000);
    assert_eq!(update_count_down_text(&count_down), (1, 0));
    count_down.0.tick(1);
    assert_eq!(update_count_down_text(&count_down), (0, 59));
    count_down.0.elapsed = u64::MAX;
    assert_eq!(update_count_down_text(&count_down), (0, 0));
}

#[test]
fn reset_starts_the_game_over() {
    let mut score = Score { total_score: 900, once_remove_block: 2 };
    let mut stage = Stage(5);
    let mut count_down = CountDown::default();
    count_down.0.tick(77);
    reset_resources(&mut score, &mut stage, &mut count_down);
    assert_eq!(score, Score { total_score: 0, once_remove_block: 2 });
    assert_eq!(stage, Stage(1));
    assert_eq!(count_down.0.elapsed(), 0);
    assert_eq!(Stage::default(), Stage(1));
}

#[test]
fn settlement_waits_a_second() {
    let mut timer = SettleStartTimer::default();
    assert_eq!(settle_start(999_999_999, &mut timer), None);
    assert_eq!(settle_start(1, &mut timer), Some(SettlementState::DespawnBlock));
    assert_eq!(settle_start(1, &mut timer), None);
}

#[test]
fn leftover_blocks_go_one_at_a_time() {
    let mut timer = DespawnBlockTimer::default();
    let mut blocks = vec![
        Block::new(1, Point::new(0, 0), 8),
        Block::new(2, Point::new(48, 0), 9),
    ];
    assert_eq!(despawn_remainder_block(100_000_000, &mut timer, &mut blocks), None);
    assert_eq!(blocks.len(), 2);
    assert_eq!(blocks[0].index, 14);
    assert_eq!(blocks[1].index, 9);
    assert_eq!(despawn_remainder_block(100_000_000, &mut timer, &mut blocks), None);
    assert_eq!(blocks, vec![Block::new(2, Point::new(48, 0), 9)]);
    assert_eq!(despawn_remainder_block(100_000_000, &mut timer, &mut blocks), None);
    assert_eq!(blocks[0].index, 14);
    assert_eq!(despawn_remainder_block(100_000_000, &mut timer, &mut blocks), None);
    assert!(blocks.is_empty());
    let before = timer;
    assert_eq!(
        despawn_remainder_block(100_000_000, &mut timer, &mut blocks),
        Some(SettlementState::TimeToScore)
    );
    assert_eq!(timer, before);
}

#[test]
fn thirty_seven_seconds_are_worth_3700() {
    let mut count_down = CountDown::default();
    count_down.0.tick(143_000_000_000);
    let mut bonus = TimeToScore::default();
    let mut remain = RemainTime::default();
    let mut zero_shown = 0;
    let mut steps = 0;
    let mut time_clear = 0;
    loop {
        assert!(time_to_score_fits(&count_down, &bonus, &remain));
        let step = time_to_score(&mut count_down, &mut bonus, &mut remain);
        steps += 1;
        if step.time_clear {
            time_clear += 1;
        }
        if step.next == Some(SettlementState::End) {
            break;
        }
        assert_eq!(step.next, None);
        assert_eq!(remain.0, Some(37));
        if update_count_down_text(&count_down) == (0, 0) {
            zero_shown += 1;
        }
        if steps <= 72 {
            assert_eq!(bonus.0, 50 * steps);
        }
    }
    assert_eq!(steps, 74);
    assert_eq!(bonus.0, 3700);
    assert_eq!(zero_shown, 1);
    assert_eq!(time_clear, 1);
    assert_eq!(remain.0, None);

    let mut stage = Stage(1);
    let mut score = Score { total_score: 500, once_remove_block: 0 };
    assert!(total_score_fits(&bonus, &stage, &score));
    let next = update_total_score(&mut bonus, &mut stage, &mut score);
    assert_eq!(next, (GameState::GameInit, SettlementState::Not));
    assert_eq!(score.total_score, 4200);
    assert_eq!(bonus.0, 0);
    assert_eq!(stage, Stage(2));
}

#[test]
fn seconds_are_floored() {
    let mut count_down = CountDown::default();
    count_down.0.tick(142_100_000_000);
    let mut bonus = TimeToScore::default();
    let mut remain = RemainTime::default();
    loop {
        if time_to_score(&mut count_down, &mut bonus, &mut remain).next.is_some() {
            break;
        }
    }
    assert_eq!(bonus.0, 3700);
}

#[test]
fn less_than_a_second_is_worth_nothing() {
    let mut count_down = CountDown::default();
    count_down.0.tick(179_600_000_000);
    let mut bonus = TimeToScore::default();
    let mut remain = RemainTime::default();
    let step = time_to_score(&mut count_down, &mut bonus, &mut remain);
    assert_eq!(step.next, Some(SettlementState::End));
    assert!(step.time_clear);
    assert_eq!(bonus.0, 0);
}

#[test]
fn every_stage_counts_its_own_time() {
    let mut bonus = TimeToScore::default();
    let mut remain = RemainTime::default();
    for left in [10u64, 3] {
        let mut count_down = CountDown::default();
        count_down.0.tick((180 - left) * 1_000_000_000);
        loop {
            if time_to_score(&mut count_down, &mut bonus, &mut remain).next.is_some() {
                break;
            }
        }
        assert_eq!(bonus.0, left * 100);
    }
}

#[test]
fn counters_that_do_not_fit_are_told() {
    let count_down = CountDown::default();
    assert!(!time_to_score_fits(&count_down, &TimeToScore(u64::MAX - 49), &RemainTime(None)));
    assert!(time_to_score_fits(&count_down, &TimeToScore(u64::MAX - 50), &RemainTime(None)));
    assert!(!time_to_score_fits(&count_down, &TimeToScore(0), &RemainTime(Some(u64::MAX))));
    let score = Score { total_score: u32::MAX - 10, once_remove_block: 0 };
    assert!(total_score_fits(&TimeToScore(10), &Stage(1), &score));
    assert!(!total_score_fits(&TimeToScore(11), &Stage(1), &score));
    assert!(!total_score_fits(&TimeToScore(u64::MAX), &Stage(1), &score));
    assert!(!total_score_fits(&TimeToScore(0), &Stage(usize::MAX), &score));
}

#[test]
fn settlement_states_follow_each_other() {
    let order = [
        SettlementState::Not,
        SettlementState::Start,
        SettlementState::DespawnBlock,
        SettlementState::TimeToScore,
        SettlementState::End,
    ];
    assert_eq!(SettlementState::default(), SettlementState::Not);
    for (i, from) in order.iter().enumerate() {
        for (j, to) in order.iter().enumerate() {
            let expected = if j == (i + 1) % 5 { *to } else { *from };
            assert_eq!(from.advance(Some(*to)), expected);
        }
        assert_eq!(from.advance(None), *from);
    }
    assert_eq!(GameState::default(), GameState::Loading);
}
