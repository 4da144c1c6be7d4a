//! Settlement: what happens between the clearing of a stage and the start of the next.

use vstd::prelude::*;
use crate::block::Block;
use crate::constants::{BLOCK_BEFORE_REMOVE_INDEX, EVERY_SECOND_SCORE, NANOS_PER_SEC};
use crate::score::{CountDown, Score};
use crate::stage::Stage;
use crate::state::{GameState, SettlementState};
use crate::timer::{Timer, TimerMode};

verus! {

/// The bonus for the time left, while it is being counted.
#[derive(Debug, Clone, Copy, PartialEq, Eq, Structural, Hash)]
pub struct TimeToScore(pub u64);

impl Default for TimeToScore {
    fn default() -> (t: Self)
        ensures
            t == TimeToScore(0),
    {
        TimeToScore(0)
    }
}

/// The pause before the settlement starts.
#[derive(Debug, Clone, Copy, PartialEq, Eq, Structural, Hash)]
pub struct SettleStartTimer(pub Timer);

impl Default for SettleStartTimer {
    fn default() -> (t: Self)
        ensures
            t.0 == (Timer {
                duration: NANOS_PER_SEC,
                elapsed: 0,
                mode: TimerMode::Repeating,
                finished: false,
                times_finished_this_tick: 0,
            }),
    {
        SettleStartTimer(Timer::new(NANOS_PER_SEC, TimerMode::Repeating))
    }
}

/// Time between the removals of two leftover blocks.
pub const DESPAWN_BLOCK_TIMER: u64 = 200_000_000;

/// The time until the next leftover block is removed.
#[derive(Debug, Clone, Copy, PartialEq, Eq, Structural, Hash)]
pub struct DespawnBlockTimer(pub Timer);

impl Default for DespawnBlockTimer {
    fn default() -> (t: Self)
        ensures
            t.0 == (Timer {
                duration: DESPAWN_BLOCK_TIMER,
                elapsed: 0,
                mode: TimerMode::Repeating,
                finished: false,
                times_finished_this_tick: 0,
            }),
    {
        DespawnBlockTimer(Timer::new(DESPAWN_BLOCK_TIMER, TimerMode::Repeating))
    }
}

/// The whole seconds that were left on the countdown when the stage was cleared, once the
/// counting of the bonus has begun.
#[derive(Debug, Clone, Copy, PartialEq, Eq, Structural, Hash)]
pub struct RemainTime(pub Option<u64>);

impl Default for RemainTime {
    fn default() -> (t: Self)
        ensures
            t.0 is None,
    {
        RemainTime(None)
    }
}

/// Waits out the pause before the settlement, then asks for the leftover blocks to go.
pub fn settle_start(
    delta: u64,
    settle_start_timer: &mut SettleStartTimer,
) -> (next: Option<SettlementState>)
    ensures
        final(settle_start_timer).0 == old(settle_start_timer).0.ticked(delta),
        next == if final(settle_start_timer).0.just_finished() {
            Some(SettlementState::DespawnBlock)
        } else {
            None
        },
{
    settle_start_timer.0.tick(delta);
    if settle_start_timer.0.just_finished() {
        Some(SettlementState::DespawnBlock)
    } else {
        None
    }
}

/// Removes the leftover blocks one at a time.
///
/// With no block left the bonus is counted next. Otherwise the first block shows the
/// sprite of a block about to go, and goes whenever the timer has just finished.
pub fn despawn_remainder_block(
    delta: u64,
    timer: &mut DespawnBlockTimer,
    blocks: &mut Vec<Block>,
) -> (next: Option<SettlementState>)
    ensures
        old(blocks).len() == 0 ==> {
            &&& next == Some(SettlementState::TimeToScore)
            &&& *final(timer) == *old(timer)
            &&& final(blocks)@ == old(blocks)@
        },
        old(blocks).len() > 0 ==> {
            &&& next is None
            &&& final(timer).0 == old(timer).0.ticked(delta)
            &&& final(blocks)@ == if final(timer).0.just_finished() {
                old(blocks)@.drop_first()
            } else {
                old(blocks)@.update(
                    0,
                    Block { index: BLOCK_BEFORE_REMOVE_INDEX, ..old(blocks)@[0] },
                )
            }
        },
{
    if blocks.len() == 0 {
        return Some(SettlementState::TimeToScore);
    }
    timer.0.tick(delta);
    let mut first = blocks[0];
    first.index = BLOCK_BEFORE_REMOVE_INDEX;
    blocks.set(0, first);
    if timer.0.just_finished() {
        blocks.remove(0);
        assert(blocks@ =~= old(blocks)@.drop_first());
    }
    None
}

/// The time by which the countdown is run down on each step of the counting.
pub const TIME_TO_SCORE_STEP: u64 = 500_000_000;

/// The bonus shown for one step of the counting while time is left.
pub const TIME_TO_SCORE_STEP_SCORE: u64 = 50;

/// What one step of the counting of the bonus asks of the caller.
#[derive(Debug, Clone, Copy, PartialEq, Eq, Structural, Hash)]
pub struct TimeToScoreStep {
    /// Set to `End` when the bonus is committed.
    pub next: Option<SettlementState>,
    /// Whether the countdown has just run out.
    pub time_clear: bool,
}

/// The whole seconds on which the bonus is based: those noted when the counting began or,
/// on its first step, those left on the countdown.
pub open spec fn seconds_to_convert(count_down: CountDown, remain_time: RemainTime) -> u64 {
    match remain_time.0 {
        Some(time) => time,
        None => count_down.0.spec_remaining() / NANOS_PER_SEC,
    }
}

/// The bonus that a step of the counting adds to what is shown: something as long as the
/// countdown, after the step, has a whole second left.
pub open spec fn step_score(count_down: CountDown) -> u64 {
    if count_down.0.spec_remaining() / NANOS_PER_SEC != 0 {
        TIME_TO_SCORE_STEP_SCORE
    } else {
        0
    }
}

/// Whether one more step of the counting fits the counters.
pub open spec fn can_count(
    count_down: CountDown,
    time_to_score: TimeToScore,
    remain_time: RemainTime,
) -> bool {
    &&& time_to_score.0 + TIME_TO_SCORE_STEP_SCORE <= u64::MAX
    &&& seconds_to_convert(count_down, remain_time) * EVERY_SECOND_SCORE <= u64::MAX
}

/// Tells whether one more step of the counting fits the counters.
pub fn time_to_score_fits(
    count_down: &CountDown,
    time_to_score: &TimeToScore,
    remain_time: &RemainTime,
) -> (b: bool)
    ensures
        b == can_count(*count_down, *time_to_score, *remain_time),
{
    let time: u64 = match remain_time.0 {
        Some(time) => time,
        None => count_down.0.remaining_secs(),
    };
    time_to_score.0 <= u64::MAX - TIME_TO_SCORE_STEP_SCORE && time <= u64::MAX / EVERY_SECOND_SCORE
}

/// Counts the time left on the countdown into a bonus, one step at a time.
///
/// The first step notes the whole seconds left. Every step runs the countdown down by
/// half a second and, while a whole second is left, raises the bonus shown. On the step on
/// which the countdown runs out, the bonus becomes the seconds noted times the points per
/// second, the note is dropped and the settlement ends.
pub fn time_to_score(
    count_down: &mut CountDown,
    bonus: &mut TimeToScore,
    remain_time: &mut RemainTime,
) -> (step: TimeToScoreStep)
    requires
        can_count(*old(count_down), *old(bonus), *old(remain_time)),
    ensures
        final(count_down).0 == old(count_down).0.ticked(TIME_TO_SCORE_STEP),
        step.time_clear == final(count_down).0.just_finished(),
        final(count_down).0.just_finished() ==> {
            &&& final(bonus).0 == seconds_to_convert(*old(count_down), *old(remain_time))
                * EVERY_SECOND_SCORE
            &&& final(remain_time).0 is None
            &&& step.next == Some(SettlementState::End)
        },
        !final(count_down).0.just_finished() ==> {
            &&& final(bonus).0 == old(bonus).0 + step_score(*final(count_down))
            &&& final(remain_time).0 == Some(
                seconds_to_convert(*old(count_down), *old(remain_time)),
            )
            &&& step.next is None
        },
{
    let time: u64 = match remain_time.0 {
        Some(time) => time,
        None => count_down.0.remaining_secs(),
    };
    remain_time.0 = Some(time);

    count_down.0.tick(TIME_TO_SCORE_STEP);

    if count_down.0.remaining_secs() != 0 {
        bonus.0 += TIME_TO_SCORE_STEP_SCORE;
    }
    if count_down.0.just_finished() {
        bonus.0 = time * EVERY_SECOND_SCORE;
        remain_time.0 = None;
        TimeToScoreStep { next: Some(SettlementState::End), time_clear: true }
    } else {
        TimeToScoreStep { next: None, time_clear: false }
    }
}

/// Whether the bonus and one more stage fit their counters.
pub open spec fn can_settle(time_to_score: TimeToScore, stage: Stage, score: Score) -> bool {
    score.total_score + time_to_score.0 <= u32::MAX && stage.0 < usize::MAX
}

/// Tells whether the bonus and one more stage fit their counters.
pub fn total_score_fits(time_to_score: &TimeToScore, stage: &Stage, score: &Score) -> (b: bool)
    ensures
        b == can_settle(*time_to_score, *stage, *score),
{
    time_to_score.0 <= (u32::MAX - score.total_score) as u64 && stage.0 < usize::MAX
}

/// Ends the settlement: the bonus goes into the score, the next stage is due, and the game
/// is set up anew.
pub fn update_total_score(
    time_to_score: &mut TimeToScore,
    stage: &mut Stage,
    score: &mut Score,
) -> (next: (GameState, SettlementState))
    requires
        can_settle(*old(time_to_score), *old(stage), *old(score)),
    ensures
        final(score).total_score == old(score).total_score + old(time_to_score).0,
        final(score).once_remove_block == old(score).once_remove_block,
        final(time_to_score).0 == 0,
        final(stage).0 == old(stage).0 + 1,
        next == (GameState::GameInit, SettlementState::Not),
{
    score.total_score += time_to_score.0 as u32;
    time_to_score.0 = 0;
    stage.0 += 1;
    (GameState::GameInit, SettlementState::Not)
}

} // verus!
