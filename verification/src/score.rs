//! The score, the bonus popup and the countdown of a stage.

use vstd::prelude::*;
use crate::constants::{
    COUNT_DOWN_SEC, HIGH_SCORE_ANIMATION_DURATION, HIGH_SCORE_ANIMATION_SPEED, NANOS_PER_SEC,
    ONEC_BLOCK_SCORE,
};
use crate::point::{clamp_coord, shift_coord, travel_offset, way_carried, way_covered, Point};
use crate::stage::Stage;
use crate::state::GameState;
use crate::timer::{Timer, TimerMode};

verus! {

/// The points of the player.
#[derive(Debug, Clone, Copy, PartialEq, Eq, Structural, Hash)]
pub struct Score {
    pub total_score: u32,
    /// Size of the last elimination batch, until its points are awarded.
    pub once_remove_block: u32,
}

impl Default for Score {
    fn default() -> (s: Self)
        ensures
            s == (Score { total_score: 0, once_remove_block: 0 }),
    {
        Score { total_score: 0, once_remove_block: 0 }
    }
}

/// The points for a batch of `n` blocks eliminated by one throw.
pub open spec fn batch_score(n: int) -> int {
    n * n * ONEC_BLOCK_SCORE
}

impl Score {
    /// Whether the points of the pending batch still fit the score.
    pub open spec fn pending_fits(&self) -> bool {
        self.total_score + batch_score(self.once_remove_block as int) <= u32::MAX
    }

    /// Tells whether the points of the pending batch still fit the score.
    pub fn can_award(&self) -> (b: bool)
        ensures
            b == self.pending_fits(),
    {
        let n: u128 = self.once_remove_block as u128;
        assert(n * n <= 0x1_0000_0000 * 0x1_0000_0000) by (nonlinear_arith)
            requires
                0 <= n < 0x1_0000_0000,
        ;
        assert(n * n * ONEC_BLOCK_SCORE == batch_score(self.once_remove_block as int))
            by (nonlinear_arith)
            requires
                n == self.once_remove_block,
        ;
        self.total_score as u128 + n * n * ONEC_BLOCK_SCORE as u128 <= u32::MAX as u128
    }
}

/// Awards the points of the pending elimination batch.
///
/// A batch of `n` blocks is worth `n` squared times the value of one block. A batch of two
/// or more also asks for a bonus popup that shows these points.
pub fn update_score(score: &mut Score) -> (popup: Option<u32>)
    requires
        old(score).pending_fits(),
    ensures
        final(score).total_score == old(score).total_score + batch_score(
            old(score).once_remove_block as int,
        ),
        final(score).once_remove_block == 0,
        old(score).once_remove_block >= 2 ==> popup == Some(
            batch_score(old(score).once_remove_block as int) as u32,
        ),
        old(score).once_remove_block < 2 ==> popup is None,
{
    let mut popup: Option<u32> = None;
    assert(batch_score(0) == 0);
    if score.once_remove_block > 0 {
        let n: u32 = score.once_remove_block;
        assert(n * n <= n * n * ONEC_BLOCK_SCORE) by (nonlinear_arith);
        assert(n * n * ONEC_BLOCK_SCORE == batch_score(n as int));
        let once_score: u32 = n * n * ONEC_BLOCK_SCORE;
        score.total_score += once_score;
        if n > 1 {
            popup = Some(once_score);
        }
        score.once_remove_block = 0;
    }
    popup
}

/// A bonus popup: it rises for a while and then goes away.
#[derive(Debug, Clone, Copy, PartialEq, Eq, Structural, Hash)]
pub struct HighScore {
    pub animation_timer: Timer,
    /// How far the popup is above where it is displayed, in billionths of a unit.
    pub carry: u64,
}

impl Default for HighScore {
    fn default() -> (h: Self)
        ensures
            h.animation_timer == (Timer {
                duration: HIGH_SCORE_ANIMATION_DURATION,
                elapsed: 0,
                mode: TimerMode::Once,
                finished: false,
                times_finished_this_tick: 0,
            }),
            h.carry == 0,
    {
        HighScore {
            animation_timer: Timer::new(HIGH_SCORE_ANIMATION_DURATION, TimerMode::Once),
            carry: 0,
        }
    }
}

/// Advances a bonus popup by `delta` nanoseconds: it rises, and tells whether its time is
/// up and it is to be taken down.
pub fn high_score_animation(
    delta: u64,
    high_score: &mut HighScore,
    translation: &mut Point,
) -> (despawn: bool)
    ensures
        final(high_score).animation_timer == old(high_score).animation_timer.ticked(delta),
        despawn == final(high_score).animation_timer.just_finished(),
        final(translation).x == old(translation).x,
        final(translation).y == clamp_coord(
            old(translation).y + way_covered(
                HIGH_SCORE_ANIMATION_SPEED,
                delta,
                old(high_score).carry,
            ),
        ),
        final(high_score).carry == way_carried(
            HIGH_SCORE_ANIMATION_SPEED,
            delta,
            old(high_score).carry,
        ),
{
    high_score.animation_timer.tick(delta);
    let (way, carry) = travel_offset(HIGH_SCORE_ANIMATION_SPEED, delta, high_score.carry);
    translation.y = shift_coord(translation.y, way);
    high_score.carry = carry;
    high_score.animation_timer.just_finished()
}

/// The time left to clear the stage.
#[derive(Debug, Clone, Copy, PartialEq, Eq, Structural, Hash)]
pub struct CountDown(pub Timer);

impl Default for CountDown {
    fn default() -> (c: Self)
        ensures
            c.0 == (Timer {
                duration: (COUNT_DOWN_SEC * NANOS_PER_SEC) as u64,
                elapsed: 0,
                mode: TimerMode::Repeating,
                finished: false,
                times_finished_this_tick: 0,
            }),
    {
        CountDown(Timer::new(COUNT_DOWN_SEC * NANOS_PER_SEC, TimerMode::Repeating))
    }
}

/// Whole seconds that the countdown shows: the countdown's length less the time elapsed.
pub open spec fn seconds_shown(count_down: CountDown) -> int {
    if count_down.0.elapsed >= COUNT_DOWN_SEC * NANOS_PER_SEC {
        0
    } else {
        (COUNT_DOWN_SEC * NANOS_PER_SEC - count_down.0.elapsed) / (NANOS_PER_SEC as int)
    }
}

/// Advances the countdown during play. When the time is up the countdown starts over and
/// the game goes back to the main menu.
pub fn update_count_down(delta: u64, count_down: &mut CountDown) -> (next: Option<GameState>)
    ensures
        old(count_down).0.ticked(delta).just_finished() ==> {
            &&& final(count_down).0 == old(count_down).0.ticked(delta).rewound()
            &&& next == Some(GameState::MainMenu)
        },
        !old(count_down).0.ticked(delta).just_finished() ==> {
            &&& final(count_down).0 == old(count_down).0.ticked(delta)
            &&& next is None
        },
{
    count_down.0.tick(delta);
    if count_down.0.just_finished() {
        count_down.0.reset();
        return Some(GameState::MainMenu);
    }
    None
}

/// The minutes and seconds that the countdown shows.
pub fn update_count_down_text(count_down: &CountDown) -> (shown: (u64, u64))
    ensures
        shown.0 == seconds_shown(*count_down) / 60,
        shown.1 == seconds_shown(*count_down) % 60,
{
    let total: u64 = COUNT_DOWN_SEC * NANOS_PER_SEC;
    let left: u64 = if count_down.0.elapsed() >= total {
        0
    } else {
        (total - count_down.0.elapsed()) / NANOS_PER_SEC
    };
    (left / 60, left % 60)
}

/// Back to the start of a game: no points, stage 1, a full countdown.
pub fn reset_resources(total_score: &mut Score, stage: &mut Stage, count_down: &mut CountDown)
    ensures
        final(total_score).total_score == 0,
        final(total_score).once_remove_block == old(total_score).once_remove_block,
        *final(stage) == Stage(1),
        final(count_down).0 == old(count_down).0.rewound(),
{
    total_score.total_score = 0;
    stage.0 = 1;
    count_down.0.reset();
}

} // verus!
