//! The pose of the player.

use vstd::prelude::*;
use crate::state::PlayerState;
use crate::timer::Timer;

verus! {

/// The time for which the player holds a pose.
#[derive(Debug, Clone, Copy, PartialEq, Eq, Structural, Hash)]
pub struct AnimationTimer(pub Timer);

/// The sprite of a pose.
pub open spec fn pose_sprite(state: PlayerState) -> usize {
    match state {
        PlayerState::Idle => 0,
        PlayerState::Moving => 1,
        PlayerState::Throwing => 2,
    }
}

/// Advances the pose timer.
pub fn animate_timer_tick(delta: u64, timer: &mut AnimationTimer)
    ensures
        final(timer).0 == old(timer).0.ticked(delta),
{
    timer.0.tick(delta);
}

/// Gives the sprite of the player's pose. Once the pose has been held for its time, the
/// timer is rewound and the player stands idle again.
pub fn player_animation(
    player_state: &mut PlayerState,
    timer: &mut AnimationTimer,
) -> (sprite: usize)
    ensures
        sprite == pose_sprite(*old(player_state)),
        old(timer).0.finished ==> final(timer).0 == old(timer).0.rewound() && *final(player_state)
            == PlayerState::Idle,
        !old(timer).0.finished ==> *final(timer) == *old(timer) && *final(player_state) == *old(
            player_state,
        ),
{
    let sprite: usize = match *player_state {
        PlayerState::Idle => 0,
        PlayerState::Moving => 1,
        PlayerState::Throwing => 2,
    };
    if timer.0.finished() {
        timer.0.reset();
        *player_state = PlayerState::Idle;
    }
    sprite
}

} // verus!
