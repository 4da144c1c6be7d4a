//! The player: steps on the ladder and throws.

use vstd::prelude::*;
use crate::constants::{PLAYER_INIT_POS, STEP_SIZE};
use crate::point::Point;
use crate::state::{HandBlockState, PlayerState};

verus! {

/// The steps that the player moves for the given intents: one up unless the top rung is
/// reached, one down unless the player stands on the lowest rung. Opposite intents cancel.
pub open spec fn ladder_steps(up: bool, down: bool, y: i32) -> int {
    (if up && y <= -PLAYER_INIT_POS.1 - STEP_SIZE {
        1int
    } else {
        0int
    }) - (if down && y > PLAYER_INIT_POS.1 {
        1int
    } else {
        0int
    })
}

/// Moves the player along the ladder. A player that moves is in the moving state; one that
/// does not is left as it is.
pub fn handle_player_movement(
    up: bool,
    down: bool,
    player: &mut Point,
    player_state: &mut PlayerState,
)
    ensures
        final(player).x == old(player).x,
        final(player).y == old(player).y + ladder_steps(up, down, old(player).y) * STEP_SIZE,
        *final(player_state) == if ladder_steps(up, down, old(player).y) != 0 {
            PlayerState::Moving
        } else {
            *old(player_state)
        },
{
    let mut steps: i32 = 0;
    if up && player.y <= -PLAYER_INIT_POS.1 - STEP_SIZE {
        steps += 1;
    }
    if down && player.y > PLAYER_INIT_POS.1 {
        steps -= 1;
    }
    if steps != 0 {
        player.y = player.y + steps * STEP_SIZE;
        *player_state = PlayerState::Moving;
    }
}

/// Throws the hand block on the player's intent, if the hand block is idle.
pub fn handle_throw_block(
    throw: bool,
    hand_block_state: HandBlockState,
    player_state: &mut PlayerState,
) -> (next: Option<HandBlockState>)
    ensures
        throw && hand_block_state == HandBlockState::Idle ==> {
            &&& next == Some(HandBlockState::Moving)
            &&& *final(player_state) == PlayerState::Throwing
        },
        !(throw && hand_block_state == HandBlockState::Idle) ==> {
            &&& next is None
            &&& *final(player_state) == *old(player_state)
        },
{
    if throw && hand_block_state == HandBlockState::Idle {
        *player_state = PlayerState::Throwing;
        Some(HandBlockState::Moving)
    } else {
        None
    }
}

} // verus!
