//! The life counter: decremented on collision, read by the UI, and
//! watched by a monitor that ends the round when it reaches zero.

use vstd::prelude::*;
use crate::app_state::AppState;
use crate::consts::INITIAL_LIFES;

verus! {

/// Round-scoped life counter; the collision state machine is its only
/// mutator.
#[derive(Clone, Copy, Debug, PartialEq, Eq, Structural)]
pub struct PlayersLifes(pub u32);

impl PlayersLifes {
    /// A fresh counter at the configured starting value.
    pub fn new() -> (r: Self)
        ensures
            r.0 == INITIAL_LIFES,
    {
        PlayersLifes(INITIAL_LIFES)
    }
}

/// The per-tick monitor of the life counter: once it reaches zero the
/// round transitions to the game-over state; otherwise the state is
/// left alone.
pub fn game_over(state: &mut AppState, lifes: &PlayersLifes)
    ensures
        lifes.0 == 0 ==> *final(state) == AppState::GameOver,
        lifes.0 != 0 ==> *final(state) == *old(state),
{
    if lifes.0 == 0 {
        *state = AppState::GameOver;
    }
}

} // verus!
