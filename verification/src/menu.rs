//! The start button of the menu.

use vstd::prelude::*;
use crate::constants::{GAME_DURATION_NANOS, MOLE_SPAWN_INTERVAL_NANOS};
use crate::resources::{GameState, GameTimer, MoleSpawnTimer, Score};
use crate::timer::{CountdownMode, TimerModel};

verus! {

/// How the player is touching the start button.
#[derive(Clone, Copy, Debug, PartialEq, Eq, Structural)]
pub enum ButtonInteraction {
    Pressed,
    Hovered,
    Idle,
}

/// What pressing start sets up: the clocks of a new round and the state to
/// go to.
pub struct RoundStart {
    pub game_timer: GameTimer,
    pub spawn_timer: MoleSpawnTimer,
    pub next_state: GameState,
}

/// Handles a change of the start button. A press resets the score and
/// starts a round: a full round clock, a fresh spawner, and the playing
/// state. Hovering or leaving the button starts nothing.
pub fn handle_start_button(interaction: ButtonInteraction, score: &mut Score) -> (start: Option<
    RoundStart,
>)
    ensures
        interaction == ButtonInteraction::Pressed ==> final(score).0 == 0 && (start matches Some(s)
            && s.game_timer.0@ == TimerModel::fresh(GAME_DURATION_NANOS as nat, CountdownMode::Once)
            && s.spawn_timer.0@ == TimerModel::fresh(
            MOLE_SPAWN_INTERVAL_NANOS as nat,
            CountdownMode::Repeating,
        ) && s.next_state == GameState::Playing),
        interaction != ButtonInteraction::Pressed ==> final(score).0 == old(score).0 && start is None,
{
    match interaction {
        ButtonInteraction::Pressed => {
            score.0 = 0;
            Some(
                RoundStart {
                    game_timer: GameTimer::new_round(),
                    spawn_timer: MoleSpawnTimer::new_round(),
                    next_state: GameState::Playing,
                },
            )
        },
        ButtonInteraction::Hovered => None,
        ButtonInteraction::Idle => None,
    }
}

} // verus!
