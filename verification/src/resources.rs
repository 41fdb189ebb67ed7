//! The game's state machine and the values that live across frames: the
//! score, the high score, the round clock and the mole spawner.

use vstd::prelude::*;
use crate::constants::{GAME_DURATION_NANOS, MOLE_SPAWN_INTERVAL_NANOS};
use crate::timer::{Countdown, CountdownMode, TimerModel};

verus! {

/// The two screens of the game.
#[derive(Clone, Copy, Debug, PartialEq, Eq, Hash, Structural)]
pub enum GameState {
    /// Shown at startup and after each round.
    Menu,
    /// A round is on.
    Playing,
}

impl Default for GameState {
    fn default() -> (s: GameState)
        ensures
            s == GameState::Menu,
    {
        GameState::Menu
    }
}

/// The best score of the session.
pub struct HighScore(pub u32);

impl Default for HighScore {
    fn default() -> (h: HighScore)
        ensures
            h.0 == 0,
    {
        HighScore(0)
    }
}

/// The score of the current round.
pub struct Score(pub u32);

impl Default for Score {
    fn default() -> (s: Score)
        ensures
            s.0 == 0,
    {
        Score(0)
    }
}

/// The countdown of the current round.
pub struct GameTimer(pub Countdown);

impl GameTimer {
    /// A full round's countdown, not started.
    pub fn new_round() -> (t: GameTimer)
        ensures
            t.0@ == TimerModel::fresh(GAME_DURATION_NANOS as nat, CountdownMode::Once),
    {
        GameTimer(Countdown::new(GAME_DURATION_NANOS, CountdownMode::Once))
    }
}

/// The repeating countdown that pops up moles.
pub struct MoleSpawnTimer(pub Countdown);

impl MoleSpawnTimer {
    /// The spawner of a new round.
    pub fn new_round() -> (t: MoleSpawnTimer)
        ensures
            t.0@ == TimerModel::fresh(MOLE_SPAWN_INTERVAL_NANOS as nat, CountdownMode::Repeating),
    {
        MoleSpawnTimer(Countdown::new(MOLE_SPAWN_INTERVAL_NANOS, CountdownMode::Repeating))
    }
}

/// The high score after a round that ended with `score`.
pub open spec fn best(high: u32, score: u32) -> u32 {
    if score > high {
        score
    } else {
        high
    }
}

/// The high score after a round is the larger of the old high score and
/// the round's score.
pub proof fn lemma_best_is_max(high: u32, score: u32)
    ensures
        best(high, score) >= high,
        best(high, score) >= score,
        best(high, score) == high || best(high, score) == score,
{
}

} // verus!
