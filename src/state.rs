//! The round state: lives, status, score and difficulty tier.
use vstd::prelude::*;

verus! {

/// Status of a round.
#[derive(Clone, Copy, Debug, PartialEq, Eq, Structural)]
pub enum GameState {
    /// The round is being played.
    Yes,
    /// Lost: no lives remain and no ball is live.
    GameOver,
    /// Won: every brick is destroyed.
    GameClear,
}

/// Difficulty tier; it fixes the ball's speed and the paddle's width.
#[derive(Clone, Copy, Debug, PartialEq, Eq, Structural)]
pub enum BreakOutDifficulity {
    Easy,
    Normal,
    Hard,
}

/// The state of one round, owned by the coordinator.
#[derive(Clone, Copy, Debug, PartialEq, Eq, Structural)]
pub struct BreakOutGameState {
    /// Balls that may still be launched.
    pub remain_ball: u32,
    /// Status of the round.
    pub state: GameState,
    /// Accumulated score.
    pub score: u64,
    /// Active tier.
    pub difficulity: BreakOutDifficulity,
}

/// Lives at the start of a round.
pub const START_LIVES: u32 = 5;

impl BreakOutGameState {
    /// A fresh round: five lives, playing, no score, easy tier.
    pub fn new() -> (r: Self)
        ensures
            r.remain_ball == START_LIVES,
            r.state == GameState::Yes,
            r.score == 0,
            r.difficulity == BreakOutDifficulity::Easy,
    {
        BreakOutGameState {
            remain_ball: START_LIVES,
            state: GameState::Yes,
            score: 0,
            difficulity: BreakOutDifficulity::Easy,
        }
    }
}

} // verus!
