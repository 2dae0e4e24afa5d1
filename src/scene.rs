//! The game scene and the pause scene: what each asks of the scene stack.
use vstd::prelude::*;
use crate::brick::{grid_live_count, BrickSpawnParam, BrickTemplate, ARENA_LIMIT};
use crate::entities::{frame, BreakOutEntities, FrameEvents, Intent, MouseMoveInput};
use crate::paddle::{Paddle, PaddleMoveFlag};
use crate::geometry::{Vec2, COORD_LIMIT};
use crate::state::{BreakOutGameState, GameState, START_LIVES};

verus! {

/// What a scene asks of the scene stack after a frame.
#[derive(Clone, Copy, Debug, PartialEq, Eq, Structural)]
pub enum SceneController {
    /// Nothing.
    NOp,
    /// Push the pause scene.
    NewScene,
    /// Pop this scene.
    PopScene,
}

/// The values the heads-up display shows.
#[derive(Clone, Copy, Debug, PartialEq, Eq, Structural)]
pub struct Hud {
    pub remain_brick: usize,
    pub remain_ball: u32,
    pub score: u64,
}

/// The game scene: the round state and the entities.
pub struct BreakOut {
    state: BreakOutGameState,
    entities: BreakOutEntities,
    to_pause: bool,
}

impl BreakOut {
    pub closed spec fn wf(&self) -> bool {
        self.entities.wf() && self.entities.consistent(self.state)
    }

    pub closed spec fn game_state(&self) -> BreakOutGameState {
        self.state
    }

    pub closed spec fn pause_requested(&self) -> bool {
        self.to_pause
    }

    pub closed spec fn entities_spec(&self) -> &BreakOutEntities {
        &self.entities
    }

    /// A fresh round on the grid that `brick_param` lays out.
    pub fn new<F: Fn(u32, u32, Vec2, Vec2) -> Option<BrickTemplate>>(
        brick_param: BrickSpawnParam<F>,
        disp_size: Vec2,
    ) -> (r: Self)
        requires
            brick_param.wf(disp_size),
        ensures
            r.wf(),
            r.game_state() == (BreakOutGameState {
                remain_ball: START_LIVES,
                state: GameState::Yes,
                score: 0,
                difficulity: crate::state::BreakOutDifficulity::Easy,
            }),
            !r.pause_requested(),
            r.entities_spec().ball_spec() is None,
            brick_param.lays_out(r.entities_spec().grid(), disp_size),
    {
        BreakOut {
            state: BreakOutGameState::new(),
            entities: BreakOutEntities::new(brick_param, disp_size),
            to_pause: false,
        }
    }

    /// Runs one frame of the round; then asks for the pause scene if a
    /// pause was requested, consuming the request.
    pub fn update(&mut self, disp_size: Vec2) -> (r: (SceneController, FrameEvents))
        requires
            old(self).wf(),
            0 <= disp_size.x <= ARENA_LIMIT,
            0 <= disp_size.y <= ARENA_LIMIT,
        ensures
            final(self).wf(),
            r.0 == if old(self).pause_requested() {
                SceneController::NewScene
            } else {
                SceneController::NOp
            },
            !final(self).pause_requested(),
            (
                final(self).entities_spec().ball_spec(),
                final(self).entities_spec().paddle_spec(),
                final(self).entities_spec().pointer_spec(),
                final(self).entities_spec().grid(),
                final(self).game_state(),
                r.1,
            ) == frame(
                old(self).entities_spec().ball_spec(),
                old(self).entities_spec().paddle_spec(),
                old(self).entities_spec().pointer_spec(),
                old(self).entities_spec().grid(),
                old(self).game_state(),
                disp_size,
            ),
            old(self).game_state().state != GameState::Yes ==> final(self).game_state().state
                != GameState::Yes,
            final(self).game_state().score >= old(self).game_state().score,
            grid_live_count(final(self).entities_spec().grid()) == 0
                ==> final(self).game_state().state != GameState::Yes,
    {
        let ev = self.entities.update(disp_size, &mut self.state);
        if self.to_pause {
            self.to_pause = false;
            (SceneController::NewScene, ev)
        } else {
            (SceneController::NOp, ev)
        }
    }

    /// Records a press or release of the pause key.
    pub fn pause_input(&mut self, pressed: bool)
        ensures
            final(self).pause_requested() == pressed,
            final(self).game_state() == old(self).game_state(),
            final(self).entities_spec() == old(self).entities_spec(),
            final(self).wf() == old(self).wf(),
    {
        self.to_pause = pressed;
    }

    /// Records a press or release of a player intent.
    pub fn intent_input(&mut self, intent: Intent, pressed: bool)
        requires
            old(self).wf(),
        ensures
            final(self).wf(),
            final(self).game_state() == old(self).game_state(),
            final(self).pause_requested() == old(self).pause_requested(),
            final(self).entities_spec().ball_spec() == old(self).entities_spec().ball_spec(),
            final(self).entities_spec().pointer_spec() == old(self).entities_spec().pointer_spec(),
            final(self).entities_spec().grid() == old(self).entities_spec().grid(),
            final(self).entities_spec().paddle_spec() == (Paddle {
                move_flag: match intent {
                    Intent::MoveLeft => PaddleMoveFlag {
                        move_left: pressed,
                        ..old(self).entities_spec().paddle_spec().move_flag
                    },
                    Intent::MoveRight => PaddleMoveFlag {
                        move_right: pressed,
                        ..old(self).entities_spec().paddle_spec().move_flag
                    },
                    Intent::Launch => PaddleMoveFlag {
                        ball_shot: pressed,
                        ..old(self).entities_spec().paddle_spec().move_flag
                    },
                },
                ..old(self).entities_spec().paddle_spec()
            }),
    {
        self.entities.intent_input(intent, pressed);
    }

    /// Hands the frame's pointer motion to the paddle.
    pub fn mouse_motion_input(&mut self, input: MouseMoveInput)
        requires
            old(self).wf(),
            -COORD_LIMIT <= input.0.x <= COORD_LIMIT,
        ensures
            final(self).wf(),
            final(self).game_state() == old(self).game_state(),
            final(self).pause_requested() == old(self).pause_requested(),
            final(self).entities_spec().ball_spec() == old(self).entities_spec().ball_spec(),
            final(self).entities_spec().pointer_spec() == old(self).entities_spec().pointer_spec(),
            final(self).entities_spec().grid() == old(self).entities_spec().grid(),
            final(self).entities_spec().paddle_spec() == (Paddle {
                move_flag: PaddleMoveFlag {
                    move_delta: input.0.x,
                    ..old(self).entities_spec().paddle_spec().move_flag
                },
                ..old(self).entities_spec().paddle_spec()
            }),
    {
        self.entities.mouse_motion_input(input);
    }

    /// The values for the heads-up display.
    pub fn hud(&self) -> (r: Hud)
        requires
            self.wf(),
        ensures
            r.remain_brick == grid_live_count(self.entities_spec().grid()),
            r.remain_ball == self.game_state().remain_ball,
            r.score == self.game_state().score,
    {
        Hud {
            remain_brick: self.entities.remain_brick(),
            remain_ball: self.state.remain_ball,
            score: self.state.score,
        }
    }

    pub fn state(&self) -> (r: BreakOutGameState)
        ensures
            r == self.game_state(),
    {
        self.state
    }

    pub fn entities(&self) -> (r: &BreakOutEntities)
        ensures
            r == self.entities_spec(),
    {
        &self.entities
    }
}

/// The pause scene; it asks to be popped once the resume key is pressed.
#[derive(Clone, Copy, Debug, PartialEq, Eq, Structural)]
pub struct Pause {
    returned: bool,
}

impl Pause {
    pub closed spec fn resume_requested(&self) -> bool {
        self.returned
    }

    pub fn new() -> (r: Self)
        ensures
            !r.resume_requested(),
    {
        Pause { returned: false }
    }

    /// Records a press or release of the resume key.
    pub fn resume_input(&mut self, pressed: bool)
        ensures
            final(self).resume_requested() == pressed,
    {
        self.returned = pressed;
    }

    pub fn update(&self) -> (r: SceneController)
        ensures
            r == if self.resume_requested() {
                SceneController::PopScene
            } else {
                SceneController::NOp
            },
    {
        if self.returned {
            SceneController::PopScene
        } else {
            SceneController::NOp
        }
    }
}

} // verus!
