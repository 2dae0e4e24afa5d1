//! The paddle: size by tier, movement by player intent, ball launch and the
//! loss of the round, and its colour.
use vstd::prelude::*;
use crate::ball::{speed_of_tier, tier_speed, Ball};
use crate::geometry::{clamp, clamp_coord, within, Vec2, COORD_LIMIT, UNIT};
use crate::instance::{Instance, Rgba};
use crate::state::{BreakOutDifficulity, BreakOutGameState, GameState};

verus! {

/// One pixel, in position units.
pub const PIXEL: i64 = 60;

/// Distance the paddle moves per frame while a direction is held.
pub const PADDLE_SPEED: i64 = 256;

/// The player's intents, as last reported by the input layer.
#[derive(Clone, Copy, Debug, PartialEq, Eq, Structural)]
pub struct PaddleMoveFlag {
    pub move_left: bool,
    pub move_right: bool,
    /// Horizontal pointer motion since the last frame, consumed by `update`.
    pub move_delta: i64,
    pub ball_shot: bool,
}

impl Default for PaddleMoveFlag {
    fn default() -> (r: Self)
        ensures
            r == (PaddleMoveFlag {
                move_left: false,
                move_right: false,
                move_delta: 0,
                ball_shot: false,
            }),
    {
        PaddleMoveFlag { move_left: false, move_right: false, move_delta: 0, ball_shot: false }
    }
}

/// The paddle's size tier.
#[derive(Clone, Copy, Debug, PartialEq, Eq, Structural)]
pub enum PaddleDifficulity {
    Easy,
    Normal,
    Hard,
}

/// Full size of a paddle of tier `d`: 64, 48 or 32 pixels wide, 8 high.
pub open spec fn tier_size(d: PaddleDifficulity) -> Vec2 {
    match d {
        PaddleDifficulity::Easy => Vec2 { x: 3840, y: 480 },
        PaddleDifficulity::Normal => Vec2 { x: 2880, y: 480 },
        PaddleDifficulity::Hard => Vec2 { x: 1920, y: 480 },
    }
}

/// Half of `tier_size`.
pub open spec fn tier_half_size(d: PaddleDifficulity) -> Vec2 {
    Vec2 { x: (tier_size(d).x / 2) as i64, y: (tier_size(d).y / 2) as i64 }
}

/// The paddle tier of a round tier.
pub open spec fn paddle_tier(d: BreakOutDifficulity) -> PaddleDifficulity {
    match d {
        BreakOutDifficulity::Easy => PaddleDifficulity::Easy,
        BreakOutDifficulity::Normal => PaddleDifficulity::Normal,
        BreakOutDifficulity::Hard => PaddleDifficulity::Hard,
    }
}

impl PaddleDifficulity {
    /// Full size of the paddle at this tier.
    pub fn size(&self) -> (r: Vec2)
        ensures
            r == tier_size(*self),
    {
        match self {
            PaddleDifficulity::Easy => Vec2 { x: 64 * PIXEL, y: 8 * PIXEL },
            PaddleDifficulity::Normal => Vec2 { x: 48 * PIXEL, y: 8 * PIXEL },
            PaddleDifficulity::Hard => Vec2 { x: 32 * PIXEL, y: 8 * PIXEL },
        }
    }
}

/// The paddle.
#[derive(Clone, Copy, Debug, PartialEq, Eq, Structural)]
pub struct Paddle {
    pub model: Instance,
    pub move_flag: PaddleMoveFlag,
    pub difficulity: PaddleDifficulity,
}

impl Paddle {
    /// The model lies within the coordinate bound and the pending pointer
    /// motion is bounded.
    pub open spec fn wf(self) -> bool {
        &&& self.model.wf()
        &&& -COORD_LIMIT <= self.move_flag.move_delta <= COORD_LIMIT
    }
}

/// The paddle's colour: red while no ball is live and the round is not
/// lost; otherwise white while playing, clear once lost, clear blue once won.
pub open spec fn paddle_color(s: GameState, ball_live: bool) -> Rgba {
    if !ball_live && s != GameState::GameOver {
        Rgba { r: 255, g: 0, b: 0, a: 255 }
    } else {
        match s {
            GameState::Yes => Rgba { r: 255, g: 255, b: 255, a: 255 },
            GameState::GameOver => Rgba { r: 0, g: 0, b: 0, a: 0 },
            GameState::GameClear => Rgba { r: 0, g: 0, b: 255, a: 0 },
        }
    }
}

/// A launch happens: the player asks for one, no ball is live and lives
/// remain.
pub open spec fn launches(f: PaddleMoveFlag, ball: Option<Ball>, s: BreakOutGameState) -> bool {
    f.ball_shot && ball is None && s.remain_ball != 0
}

/// The ball launched from a paddle at `p` in a round of tier `d`: eight
/// pixels above it, white, straight up, at the tier's speed.
pub open spec fn launched_ball(p: Vec2, d: BreakOutDifficulity) -> Ball {
    Ball {
        model: Instance {
            position: Vec2 {
                x: p.x,
                y: clamp(p.y + 8 * PIXEL, -COORD_LIMIT as int, COORD_LIMIT as int) as i64,
            },
            half_size: Vec2 { x: 180, y: 180 },
            color: Rgba { r: 255, g: 255, b: 255, a: 255 },
        },
        angle: Vec2 { x: 0, y: UNIT },
        speed: tier_speed(d),
    }
}

/// The paddle's x after one frame: a step right if held and it stays left of
/// the arena's right edge, a step left if held and it stays right of zero,
/// then the pointer motion, then clamped to `[-w, width + w]` for the
/// paddle's half-width `w`.
pub open spec fn paddle_x_after(x: int, f: PaddleMoveFlag, width: int, w: int) -> int {
    let x1 = if f.move_right && x + PADDLE_SPEED < width {
        x + PADDLE_SPEED
    } else {
        x
    };
    let x2 = if f.move_left && 0 < x1 - PADDLE_SPEED {
        x1 - PADDLE_SPEED
    } else {
        x1
    };
    clamp(x2 + f.move_delta, -w, width + w)
}

/// The paddle after `update`: the round's tier, moved, motion consumed.
pub open spec fn paddle_after(p: Paddle, disp: Vec2, s: BreakOutGameState) -> Paddle {
    let d = paddle_tier(s.difficulity);
    Paddle {
        model: Instance {
            position: Vec2 {
                x: paddle_x_after(
                    p.model.position.x as int,
                    p.move_flag,
                    disp.x as int,
                    tier_half_size(d).x as int,
                ) as i64,
                y: p.model.position.y,
            },
            half_size: tier_half_size(d),
            color: p.model.color,
        },
        move_flag: PaddleMoveFlag { move_delta: 0, ..p.move_flag },
        difficulity: d,
    }
}

/// The ball slot after the paddle's `update`.
pub open spec fn slot_after(p: Paddle, slot: Option<Ball>, s: BreakOutGameState) -> Option<Ball> {
    if launches(p.move_flag, slot, s) {
        Some(launched_ball(p.model.position, s.difficulity))
    } else {
        slot
    }
}

/// The round state after the paddle's `update`: lost when the slot is empty,
/// no life is left and no launch happens.
pub open spec fn round_after(
    p: Paddle,
    slot: Option<Ball>,
    s: BreakOutGameState,
) -> BreakOutGameState {
    if !launches(p.move_flag, slot, s) && slot is None && s.remain_ball == 0 {
        BreakOutGameState { state: GameState::GameOver, ..s }
    } else {
        s
    }
}

/// The paddle after `change_color`.
pub open spec fn recolored(p: Paddle, s: GameState, ball_live: bool) -> Paddle {
    Paddle { model: Instance { color: paddle_color(s, ball_live), ..p.model }, ..p }
}

/// The paddle step keeps one ball at most and launches only on request: a
/// live ball stays as it is; an empty slot is filled exactly when the launch
/// intent is held and lives remain; and a won or lost round stays so.
pub proof fn lemma_paddle_launch_gating(p: Paddle, slot: Option<Ball>, s: BreakOutGameState)
    ensures
        slot is Some ==> slot_after(p, slot, s) == slot,
        slot is None ==> (slot_after(p, slot, s) is Some <==> p.move_flag.ball_shot
            && s.remain_ball != 0),
        s.state != GameState::Yes ==> round_after(p, slot, s).state != GameState::Yes,
{
}

impl Paddle {
    /// A paddle of the normal tier at `position`.
    pub fn spawn(position: Vec2, color: Rgba) -> (r: Self)
        requires
            within(position, COORD_LIMIT as int),
        ensures
            r.wf(),
            r.model == (Instance {
                position,
                half_size: tier_half_size(PaddleDifficulity::Normal),
                color,
            }),
            r.move_flag == (PaddleMoveFlag {
                move_left: false,
                move_right: false,
                move_delta: 0,
                ball_shot: false,
            }),
            r.difficulity == PaddleDifficulity::Normal,
    {
        let size = PaddleDifficulity::Normal.size();
        Paddle {
            model: Instance {
                position,
                half_size: Vec2 { x: size.x / 2, y: size.y / 2 },
                color,
            },
            move_flag: PaddleMoveFlag::default(),
            difficulity: PaddleDifficulity::Normal,
        }
    }

    /// One frame of the paddle: takes the size of the round's tier; launches
    /// a ball when asked, with the slot empty and lives remaining, or else
    /// with the slot empty and no lives left, loses the round; then moves by
    /// the held directions and the pointer motion, which it consumes.
    pub fn update(
        &mut self,
        disp_size: Vec2,
        state: &mut BreakOutGameState,
        ball: &mut Option<Ball>,
    )
        requires
            old(self).wf(),
            0 <= disp_size.x <= COORD_LIMIT / 2,
            *old(ball) matches Some(b) ==> b.wf(),
        ensures
            final(self).wf(),
            *final(self) == paddle_after(*old(self), disp_size, *old(state)),
            *final(ball) == slot_after(*old(self), *old(ball), *old(state)),
            *final(state) == round_after(*old(self), *old(ball), *old(state)),
            launches(old(self).move_flag, *old(ball), *old(state)) ==> {
                &&& *final(ball) == Some(
                    launched_ball(old(self).model.position, old(state).difficulity),
                )
                &&& *final(state) == *old(state)
            },
            !launches(old(self).move_flag, *old(ball), *old(state)) ==> {
                &&& *final(ball) == *old(ball)
                &&& *final(state) == if *old(ball) is None && old(state).remain_ball == 0 {
                    BreakOutGameState { state: GameState::GameOver, ..*old(state) }
                } else {
                    *old(state)
                }
            },
            *final(ball) matches Some(b) ==> b.wf(),
    {
        self.difficulity = match state.difficulity {
            BreakOutDifficulity::Easy => PaddleDifficulity::Easy,
            BreakOutDifficulity::Normal => PaddleDifficulity::Normal,
            BreakOutDifficulity::Hard => PaddleDifficulity::Hard,
        };
        let size = self.difficulity.size();
        self.model.half_size = Vec2 { x: size.x / 2, y: size.y / 2 };
        if self.move_flag.ball_shot && ball.is_none() && state.remain_ball != 0 {
            *ball = Some(
                Ball::spawn(
                    Vec2 {
                        x: self.model.position.x,
                        y: clamp_coord(self.model.position.y as i128 + 8 * PIXEL as i128),
                    },
                    Rgba { r: 255, g: 255, b: 255, a: 255 },
                    Vec2 { x: 0, y: UNIT },
                    speed_of_tier(&state.difficulity),
                ),
            );
        } else if ball.is_none() {
            if state.remain_ball == 0 {
                state.state = GameState::GameOver;
            }
        }
        let w = self.model.half_size.x;
        let mut x = self.model.position.x;
        if self.move_flag.move_right && x + PADDLE_SPEED < disp_size.x {
            x = x + PADDLE_SPEED;
        }
        if self.move_flag.move_left && 0 < x - PADDLE_SPEED {
            x = x - PADDLE_SPEED;
        }
        x = x + self.move_flag.move_delta;
        self.move_flag.move_delta = 0;
        if x < -w {
            x = -w;
        } else if x > disp_size.x + w {
            x = disp_size.x + w;
        }
        self.model.position.x = x;
    }

    /// Recolours the paddle from the round's status and whether a ball is
    /// live.
    pub fn change_color(&mut self, state: &BreakOutGameState, ball: &Option<Ball>)
        ensures
            *final(self) == recolored(*old(self), state.state, ball is Some),
    {
        self.model.color = if ball.is_none() && state.state != GameState::GameOver {
            Rgba { r: 255, g: 0, b: 0, a: 255 }
        } else {
            match state.state {
                GameState::Yes => Rgba { r: 255, g: 255, b: 255, a: 255 },
                GameState::GameOver => Rgba { r: 0, g: 0, b: 0, a: 0 },
                GameState::GameClear => Rgba { r: 0, g: 0, b: 255, a: 0 },
            }
        };
    }
}

} // verus!
