//! The entity coordinator: owns the paddle, the ball slot, the pointer and
//! the grid, and runs the per-frame sequence.
use vstd::prelude::*;
use crate::ball::{
    after_bricks, after_edges, after_move, after_paddle, after_tier, edge_normal, grid_after,
    grid_face, meets_paddle, pointer_after, state_after_bricks, Ball,
};
use crate::brick::{
    after_hit, first_hit_from, grid_live_count, grid_models, lemma_first_hit_from,
    lemma_grid_live_count_clear, Brick, BrickCollection, BrickSpawnParam, BrickTemplate,
    ARENA_LIMIT,
};
use crate::geometry::{clamp, within, Vec2, COORD_LIMIT};
use crate::instance::{Instance, Rgba};
use crate::paddle::{
    launches, launched_ball, paddle_after, recolored, round_after, slot_after, tier_half_size,
    Paddle, PaddleDifficulity, PaddleMoveFlag, PIXEL,
};
use crate::pointer::Pointer;
use crate::state::{BreakOutGameState, GameState};

verus! {

/// A discrete player intent.
#[derive(Clone, Copy, Debug, PartialEq, Eq, Structural)]
pub enum Intent {
    MoveLeft,
    MoveRight,
    Launch,
}

/// Horizontal and vertical pointer motion since the last frame.
#[derive(Clone, Copy, Debug, PartialEq, Eq, Structural)]
pub struct MouseMoveInput(pub Vec2);

/// Accumulates pointer motion between frames; flushed once per frame.
#[derive(Clone, Copy, Debug, PartialEq, Eq, Structural)]
pub struct MouseMoveBuffer {
    move_vol: Vec2,
}

impl View for MouseMoveBuffer {
    type V = Vec2;

    closed spec fn view(&self) -> Vec2 {
        self.move_vol
    }
}

impl MouseMoveBuffer {
    pub fn new() -> (r: Self)
        ensures
            r@ == (Vec2 { x: 0, y: 0 }),
    {
        MouseMoveBuffer { move_vol: Vec2 { x: 0, y: 0 } }
    }

    /// Adds one motion event; the total is kept within the coordinate bound.
    pub fn input(&mut self, move_vol: Vec2)
        requires
            within(old(self)@, COORD_LIMIT as int),
            within(move_vol, COORD_LIMIT as int),
        ensures
            final(self)@ == (Vec2 {
                x: clamp(old(self)@.x + move_vol.x, -COORD_LIMIT as int, COORD_LIMIT as int)
                    as i64,
                y: clamp(old(self)@.y + move_vol.y, -COORD_LIMIT as int, COORD_LIMIT as int)
                    as i64,
            }),
            within(final(self)@, COORD_LIMIT as int),
    {
        let x = self.move_vol.x + move_vol.x;
        let y = self.move_vol.y + move_vol.y;
        self.move_vol = Vec2 {
            x: if x < -COORD_LIMIT {
                -COORD_LIMIT
            } else if x > COORD_LIMIT {
                COORD_LIMIT
            } else {
                x
            },
            y: if y < -COORD_LIMIT {
                -COORD_LIMIT
            } else if y > COORD_LIMIT {
                COORD_LIMIT
            } else {
                y
            },
        };
    }

    /// Hands out the accumulated motion and starts over from zero.
    pub fn finalize(&mut self) -> (r: MouseMoveInput)
        ensures
            r.0 == old(self)@,
            final(self)@ == (Vec2 { x: 0, y: 0 }),
    {
        let input = MouseMoveInput(self.move_vol);
        self.move_vol = Vec2 { x: 0, y: 0 };
        input
    }
}

/// What happened during a frame, for the audio cues.
#[derive(Clone, Copy, Debug, PartialEq, Eq, Structural)]
pub struct FrameEvents {
    pub wall_bounce: bool,
    pub paddle_bounce: bool,
    pub brick_break: bool,
    pub ball_miss: bool,
}

/// The ball's part of a frame, for a live ball `b0`: the ball slot, the
/// pointer, the grid, the round state and the events after the ball has been
/// reflected off the walls, the paddle and the bricks, moved, given its
/// tier's speed and colour, and removed (with a life) if it fell out.
pub open spec fn ball_frame(
    b0: Ball,
    paddle: Paddle,
    ptr: Pointer,
    g: Seq<Seq<Option<Brick>>>,
    s: BreakOutGameState,
    disp: Vec2,
) -> (Option<Ball>, Pointer, Seq<Seq<Option<Brick>>>, BreakOutGameState, FrameEvents) {
    let b1 = after_edges(b0, disp);
    let b2 = after_paddle(b1, paddle);
    let s1 = state_after_bricks(s, g, b2);
    let b3 = after_bricks(b2, g);
    let b5 = after_tier(after_move(b3, s1.state), s1.state, s1.difficulity);
    let missed = b5.model.position.y < 0;
    let ev = FrameEvents {
        wall_bounce: edge_normal(b0.model.position, disp) is Some,
        paddle_bounce: meets_paddle(b1, paddle),
        brick_break: grid_face(g, b2) is Some,
        ball_miss: missed,
    };
    (
        if missed {
            None
        } else {
            Some(b5)
        },
        pointer_after(b1, paddle, ptr),
        grid_after(g, b2),
        if missed {
            BreakOutGameState { remain_ball: (s1.remain_ball - 1) as u32, ..s1 }
        } else {
            s1
        },
        ev,
    )
}

/// A whole frame: the ball's part (or, with no ball, a hidden pointer), then
/// the win test, then the paddle's update and colour. Gives the ball slot,
/// paddle, pointer, grid, round state and events after the frame.
pub open spec fn frame(
    slot: Option<Ball>,
    paddle: Paddle,
    ptr: Pointer,
    g: Seq<Seq<Option<Brick>>>,
    s: BreakOutGameState,
    disp: Vec2,
) -> (Option<Ball>, Paddle, Pointer, Seq<Seq<Option<Brick>>>, BreakOutGameState, FrameEvents) {
    let (slot1, ptr1, g1, s2, ev) = match slot {
        Some(b0) => ball_frame(b0, paddle, ptr, g, s, disp),
        None => (
            None,
            Pointer { visible: false, ..ptr },
            g,
            s,
            FrameEvents {
                wall_bounce: false,
                paddle_bounce: false,
                brick_break: false,
                ball_miss: false,
            },
        ),
    };
    let s3 = if grid_live_count(g1) == 0 {
        BreakOutGameState { state: GameState::GameClear, ..s2 }
    } else {
        s2
    };
    let slot2 = slot_after(paddle, slot1, s3);
    let s4 = round_after(paddle, slot1, s3);
    (
        slot2,
        recolored(paddle_after(paddle, disp, s3), s4.state, slot2 is Some),
        ptr1,
        g1,
        s4,
        ev,
    )
}

/// A round that is won or lost stays so: no frame turns its status back to
/// playing.
pub proof fn lemma_frame_keeps_round_over(
    slot: Option<Ball>,
    paddle: Paddle,
    ptr: Pointer,
    g: Seq<Seq<Option<Brick>>>,
    s: BreakOutGameState,
    disp: Vec2,
)
    requires
        s.state != GameState::Yes,
    ensures
        frame(slot, paddle, ptr, g, s, disp).4.state != GameState::Yes,
{
}

/// At most one ball, launched only on request with a life left: after a
/// frame that started with an empty slot, a ball is live exactly when the
/// launch intent was held and lives remained; and any ball that is live
/// after a frame that started empty or lost its ball was launched on
/// request, with a life left.
pub proof fn lemma_frame_launch_gating(
    slot: Option<Ball>,
    paddle: Paddle,
    ptr: Pointer,
    g: Seq<Seq<Option<Brick>>>,
    s: BreakOutGameState,
    disp: Vec2,
)
    requires
        slot matches Some(b) ==> s.remain_ball > 0,
    ensures
        ({
            let f = frame(slot, paddle, ptr, g, s, disp);
            &&& slot is None ==> (f.0 is Some <==> paddle.move_flag.ball_shot && s.remain_ball > 0)
            &&& f.0 is Some && (slot is None || f.5.ball_miss) ==> paddle.move_flag.ball_shot
                && f.4.remain_ball > 0
        }),
{
}

/// Breaking the last brick wins: when the grid holds one live brick and the
/// ball's path, after the walls and the paddle, strikes it, the frame leaves
/// no brick, adds the brick's score (saturating) and ends the round.
pub proof fn lemma_frame_last_brick(
    b0: Ball,
    paddle: Paddle,
    ptr: Pointer,
    g: Seq<Seq<Option<Brick>>>,
    s: BreakOutGameState,
    disp: Vec2,
)
    requires
        grid_live_count(g) == 1,
        first_hit_from(
            g,
            after_paddle(after_edges(b0, disp), paddle).model.position,
            after_paddle(after_edges(b0, disp), paddle).path_end(),
            0,
        ) is Some,
    ensures
        ({
            let b2 = after_paddle(after_edges(b0, disp), paddle);
            let (i, j) = first_hit_from(g, b2.model.position, b2.path_end(), 0)->Some_0;
            let f = frame(Some(b0), paddle, ptr, g, s, disp);
            &&& grid_live_count(f.3) == 0
            &&& f.4.state != GameState::Yes
            &&& f.4.score == after_hit(s, g[i][j]->Some_0.feature).score
            &&& f.5.brick_break
        }),
{
    let b2 = after_paddle(after_edges(b0, disp), paddle);
    let a = b2.model.position;
    let b = b2.path_end();
    lemma_first_hit_from(g, a, b, 0);
    let (i, j) = first_hit_from(g, a, b, 0)->Some_0;
    lemma_grid_live_count_clear(g, i, j);
}

/// The entities of a round.
pub struct BreakOutEntities {
    bricks: BrickCollection,
    ball: Option<Ball>,
    paddle: Paddle,
    pointer: Pointer,
}

impl BreakOutEntities {
    pub closed spec fn wf(&self) -> bool {
        &&& self.bricks.wf()
        &&& self.ball matches Some(b) ==> b.wf()
        &&& self.paddle.wf()
        &&& self.pointer.wf()
    }

    pub closed spec fn ball_spec(&self) -> Option<Ball> {
        self.ball
    }

    pub closed spec fn paddle_spec(&self) -> Paddle {
        self.paddle
    }

    pub closed spec fn pointer_spec(&self) -> Pointer {
        self.pointer
    }

    pub closed spec fn grid(&self) -> Seq<Seq<Option<Brick>>> {
        self.bricks@
    }

    /// The round can go on: a live ball means a life was spent on it, so
    /// lives remain to be taken when it is missed.
    pub open spec fn consistent(&self, state: BreakOutGameState) -> bool {
        self.ball_spec() is Some ==> state.remain_ball > 0
    }

    /// A round's entities: the paddle centred 120 pixels above the bottom,
    /// no ball, a hidden pointer and the grid that `brick_param` lays out.
    pub fn new<F: Fn(u32, u32, Vec2, Vec2) -> Option<BrickTemplate>>(
        brick_param: BrickSpawnParam<F>,
        disp_size: Vec2,
    ) -> (r: Self)
        requires
            brick_param.wf(disp_size),
        ensures
            r.wf(),
            r.ball_spec() is None,
            r.paddle_spec().model == (Instance {
                position: Vec2 { x: (disp_size.x / 2) as i64, y: 7200 },
                half_size: tier_half_size(PaddleDifficulity::Normal),
                color: Rgba { r: 255, g: 255, b: 255, a: 255 },
            }),
            r.paddle_spec().move_flag == (PaddleMoveFlag {
                move_left: false,
                move_right: false,
                move_delta: 0,
                ball_shot: false,
            }),
            r.paddle_spec().difficulity == PaddleDifficulity::Normal,
            !r.pointer_spec().visible,
            brick_param.lays_out(r.grid(), disp_size),
    {
        BreakOutEntities {
            paddle: Paddle::spawn(
                Vec2 { x: disp_size.x / 2, y: 120 * PIXEL },
                Rgba { r: 255, g: 255, b: 255, a: 255 },
            ),
            ball: None,
            pointer: Pointer::spawn(),
            bricks: BrickCollection::spawn(disp_size, brick_param),
        }
    }

    /// Records a press (`pressed`) or release of an intent.
    pub fn intent_input(&mut self, intent: Intent, pressed: bool)
        requires
            old(self).wf(),
        ensures
            final(self).wf(),
            final(self).ball_spec() == old(self).ball_spec(),
            final(self).pointer_spec() == old(self).pointer_spec(),
            final(self).grid() == old(self).grid(),
            final(self).paddle_spec().model == old(self).paddle_spec().model,
            final(self).paddle_spec().difficulity == old(self).paddle_spec().difficulity,
            final(self).paddle_spec().move_flag == match intent {
                Intent::MoveLeft => PaddleMoveFlag {
                    move_left: pressed,
                    ..old(self).paddle_spec().move_flag
                },
                Intent::MoveRight => PaddleMoveFlag {
                    move_right: pressed,
                    ..old(self).paddle_spec().move_flag
                },
                Intent::Launch => PaddleMoveFlag {
                    ball_shot: pressed,
                    ..old(self).paddle_spec().move_flag
                },
            },
    {
        match intent {
            Intent::MoveLeft => self.paddle.move_flag.move_left = pressed,
            Intent::MoveRight => self.paddle.move_flag.move_right = pressed,
            Intent::Launch => self.paddle.move_flag.ball_shot = pressed,
        }
    }

    /// Hands the frame's horizontal pointer motion to the paddle.
    pub fn mouse_motion_input(&mut self, input: MouseMoveInput)
        requires
            old(self).wf(),
            -COORD_LIMIT <= input.0.x <= COORD_LIMIT,
        ensures
            final(self).wf(),
            final(self).ball_spec() == old(self).ball_spec(),
            final(self).pointer_spec() == old(self).pointer_spec(),
            final(self).grid() == old(self).grid(),
            final(self).paddle_spec() == (Paddle {
                move_flag: PaddleMoveFlag {
                    move_delta: input.0.x,
                    ..old(self).paddle_spec().move_flag
                },
                ..old(self).paddle_spec()
            }),
    {
        self.paddle.move_flag.move_delta = input.0.x;
    }

    /// Number of live bricks.
    pub fn remain_brick(&self) -> (r: usize)
        requires
            self.wf(),
        ensures
            r == grid_live_count(self.grid()),
    {
        self.bricks.get().count()
    }

    pub fn ball(&self) -> (r: Option<Ball>)
        ensures
            r == self.ball_spec(),
    {
        self.ball
    }

    pub fn paddle(&self) -> (r: Paddle)
        ensures
            r == self.paddle_spec(),
    {
        self.paddle
    }

    pub fn pointer(&self) -> (r: Pointer)
        ensures
            r == self.pointer_spec(),
    {
        self.pointer
    }

    /// One frame. With a ball live: reflect it off the walls, the paddle
    /// (which also places the pointer) and the bricks, move it, set its
    /// speed and colour, and take it and a life away if it fell out of the
    /// bottom; with none, hide the pointer. Then the round is won if no brick
    /// remains, the paddle updates (which may launch a ball or lose the
    /// round) and recolours. Returns what happened, for the audio cues.
    pub fn update(&mut self, disp_size: Vec2, state: &mut BreakOutGameState) -> (ev: FrameEvents)
        requires
            old(self).wf(),
            old(self).consistent(*old(state)),
            0 <= disp_size.x <= ARENA_LIMIT,
            0 <= disp_size.y <= ARENA_LIMIT,
        ensures
            final(self).wf(),
            final(self).consistent(*final(state)),
            (
                final(self).ball_spec(),
                final(self).paddle_spec(),
                final(self).pointer_spec(),
                final(self).grid(),
                *final(state),
                ev,
            ) == frame(
                old(self).ball_spec(),
                old(self).paddle_spec(),
                old(self).pointer_spec(),
                old(self).grid(),
                *old(state),
                disp_size,
            ),
            // a round that is over stays over
            old(state).state != GameState::Yes ==> final(state).state != GameState::Yes,
            final(state).state == old(state).state || final(state).state == GameState::GameOver
                || final(state).state == GameState::GameClear,
            // a life goes exactly when the ball is missed
            ev.ball_miss ==> old(self).ball_spec() is Some,
            final(state).remain_ball == old(state).remain_ball - if ev.ball_miss {
                1int
            } else {
                0int
            },
            // a brick goes exactly when one breaks, and the score never drops
            grid_live_count(final(self).grid()) == grid_live_count(old(self).grid()) - if ev.brick_break {
                1int
            } else {
                0int
            },
            ev.brick_break ==> old(self).ball_spec() is Some,
            final(state).score >= old(state).score,
            !ev.brick_break ==> final(state).score == old(state).score
                && final(state).difficulity == old(state).difficulity,
            // won when no brick is left; lost when neither a ball nor a life is
            grid_live_count(final(self).grid()) == 0 ==> final(state).state != GameState::Yes,
            final(self).ball_spec() is None && final(state).remain_ball == 0
                ==> final(state).state == GameState::GameOver,
            // a ball is launched only from an empty slot, on request, with a
            // life left
            old(self).ball_spec() is None ==> final(self).ball_spec() == if launches(
                old(self).paddle_spec().move_flag,
                None,
                *old(state),
            ) {
                Some(
                    launched_ball(
                        old(self).paddle_spec().model.position,
                        old(state).difficulity,
                    ),
                )
            } else {
                None
            },
            final(self).ball_spec() is Some && (old(self).ball_spec() is None || ev.ball_miss)
                ==> old(self).paddle_spec().move_flag.ball_shot && final(state).remain_ball > 0,
            old(self).ball_spec() is None ==> !final(self).pointer_spec().visible,
            final(self).paddle_spec().move_flag.move_delta == 0,
    {
        let mut ev = FrameEvents {
            wall_bounce: false,
            paddle_bounce: false,
            brick_break: false,
            ball_miss: false,
        };
        let ghost g0 = self.bricks@;
        match self.ball {
            Some(b0) => {
                let mut b = b0;
                ev.wall_bounce = b.refle_edge(disp_size);
                ev.paddle_bounce = b.refle_paddle(&self.paddle, &mut self.pointer);
                let ghost pre = b;
                ev.brick_break = b.refle_brick(self.bricks.get_mut(), state);
                proof {
                    let hit = first_hit_from(g0, pre.model.position, pre.path_end(), 0);
                    if let Some((i, j)) = hit {
                        lemma_first_hit_from(g0, pre.model.position, pre.path_end(), 0);
                        lemma_grid_live_count_clear(g0, i, j);
                    }
                }
                b.moving(state);
                let diff = state.difficulity;
                b.update(state, &diff);
                if b.despawnable() {
                    ev.ball_miss = true;
                    state.remain_ball = state.remain_ball - 1;
                    self.ball = None;
                } else {
                    self.ball = Some(b);
                }
            },
            None => {
                self.pointer.visible = false;
            },
        }
        if self.bricks.get().count() == 0 {
            state.state = GameState::GameClear;
        }
        self.paddle.update(disp_size, state, &mut self.ball);
        self.paddle.change_color(state, &self.ball);
        ev
    }

    /// The drawable records of every entity, in a fixed order: the paddle,
    /// the live bricks row by row, the ball if one is live, the pointer if
    /// it is visible.
    pub fn as_instance(&self) -> (r: Vec<Instance>)
        ensures
            r@ == seq![self.paddle_spec().model] + grid_models(self.grid()) + match self.ball_spec() {
                Some(b) => seq![b.model],
                None => Seq::empty(),
            } + if self.pointer_spec().visible {
                seq![self.pointer_spec().model]
            } else {
                Seq::empty()
            },
    {
        let mut out: Vec<Instance> = Vec::new();
        out.push(self.paddle.model);
        self.bricks.as_instance(&mut out);
        if let Some(b) = self.ball {
            out.push(b.model);
        }
        if self.pointer.visible {
            out.push(self.pointer.model);
        }
        proof {
            let e: Seq<Instance> = Seq::empty();
            assert(seq![self.paddle.model] =~= e.push(self.paddle.model));
        }
        out
    }
}

} // verus!
