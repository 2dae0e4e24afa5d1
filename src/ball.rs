//! The ball: motion, reflection off the arena edges, the paddle and the
//! bricks, and the despawn test.
use vstd::prelude::*;
use crate::brick::{after_hit, cleared, first_hit_from, BBCollisionPoint, Brick, BrickColumn};
use crate::geometry::{
    clamp, clamp_coord, crossing, div_toward_zero, is_zero, lemma_axis_reflect, near_unit,
    normalize, normalized, r_in_unit, reflect, reflected_x, reflected_y, s_in_unit,
    segment_intersect, travel, travel_of, trunc_div, within, Crossing, Vec2, COORD_LIMIT,
    DIR_LIMIT, SEG_LIMIT, SPEED_LIMIT, UNIT,
};
use crate::instance::{Instance, Rgba};
use crate::paddle::Paddle;
use crate::pointer::Pointer;
use crate::state::{BreakOutDifficulity, BreakOutGameState, GameState};

verus! {

/// The ball.
#[derive(Clone, Copy, Debug, PartialEq, Eq, Structural)]
pub struct Ball {
    pub model: Instance,
    /// Direction of travel; renormalised at every motion step.
    pub angle: Vec2,
    /// Distance per frame along a direction of length `UNIT`.
    pub speed: i64,
}

impl Ball {
    /// Position, direction and speed lie within their bounds, and the
    /// direction is not zero.
    pub open spec fn wf(self) -> bool {
        &&& self.model.wf()
        &&& within(self.angle, DIR_LIMIT as int)
        &&& !is_zero(self.angle)
        &&& 0 <= self.speed <= SPEED_LIMIT
    }

    /// Where the ball would be after one frame of travel: the end of its
    /// swept segment, which starts at its position.
    pub open spec fn path_end(self) -> Vec2 {
        let t = travel(self.angle, self.speed as int);
        Vec2 { x: (self.model.position.x + t.0) as i64, y: (self.model.position.y + t.1) as i64 }
    }

    /// The end of the swept segment.
    pub fn path_end_of(&self) -> (r: Vec2)
        requires
            self.wf(),
        ensures
            r == self.path_end(),
            within(r, SEG_LIMIT as int),
            -3 * SPEED_LIMIT <= r.x - self.model.position.x <= 3 * SPEED_LIMIT,
            -3 * SPEED_LIMIT <= r.y - self.model.position.y <= 3 * SPEED_LIMIT,
    {
        let t = travel_of(self.angle, self.speed);
        Vec2 { x: self.model.position.x + t.x, y: self.model.position.y + t.y }
    }
}

/// Frame speed of the ball at each tier, in sixtieths of a pixel per frame
/// (250, 300 and 350 pixels per second).
pub open spec fn tier_speed(d: BreakOutDifficulity) -> i64 {
    match d {
        BreakOutDifficulity::Easy => 250,
        BreakOutDifficulity::Normal => 300,
        BreakOutDifficulity::Hard => 350,
    }
}

/// Frame speed of the ball at tier `d`.
pub fn speed_of_tier(d: &BreakOutDifficulity) -> (r: i64)
    ensures
        r == tier_speed(*d),
        0 < r <= SPEED_LIMIT,
{
    match d {
        BreakOutDifficulity::Easy => 250,
        BreakOutDifficulity::Normal => 300,
        BreakOutDifficulity::Hard => 350,
    }
}

/// The colour the ball fades to once the round is over, if it is.
pub open spec fn fade_color(s: GameState) -> Option<Rgba> {
    match s {
        GameState::Yes => None,
        GameState::GameOver => Some(Rgba { r: 255, g: 0, b: 0, a: 0 }),
        GameState::GameClear => Some(Rgba { r: 0, g: 0, b: 0, a: 0 }),
    }
}

/// The sum of the normals of the walls that `p` is beyond, in an arena of
/// size `disp`: right or left, and top. The bottom is no wall.
pub open spec fn edge_normal(p: Vec2, disp: Vec2) -> Option<Vec2> {
    let nx: i64 = if disp.x <= p.x {
        -1i64
    } else if p.x <= 0 {
        1
    } else {
        0
    };
    let ny: i64 = if disp.y <= p.y {
        -1i64
    } else {
        0
    };
    if nx == 0 && ny == 0 {
        None
    } else {
        Some(Vec2 { x: nx, y: ny })
    }
}

/// `v` reflected on the normal `n`.
pub open spec fn reflected(v: Vec2, n: Vec2) -> Vec2 {
    Vec2 { x: reflected_x(v, n) as i64, y: reflected_y(v, n) as i64 }
}

/// The direction that is reflected off the walls: the direction itself when
/// its components are within `UNIT`, else its normalisation, so that repeated
/// reflections cannot grow it without bound.
pub open spec fn wall_base(v: Vec2) -> Vec2 {
    if within(v, UNIT as int) {
        v
    } else {
        normalized(v)
    }
}

/// The outward normal of a brick face.
pub open spec fn face_normal(f: BBCollisionPoint) -> Vec2 {
    match f {
        BBCollisionPoint::Top => Vec2 { x: 0, y: 1 },
        BBCollisionPoint::Bottom => Vec2 { x: 0, y: -1i64 },
        BBCollisionPoint::Left => Vec2 { x: -1i64, y: 0 },
        BBCollisionPoint::Right => Vec2 { x: 1, y: 0 },
    }
}

/// Left end of the paddle's top edge.
pub open spec fn paddle_left(p: Paddle) -> Vec2 {
    Vec2 {
        x: (p.model.position.x - p.model.half_size.x) as i64,
        y: (p.model.position.y + p.model.half_size.y) as i64,
    }
}

/// Right end of the paddle's top edge.
pub open spec fn paddle_right(p: Paddle) -> Vec2 {
    Vec2 {
        x: (p.model.position.x + p.model.half_size.x) as i64,
        y: (p.model.position.y + p.model.half_size.y) as i64,
    }
}

/// The point at fraction `s` of the paddle's top edge, kept within the
/// coordinate bound.
pub open spec fn pointer_spot(p: Paddle, k: Crossing) -> Vec2 {
    let c = paddle_left(p);
    let d = paddle_right(p);
    Vec2 {
        x: clamp(
            c.x + trunc_div((d.x - c.x) * k.s_num, k.den as int),
            -COORD_LIMIT as int,
            COORD_LIMIT as int,
        ) as i64,
        y: clamp(c.y as int, -COORD_LIMIT as int, COORD_LIMIT as int) as i64,
    }
}

/// The point at fraction `r` of the ball's path, kept within the coordinate
/// bound.
pub open spec fn contact_spot(a: Vec2, b: Vec2, k: Crossing) -> Vec2 {
    Vec2 {
        x: clamp(
            a.x + trunc_div((b.x - a.x) * k.r_num, k.den as int),
            -COORD_LIMIT as int,
            COORD_LIMIT as int,
        ) as i64,
        y: clamp(
            a.y + trunc_div((b.y - a.y) * k.r_num, k.den as int),
            -COORD_LIMIT as int,
            COORD_LIMIT as int,
        ) as i64,
    }
}

/// The direction after a paddle bounce before normalisation: the paddle's
/// normal with English `4 * (s - 1/2)` added to its x component (`s` taken
/// to `1 / UNIT`), pointing away from the side that was struck.
pub open spec fn english(k: Crossing, angle: Vec2) -> Vec2 {
    Vec2 {
        x: (((k.s_num as int) * (UNIT as int) / (k.den as int) - UNIT / 2) * 4) as i64,
        y: if angle.y < 0 {
            UNIT
        } else {
            (-UNIT) as i64
        },
    }
}

/// The ball after `refle_edge`.
pub open spec fn after_edges(b: Ball, disp: Vec2) -> Ball {
    match edge_normal(b.model.position, disp) {
        None => b,
        Some(n) => Ball { angle: reflected(wall_base(b.angle), n), ..b },
    }
}

/// The crossing of the ball's path with the paddle's top edge.
pub open spec fn paddle_crossing(b: Ball, p: Paddle) -> Option<Crossing> {
    crossing(b.model.position, b.path_end(), paddle_left(p), paddle_right(p))
}

/// The path meets the paddle's top edge within both segments.
pub open spec fn meets_paddle(b: Ball, p: Paddle) -> bool {
    paddle_crossing(b, p) matches Some(k) && r_in_unit(k) && s_in_unit(k)
}

/// The ball after `refle_paddle`.
pub open spec fn after_paddle(b: Ball, p: Paddle) -> Ball {
    match paddle_crossing(b, p) {
        Some(k) => if r_in_unit(k) && s_in_unit(k) {
            Ball {
                model: Instance {
                    position: contact_spot(b.model.position, b.path_end(), k),
                    ..b.model
                },
                angle: normalized(english(k, b.angle)),
                ..b
            }
        } else {
            b
        },
        None => b,
    }
}

/// The pointer after `refle_paddle`: shown where the path's line meets the
/// paddle's top edge ahead of the ball, hidden otherwise.
pub open spec fn pointer_after(b: Ball, p: Paddle, ptr: Pointer) -> Pointer {
    match paddle_crossing(b, p) {
        Some(k) => if s_in_unit(k) && k.r_num >= 0 {
            Pointer {
                model: Instance { position: pointer_spot(p, k), ..ptr.model },
                visible: true,
            }
        } else {
            Pointer { visible: false, ..ptr }
        },
        None => Pointer { visible: false, ..ptr },
    }
}

/// The face of the brick that the ball's path strikes first in the grid.
pub open spec fn grid_face(g: Seq<Seq<Option<Brick>>>, b: Ball) -> Option<BBCollisionPoint> {
    match first_hit_from(g, b.model.position, b.path_end(), 0) {
        Some((i, j)) => g[i][j]->Some_0.struck_face(b.model.position, b.path_end()),
        None => None,
    }
}

/// The grid after the ball's collision query.
pub open spec fn grid_after(g: Seq<Seq<Option<Brick>>>, b: Ball) -> Seq<Seq<Option<Brick>>> {
    match first_hit_from(g, b.model.position, b.path_end(), 0) {
        Some((i, j)) => cleared(g, i, j),
        None => g,
    }
}

/// The round state after the ball's collision query.
pub open spec fn state_after_bricks(
    s: BreakOutGameState,
    g: Seq<Seq<Option<Brick>>>,
    b: Ball,
) -> BreakOutGameState {
    match first_hit_from(g, b.model.position, b.path_end(), 0) {
        Some((i, j)) => after_hit(s, g[i][j]->Some_0.feature),
        None => s,
    }
}

/// The ball after `refle_brick`.
pub open spec fn after_bricks(b: Ball, g: Seq<Seq<Option<Brick>>>) -> Ball {
    match grid_face(g, b) {
        Some(f) => Ball { angle: reflected(b.angle, face_normal(f)), ..b },
        None => b,
    }
}

/// The ball after `moving`.
pub open spec fn after_move(b: Ball, s: GameState) -> Ball {
    if s == GameState::Yes {
        let d = normalized(b.angle);
        let t = travel(d, b.speed as int);
        Ball {
            model: Instance {
                position: Vec2 {
                    x: clamp(b.model.position.x + t.0, -COORD_LIMIT as int, COORD_LIMIT as int)
                        as i64,
                    y: clamp(b.model.position.y + t.1, -COORD_LIMIT as int, COORD_LIMIT as int)
                        as i64,
                },
                ..b.model
            },
            angle: d,
            ..b
        }
    } else {
        b
    }
}

/// The ball after `update`.
pub open spec fn after_tier(b: Ball, s: GameState, d: BreakOutDifficulity) -> Ball {
    Ball {
        speed: tier_speed(d),
        model: Instance {
            color: match fade_color(s) {
                Some(c) => c,
                None => b.model.color,
            },
            ..b.model
        },
        ..b
    }
}

impl Ball {
    /// A ball of six pixels at `position`.
    pub fn spawn(position: Vec2, color: Rgba, angle: Vec2, speed: i64) -> (r: Self)
        requires
            within(position, COORD_LIMIT as int),
            within(angle, DIR_LIMIT as int),
            !is_zero(angle),
            0 <= speed <= SPEED_LIMIT,
        ensures
            r.wf(),
            r == (Ball {
                model: Instance {
                    position,
                    half_size: Vec2 { x: 180, y: 180 },
                    color,
                },
                angle,
                speed,
            }),
    {
        Ball {
            model: Instance { position, half_size: Vec2 { x: 180, y: 180 }, color },
            angle,
            speed,
        }
    }

    /// Sets the speed of the tier `diff`, and fades the ball out once the
    /// round is over.
    pub fn update(&mut self, state: &BreakOutGameState, diff: &BreakOutDifficulity)
        requires
            old(self).wf(),
        ensures
            final(self).wf(),
            *final(self) == after_tier(*old(self), state.state, *diff),
            final(self).speed == tier_speed(*diff),
            final(self).model.color == match fade_color(state.state) {
                Some(c) => c,
                None => old(self).model.color,
            },
            final(self).model.position == old(self).model.position,
            final(self).model.half_size == old(self).model.half_size,
            final(self).angle == old(self).angle,
    {
        self.speed = speed_of_tier(diff);
        match state.state {
            GameState::Yes => {},
            GameState::GameOver => {
                self.model.color = Rgba { r: 255, g: 0, b: 0, a: 0 };
            },
            GameState::GameClear => {
                self.model.color = Rgba { r: 0, g: 0, b: 0, a: 0 };
            },
        }
    }

    /// While the round is played: renormalises the direction, then advances
    /// the position by one frame of travel (kept within the coordinate
    /// bound). Otherwise nothing changes.
    pub fn moving(&mut self, state: &BreakOutGameState)
        requires
            old(self).wf(),
        ensures
            final(self).wf(),
            *final(self) == after_move(*old(self), state.state),
            final(self).speed == old(self).speed,
            final(self).model.half_size == old(self).model.half_size,
            final(self).model.color == old(self).model.color,
            state.state == GameState::Yes ==> near_unit(final(self).angle),
            state.state != GameState::Yes ==> *final(self) == *old(self),
    {
        if state.state == GameState::Yes {
            let d = normalize(self.angle);
            self.angle = d;
            let t = travel_of(d, self.speed);
            self.model.position = Vec2 {
                x: clamp_coord(self.model.position.x as i128 + t.x as i128),
                y: clamp_coord(self.model.position.y as i128 + t.y as i128),
            };
        }
    }

    /// Reflects the direction off the walls that the ball is beyond (left or
    /// right, and top; two at a corner, on the sum of their normals). Returns
    /// whether it bounced.
    pub fn refle_edge(&mut self, disp_size: Vec2) -> (r: bool)
        requires
            old(self).wf(),
        ensures
            final(self).wf(),
            *final(self) == after_edges(*old(self), disp_size),
            final(self).model == old(self).model,
            final(self).speed == old(self).speed,
            r == edge_normal(old(self).model.position, disp_size) is Some,
    {
        let p = self.model.position;
        let nx: i64 = if disp_size.x <= p.x {
            -1
        } else if p.x <= 0 {
            1
        } else {
            0
        };
        let ny: i64 = if disp_size.y <= p.y {
            -1
        } else {
            0
        };
        if nx == 0 && ny == 0 {
            return false;
        }
        let base = if -UNIT <= self.angle.x && self.angle.x <= UNIT && -UNIT <= self.angle.y
            && self.angle.y <= UNIT {
            self.angle
        } else {
            normalize(self.angle)
        };
        let n = Vec2 { x: nx, y: ny };
        let d = reflect(base, n);
        proof {
            assert(!is_zero(d)) by (nonlinear_arith)
                requires
                    d.x == base.x - 2 * (base.x * n.x + base.y * n.y) * n.x,
                    d.y == base.y - 2 * (base.x * n.x + base.y * n.y) * n.y,
                    -1 <= n.x <= 1,
                    -1 <= n.y <= 1,
                    n.x != 0 || n.y != 0,
                    n.y == 0 || n.y == -1,
                    base.x != 0 || base.y != 0,
            ;
            assert(within(d, DIR_LIMIT as int)) by (nonlinear_arith)
                requires
                    d.x == base.x - 2 * (base.x * n.x + base.y * n.y) * n.x,
                    d.y == base.y - 2 * (base.x * n.x + base.y * n.y) * n.y,
                    -1 <= n.x <= 1,
                    -1 <= n.y <= 1,
                    -UNIT <= base.x <= UNIT,
                    -UNIT <= base.y <= UNIT,
            ;
        }
        self.angle = d;
        true
    }

    /// Tests the ball's path for this frame against the paddle's top edge.
    /// The pointer is shown where the path's line meets the edge ahead of the
    /// ball (`0 <= s <= 1`, `r >= 0`) and hidden otherwise. On contact
    /// (`0 <= r <= 1` as well) the ball is moved to the contact point and
    /// sent off along the paddle's normal with English. Returns whether it
    /// bounced.
    pub fn refle_paddle(&mut self, paddle: &Paddle, pointer: &mut Pointer) -> (r: bool)
        requires
            old(self).wf(),
            paddle.wf(),
            old(pointer).wf(),
        ensures
            final(self).wf(),
            final(pointer).wf(),
            *final(self) == after_paddle(*old(self), *paddle),
            *final(pointer) == pointer_after(*old(self), *paddle, *old(pointer)),
            r == meets_paddle(*old(self), *paddle),
            final(self).speed == old(self).speed,
            final(self).model.half_size == old(self).model.half_size,
            final(self).model.color == old(self).model.color,
            final(pointer).model.half_size == old(pointer).model.half_size,
            final(pointer).model.color == old(pointer).model.color,
    {
        let a = self.model.position;
        let b = self.path_end_of();
        let pm = paddle.model;
        let c = Vec2 { x: pm.position.x - pm.half_size.x, y: pm.position.y + pm.half_size.y };
        let d = Vec2 { x: pm.position.x + pm.half_size.x, y: pm.position.y + pm.half_size.y };
        let k = match segment_intersect(a, b, c, d) {
            Some(k) => k,
            None => {
                pointer.visible = false;
                return false;
            },
        };
        if 0 <= k.s_num && k.s_num <= k.den && 0 <= k.r_num {
            proof {
                assert(-0x1_0000_0000_0000_0000_0000_0000 <= (d.x - c.x) * k.s_num
                    <= 0x1_0000_0000_0000_0000_0000_0000) by (nonlinear_arith)
                    requires
                        0 <= d.x - c.x <= 2 * COORD_LIMIT,
                        0 <= k.s_num <= 0x8000_0000_0000_0000,
                ;
            }
            let off = div_toward_zero((d.x as i128 - c.x as i128) * k.s_num, k.den);
            pointer.model.position = Vec2 {
                x: clamp_coord(c.x as i128 + off),
                y: clamp_coord(c.y as i128),
            };
            pointer.visible = true;
        } else {
            pointer.visible = false;
        }
        if 0 <= k.r_num && k.r_num <= k.den && 0 <= k.s_num && k.s_num <= k.den {
            proof {
                assert(-0x1_0000_0000_0000_0000_0000_0000 <= (b.x - a.x) * k.r_num
                    <= 0x1_0000_0000_0000_0000_0000_0000) by (nonlinear_arith)
                    requires
                        -4 * SPEED_LIMIT <= b.x - a.x <= 4 * SPEED_LIMIT,
                        0 <= k.r_num <= 0x8000_0000_0000_0000,
                ;
                assert(-0x1_0000_0000_0000_0000_0000_0000 <= (b.y - a.y) * k.r_num
                    <= 0x1_0000_0000_0000_0000_0000_0000) by (nonlinear_arith)
                    requires
                        -4 * SPEED_LIMIT <= b.y - a.y <= 4 * SPEED_LIMIT,
                        0 <= k.r_num <= 0x8000_0000_0000_0000,
                ;
                assert(0 <= k.s_num * UNIT <= 0x1_0000_0000_0000_0000_0000) by (nonlinear_arith)
                    requires
                        0 <= k.s_num <= 0x8000_0000_0000_0000,
                ;
                assert((k.s_num as int) * (UNIT as int) / (k.den as int) <= UNIT) by (nonlinear_arith)
                    requires
                        0 <= k.s_num <= k.den,
                        k.den > 0,
                ;
                assert((k.s_num as int) * (UNIT as int) / (k.den as int) >= 0) by (nonlinear_arith)
                    requires
                        0 <= k.s_num,
                        k.den > 0,
                ;
            }
            let dx = div_toward_zero((b.x as i128 - a.x as i128) * k.r_num, k.den);
            let dy = div_toward_zero((b.y as i128 - a.y as i128) * k.r_num, k.den);
            self.model.position = Vec2 {
                x: clamp_coord(a.x as i128 + dx),
                y: clamp_coord(a.y as i128 + dy),
            };
            let s = (k.s_num * (UNIT as i128) / k.den) as i64;
            let e = Vec2 {
                x: (s - UNIT / 2) * 4,
                y: if self.angle.y < 0 {
                    UNIT
                } else {
                    -UNIT
                },
            };
            self.angle = normalize(e);
            true
        } else {
            false
        }
    }

    /// Asks the grid for the brick that the ball's path strikes this frame;
    /// on a hit, reflects the direction off the struck face. Returns whether
    /// a brick broke.
    pub fn refle_brick(&mut self, brick: &mut BrickColumn, state: &mut BreakOutGameState) -> (r:
        bool)
        requires
            old(self).wf(),
            old(brick).wf(),
        ensures
            final(self).wf(),
            final(brick).wf(),
            *final(self) == after_bricks(*old(self), old(brick)@),
            final(brick)@ == grid_after(old(brick)@, *old(self)),
            *final(state) == state_after_bricks(*old(state), old(brick)@, *old(self)),
            r == grid_face(old(brick)@, *old(self)) is Some,
            final(self).model == old(self).model,
            final(self).speed == old(self).speed,
    {
        let hit = brick.collision(self, state);
        match hit {
            Some(f) => {
                let n = match f {
                    BBCollisionPoint::Top => Vec2 { x: 0, y: 1 },
                    BBCollisionPoint::Bottom => Vec2 { x: 0, y: -1 },
                    BBCollisionPoint::Left => Vec2 { x: -1, y: 0 },
                    BBCollisionPoint::Right => Vec2 { x: 1, y: 0 },
                };
                let d = reflect(self.angle, n);
                proof {
                    lemma_axis_reflect(self.angle, n);
                }
                self.angle = d;
                true
            },
            None => false,
        }
    }

    /// The ball has left the arena through the bottom.
    pub fn despawnable(&self) -> (r: bool)
        ensures
            r == (self.model.position.y < 0),
    {
        self.model.position.y < 0
    }
}

/// At the left wall: a ball exactly on `x = 0`, inside the other walls and
/// moving left with a normalised direction, is sent moving right, at the same
/// vertical speed.
pub proof fn lemma_left_wall_turns_ball_right(ball: Ball, disp_size: Vec2)
    requires
        ball.wf(),
        within(ball.angle, UNIT as int),
        ball.model.position.x == 0,
        0 < disp_size.x,
        ball.model.position.y < disp_size.y,
        ball.angle.x < 0,
    ensures
        edge_normal(ball.model.position, disp_size) == Some(Vec2 { x: 1, y: 0 }),
        reflected(wall_base(ball.angle), Vec2 { x: 1, y: 0 }).x > 0,
        reflected(wall_base(ball.angle), Vec2 { x: 1, y: 0 }).x == -ball.angle.x,
        reflected(wall_base(ball.angle), Vec2 { x: 1, y: 0 }).y == ball.angle.y,
{
    lemma_axis_reflect(ball.angle, Vec2 { x: 1, y: 0 });
}

/// Inside the walls, edge reflection does nothing: a ball strictly between
/// the left and right walls and below the top has no wall normal, so
/// `refle_edge` leaves it as it is, however often it runs.
pub proof fn lemma_inside_walls_no_reflection(ball: Ball, disp_size: Vec2)
    requires
        0 < ball.model.position.x < disp_size.x,
        ball.model.position.y < disp_size.y,
    ensures
        edge_normal(ball.model.position, disp_size) is None,
{
}

} // verus!
