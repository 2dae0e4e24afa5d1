use breakout::ball::Ball;
use breakout::brick::{
    BBCollisionPoint, Brick, BrickCollection, BrickColumn, BrickFeature, BrickSpawnParam, BrickTemplate,
    BrickType,
};
use breakout::entities::{BreakOutEntities, FrameEvents, Intent, MouseMoveBuffer, MouseMoveInput};
use breakout::geometry::{isqrt, normalize, reflect, segment_intersect, Crossing, Vec2, UNIT};
use breakout::instance::{Instance, Rgba};
use breakout::paddle::{Paddle, PaddleDifficulity, PaddleMoveFlag};
use breakout::pointer::Pointer;
use breakout::scene::{BreakOut, Pause, SceneController};
use breakout::state::{BreakOutDifficulity, BreakOutGameState, GameState};

const ARENA: i64 = 38400;

fn white() -> Rgba {
    Rgba::new(255, 255, 255, 255)
}

fn ball_at(x: i64, y: i64, ax: i64, ay: i64, speed: i64) -> Ball {
    Ball::spawn(Vec2::new(x, y), white(), Vec2::new(ax, ay), speed)
}

fn one_brick(score: u64) -> impl Fn(u32, u32, Vec2, Vec2) -> Option<BrickTemplate> {
    move |_x: u32, _y: u32, _p: Vec2, _s: Vec2| {
        Some(BrickTemplate {
            feature: BrickFeature::new(score, BrickType::Normal),
            color: Rgba::new(200, 10, 10, 255),
        })
    }
}

/// One brick of 24 by 12 pixels whose bottom edge lies at y = 7780, centred
/// in a 640 by 640 pixel arena.
fn single_brick_param(score: u64) -> BrickSpawnParam<impl Fn(u32, u32, Vec2, Vec2) -> Option<BrickTemplate>> {
    BrickSpawnParam {
        column: 1,
        row: 1,
        margin_top: ARENA - 720 - 7780,
        brick_margin: Vec2::new(120, 240),
        brick_size: Vec2::new(1440, 720),
        spawn_f: one_brick(score),
    }
}

fn len2(v: Vec2) -> i64 {
    v.x * v.x + v.y * v.y
}

fn near_unit(v: Vec2) -> bool {
    let u = UNIT * UNIT;
    u - 4 * UNIT - 2 < len2(v) && len2(v) <= u
}

fn playing() -> BreakOutGameState {
    BreakOutGameState::new()
}

// ---- scenarios ----

#[test]
fn brick_break_and_score() {
    let disp = Vec2::new(ARENA, ARENA);
    let mut ents = BreakOutEntities::new(single_brick_param(100), disp);
    let mut state = playing();
    assert_eq!(ents.remain_brick(), 1);
    ents.intent_input(Intent::Launch, true);
    let ev = ents.update(disp, &mut state);
    assert!(!ev.brick_break);
    let ball = ents.ball().expect("launched");
    assert_eq!(ball.model.position, Vec2::new(ARENA / 2, 7680));
    ents.intent_input(Intent::Launch, false);
    let ev = ents.update(disp, &mut state);
    assert!(ev.brick_break);
    assert_eq!(ents.remain_brick(), 0);
    assert_eq!(state.score, 100);
    assert_eq!(state.state, GameState::GameClear);
    // struck from below: the bottom face, so the ball now heads down
    let ball = ents.ball().expect("still live");
    assert_eq!(ball.angle, Vec2::new(0, -UNIT));
}

#[test]
fn brick_break_reports_struck_face() {
    let disp = Vec2::new(ARENA, ARENA);
    let mut bricks = BrickCollection::spawn(disp, single_brick_param(100));
    let mut state = playing();
    // from below, moving up
    let ball = ball_at(ARENA / 2, 7700, 0, UNIT, 250);
    assert_eq!(bricks.get_mut().collision(&ball, &mut state), Some(BBCollisionPoint::Bottom));
    assert_eq!(bricks.get().count(), 0);
    assert_eq!(state.score, 100);

    // from the left, moving right: the brick spans x in [18480, 19920]
    let mut bricks = BrickCollection::spawn(disp, single_brick_param(100));
    let ball = ball_at(18400, 8000, UNIT, 0, 250);
    assert_eq!(bricks.get_mut().collision(&ball, &mut state), Some(BBCollisionPoint::Left));

    // from above, moving down: the top edge is at 8500
    let mut bricks = BrickCollection::spawn(disp, single_brick_param(100));
    let ball = ball_at(ARENA / 2, 8600, 0, -UNIT, 250);
    assert_eq!(bricks.get_mut().collision(&ball, &mut state), Some(BBCollisionPoint::Top));

    // from the right, moving left
    let mut bricks = BrickCollection::spawn(disp, single_brick_param(100));
    let ball = ball_at(20000, 8000, -UNIT, 0, 250);
    assert_eq!(bricks.get_mut().collision(&ball, &mut state), Some(BBCollisionPoint::Right));
    assert_eq!(state.score, 400);
}

#[test]
fn paddle_launch_gating() {
    let disp = Vec2::new(ARENA, ARENA);
    let mut paddle = Paddle::spawn(Vec2::new(ARENA / 2, 7200), white());
    paddle.move_flag.ball_shot = true;
    let mut state = playing();
    state.remain_ball = 0;
    let mut slot: Option<Ball> = None;
    paddle.update(disp, &mut state, &mut slot);
    assert!(slot.is_none());
    assert_eq!(state.state, GameState::GameOver);
}

#[test]
fn paddle_launch_gating_through_frame() {
    let disp = Vec2::new(ARENA, ARENA);
    let mut ents = BreakOutEntities::new(single_brick_param(100), disp);
    let mut state = playing();
    state.remain_ball = 0;
    ents.intent_input(Intent::Launch, true);
    ents.update(disp, &mut state);
    assert!(ents.ball().is_none());
    assert_eq!(state.state, GameState::GameOver);
}

#[test]
fn pointer_visibility() {
    let paddle = Paddle::spawn(Vec2::new(19200, 7200), white());
    // the paddle's top edge runs from x = 17760 to 20640 at y = 7440
    let mut pointer = Pointer::spawn();

    // heading away from the paddle: the line meets the edge behind the ball
    let mut ball = ball_at(19200, 9000, 0, UNIT, 250);
    assert!(!ball.refle_paddle(&paddle, &mut pointer));
    assert!(!pointer.visible);

    // heading down beside the paddle: the line misses the edge
    let mut ball = ball_at(25000, 9000, 0, -UNIT, 250);
    assert!(!ball.refle_paddle(&paddle, &mut pointer));
    assert!(!pointer.visible);

    // heading down onto the paddle, far above: shown at the meeting point
    let mut ball = ball_at(18480, 9000, 0, -UNIT, 250);
    assert!(!ball.refle_paddle(&paddle, &mut pointer));
    assert!(pointer.visible);
    assert_eq!(pointer.model.position, Vec2::new(18480, 7440));
    assert_eq!(ball.model.position, Vec2::new(18480, 9000));

    // the same trajectory in reach: contact
    let mut ball = ball_at(18480, 7600, 0, -UNIT, 250);
    assert!(ball.refle_paddle(&paddle, &mut pointer));
    assert!(pointer.visible);
    assert_eq!(pointer.model.position, Vec2::new(18480, 7440));
    assert_eq!(ball.model.position, Vec2::new(18480, 7440));
    // struck at a quarter of the width: English to the left, bouncing up
    assert!(ball.angle.x < 0);
    assert!(ball.angle.y > 0);
    assert!(near_unit(ball.angle));
    assert_eq!(ball.angle, normalize(Vec2::new(-UNIT, UNIT)));
}

#[test]
fn corner_wall_reflection() {
    let disp = Vec2::new(ARENA, ARENA);
    let mut ball = ball_at(ARENA + 10, ARENA + 10, 30000, 40000, 250);
    assert!(ball.refle_edge(disp));
    // on the summed normal (-1, -1): (-x - 2y, -2x - y)
    assert_eq!(ball.angle, Vec2::new(-110000, -100000));
    // a single wall would only have flipped one component
    assert_ne!(ball.angle, Vec2::new(-30000, 40000));
    assert_ne!(ball.angle, Vec2::new(30000, -40000));
}

// ---- general properties on concrete values ----

#[test]
fn direction_unit_after_motion() {
    let state = playing();
    for (ax, ay) in [(1, 0), (3, 4), (-110000, -100000), (7, -196608), (0, -5)] {
        let mut ball = ball_at(1000, 1000, ax, ay, 250);
        ball.moving(&state);
        assert!(near_unit(ball.angle), "{ax} {ay}");
    }
}

#[test]
fn motion_only_while_playing() {
    let mut state = playing();
    state.state = GameState::GameClear;
    let mut ball = ball_at(1000, 1000, 3, 4, 250);
    let before = ball;
    ball.moving(&state);
    assert_eq!(ball, before);
}

#[test]
fn motion_advances_by_speed() {
    let state = playing();
    let mut ball = ball_at(1000, 1000, 0, 7, 250);
    ball.moving(&state);
    assert_eq!(ball.angle, Vec2::new(0, UNIT));
    assert_eq!(ball.model.position, Vec2::new(1000, 1250));
    let mut ball = ball_at(1000, 1000, 3, -4, 300);
    ball.moving(&state);
    assert_eq!(ball.angle, Vec2::new(39321, -52428));
    // 39321 * 300 / 65536 = 179.9..., 52428 * 300 / 65536 = 239.9...
    assert_eq!(ball.model.position, Vec2::new(1179, 761));
}

#[test]
fn reflection_keeps_speed() {
    let disp = Vec2::new(ARENA, ARENA);
    let mut ball = ball_at(ARENA, 100, 1000, 2000, 300);
    ball.refle_edge(disp);
    assert_eq!(ball.speed, 300);
    let paddle = Paddle::spawn(Vec2::new(19200, 7200), white());
    let mut pointer = Pointer::spawn();
    let mut ball = ball_at(19200, 7600, 0, -UNIT, 350);
    assert!(ball.refle_paddle(&paddle, &mut pointer));
    assert_eq!(ball.speed, 350);
    let mut bricks = BrickCollection::spawn(disp, single_brick_param(5));
    let mut state = playing();
    let mut ball = ball_at(ARENA / 2, 7700, 0, UNIT, 250);
    assert!(ball.refle_brick(bricks.get_mut(), &mut state));
    assert_eq!(ball.speed, 250);
}

#[test]
fn left_wall_reflection_then_noop() {
    let disp = Vec2::new(ARENA, ARENA);
    let mut ball = ball_at(0, 5000, -30000, 20000, 250);
    assert!(ball.refle_edge(disp));
    assert_eq!(ball.angle, Vec2::new(30000, 20000));
    ball.model.position = Vec2::new(200, 5000);
    let corrected = ball;
    assert!(!ball.refle_edge(disp));
    assert!(!ball.refle_edge(disp));
    assert_eq!(ball, corrected);
}

#[test]
fn bottom_is_no_wall() {
    let disp = Vec2::new(ARENA, ARENA);
    let mut ball = ball_at(500, -10, 0, -UNIT, 250);
    assert!(!ball.refle_edge(disp));
    assert!(ball.despawnable());
    let ball = ball_at(500, 0, 0, -UNIT, 250);
    assert!(!ball.despawnable());
}

#[test]
fn brick_destroyed_exactly_once() {
    let disp = Vec2::new(ARENA, ARENA);
    let two = |x: u32, _y: u32, _p: Vec2, _s: Vec2| {
        Some(BrickTemplate {
            feature: BrickFeature::new(10 * (x as u64 + 1), BrickType::Normal),
            color: Rgba::new(1, 2, 3, 255),
        })
    };
    let param = BrickSpawnParam {
        column: 1,
        row: 2,
        margin_top: 1000,
        brick_margin: Vec2::new(120, 240),
        brick_size: Vec2::new(1440, 720),
        spawn_f: two,
    };
    let mut bricks = BrickCollection::spawn(disp, param);
    assert_eq!(bricks.get().count(), 2);
    let mut state = playing();
    // row centre y = 38400 - 1000 - 360 = 37040; cells at x = 18420, 19980
    let ball = ball_at(18420, 36500, 0, UNIT, 350);
    assert_eq!(bricks.get_mut().collision(&ball, &mut state), Some(BBCollisionPoint::Bottom));
    assert_eq!(bricks.get().count(), 1);
    assert_eq!(state.score, 10);
    assert_eq!(bricks.get_mut().collision(&ball, &mut state), None);
    assert_eq!(bricks.get().count(), 1);
    assert_eq!(state.score, 10);
}

#[test]
fn scan_order_first_row_first_cell() {
    let disp = Vec2::new(ARENA, ARENA);
    let param = BrickSpawnParam {
        column: 2,
        row: 2,
        margin_top: 1000,
        brick_margin: Vec2::new(0, 0),
        brick_size: Vec2::new(1440, 720),
        spawn_f: |x: u32, y: u32, _p: Vec2, _s: Vec2| {
            Some(BrickTemplate {
                feature: BrickFeature::new((y as u64) * 10 + x as u64 + 1, BrickType::Normal),
                color: Rgba::new(1, 2, 3, 255),
            })
        },
    };
    let mut bricks = BrickCollection::spawn(disp, param);
    let mut state = playing();
    // a long diagonal path through the shared corner of all four cells:
    // the bottom row is scanned first, its first cell first
    let ball = Ball::spawn(Vec2::new(19200 - 300, 36320 - 300), white(), Vec2::new(UNIT, UNIT), 65536);
    assert!(bricks.get_mut().collision(&ball, &mut state).is_some());
    assert_eq!(state.score, 1);
}

#[test]
fn one_ball_at_a_time() {
    let disp = Vec2::new(ARENA, ARENA);
    let mut ents = BreakOutEntities::new(single_brick_param(100), disp);
    let mut state = playing();
    ents.intent_input(Intent::Launch, true);
    ents.update(disp, &mut state);
    let first = ents.ball().expect("launched");
    ents.update(disp, &mut state);
    let second = ents.ball().expect("still one ball");
    // the same ball moved on; no new one at the paddle
    assert_ne!(second.model.position, first.model.position);
    assert_eq!(state.remain_ball, 5);
}

#[test]
fn lost_round_stays_lost() {
    let disp = Vec2::new(ARENA, ARENA);
    let mut ents = BreakOutEntities::new(single_brick_param(100), disp);
    let mut state = playing();
    state.remain_ball = 0;
    ents.update(disp, &mut state);
    assert_eq!(state.state, GameState::GameOver);
    ents.intent_input(Intent::Launch, true);
    for _ in 0..5 {
        ents.update(disp, &mut state);
        assert_eq!(state.state, GameState::GameOver);
        assert!(ents.ball().is_none());
    }
}

#[test]
fn missed_ball_costs_a_life() {
    let disp = Vec2::new(ARENA, ARENA);
    // two bricks far to either side of the ball's straight path
    let param = BrickSpawnParam {
        column: 1,
        row: 2,
        margin_top: 1000,
        brick_margin: Vec2::new(10000, 240),
        brick_size: Vec2::new(1440, 720),
        spawn_f: one_brick(100),
    };
    let mut ents = BreakOutEntities::new(param, disp);
    let mut state = playing();
    ents.intent_input(Intent::Launch, true);
    ents.update(disp, &mut state);
    ents.intent_input(Intent::Launch, false);
    // move the paddle out of the way
    ents.mouse_motion_input(MouseMoveInput(Vec2::new(12000, 0)));
    let mut missed = FrameEvents { wall_bounce: false, paddle_bounce: false, brick_break: false, ball_miss: false };
    for _ in 0..2000 {
        let ev = ents.update(disp, &mut state);
        if ev.ball_miss {
            missed = ev;
            break;
        }
    }
    assert!(missed.ball_miss);
    assert_eq!(state.remain_ball, 4);
    assert!(ents.ball().is_none());
}

// ---- exact values ----

#[test]
fn segment_intersection_values() {
    let k = segment_intersect(Vec2::new(0, 0), Vec2::new(4, 4), Vec2::new(0, 4), Vec2::new(4, 0));
    assert_eq!(k, Some(Crossing { r_num: 16, s_num: 16, den: 32 }));
    let k = segment_intersect(Vec2::new(0, 0), Vec2::new(0, 10), Vec2::new(-5, 2), Vec2::new(5, 2));
    assert_eq!(k, Some(Crossing { r_num: 20, s_num: 50, den: 100 }));
    // parallel
    assert_eq!(segment_intersect(Vec2::new(0, 0), Vec2::new(1, 1), Vec2::new(0, 1), Vec2::new(1, 2)), None);
    // degenerate
    assert_eq!(segment_intersect(Vec2::new(3, 3), Vec2::new(3, 3), Vec2::new(0, 1), Vec2::new(1, 2)), None);
}

#[test]
fn reflect_values() {
    assert_eq!(reflect(Vec2::new(5, -7), Vec2::new(0, 1)), Vec2::new(5, 7));
    assert_eq!(reflect(Vec2::new(5, -7), Vec2::new(-1, 0)), Vec2::new(-5, -7));
    assert_eq!(reflect(Vec2::new(2, 3), Vec2::new(-1, -1)), Vec2::new(-8, -7));
}

#[test]
fn normalize_and_isqrt_values() {
    assert_eq!(normalize(Vec2::new(3, 4)), Vec2::new(39321, 52428));
    assert_eq!(normalize(Vec2::new(-5, 0)), Vec2::new(-UNIT, 0));
    assert_eq!(normalize(Vec2::new(1, 1)), Vec2::new(46340, 46340));
    assert_eq!(isqrt(0), 0);
    assert_eq!(isqrt(15), 3);
    assert_eq!(isqrt(16), 4);
    assert_eq!(isqrt(0x1_0000_0000), 65536);
}

#[test]
fn tier_speeds_and_fades() {
    let mut ball = ball_at(10, 10, 0, UNIT, 1);
    let mut state = playing();
    ball.update(&state, &BreakOutDifficulity::Easy);
    assert_eq!(ball.speed, 250);
    ball.update(&state, &BreakOutDifficulity::Normal);
    assert_eq!(ball.speed, 300);
    ball.update(&state, &BreakOutDifficulity::Hard);
    assert_eq!(ball.speed, 350);
    assert_eq!(ball.model.color, white());
    state.state = GameState::GameOver;
    ball.update(&state, &BreakOutDifficulity::Hard);
    assert_eq!(ball.model.color, Rgba::new(255, 0, 0, 0));
    state.state = GameState::GameClear;
    ball.update(&state, &BreakOutDifficulity::Hard);
    assert_eq!(ball.model.color, Rgba::new(0, 0, 0, 0));
}

#[test]
fn paddle_sizes_and_colors() {
    assert_eq!(PaddleDifficulity::Easy.size(), Vec2::new(3840, 480));
    assert_eq!(PaddleDifficulity::Normal.size(), Vec2::new(2880, 480));
    assert_eq!(PaddleDifficulity::Hard.size(), Vec2::new(1920, 480));
    let disp = Vec2::new(ARENA, ARENA);
    let mut paddle = Paddle::spawn(Vec2::new(19200, 7200), white());
    let mut state = playing();
    state.difficulity = BreakOutDifficulity::Hard;
    let mut slot = None;
    paddle.update(disp, &mut state, &mut slot);
    assert_eq!(paddle.model.half_size, Vec2::new(960, 240));
    paddle.change_color(&state, &slot);
    assert_eq!(paddle.model.color, Rgba::new(255, 0, 0, 255));
    let slot = Some(ball_at(10, 10, 0, UNIT, 1));
    paddle.change_color(&state, &slot);
    assert_eq!(paddle.model.color, white());
    state.state = GameState::GameOver;
    paddle.change_color(&state, &None);
    assert_eq!(paddle.model.color, Rgba::new(0, 0, 0, 0));
    state.state = GameState::GameClear;
    paddle.change_color(&state, &slot);
    assert_eq!(paddle.model.color, Rgba::new(0, 0, 255, 0));
}

#[test]
fn paddle_movement_and_clamp() {
    let disp = Vec2::new(ARENA, ARENA);
    let mut state = playing();
    let mut slot = Some(ball_at(10, 10, 0, UNIT, 1));
    let mut paddle = Paddle::spawn(Vec2::new(19200, 7200), white());
    paddle.move_flag.move_right = true;
    paddle.update(disp, &mut state, &mut slot);
    assert_eq!(paddle.model.position.x, 19456);
    paddle.move_flag = PaddleMoveFlag { move_left: true, move_right: false, move_delta: -100, ball_shot: false };
    paddle.update(disp, &mut state, &mut slot);
    assert_eq!(paddle.model.position.x, 19100);
    assert_eq!(paddle.move_flag.move_delta, 0);
    // easy tier: half width 1920; pushed far left, it stops half off screen
    paddle.move_flag = PaddleMoveFlag { move_left: false, move_right: false, move_delta: -100000, ball_shot: false };
    paddle.update(disp, &mut state, &mut slot);
    assert_eq!(paddle.model.position.x, -1920);
    paddle.move_flag.move_delta = 100000;
    paddle.update(disp, &mut state, &mut slot);
    assert_eq!(paddle.model.position.x, ARENA + 1920);
}

#[test]
fn launch_from_paddle() {
    let disp = Vec2::new(ARENA, ARENA);
    let mut paddle = Paddle::spawn(Vec2::new(19200, 7200), white());
    paddle.move_flag.ball_shot = true;
    let mut state = playing();
    let mut slot = None;
    paddle.update(disp, &mut state, &mut slot);
    let b = slot.expect("launched");
    assert_eq!(b.model.position, Vec2::new(19200, 7680));
    assert_eq!(b.angle, Vec2::new(0, UNIT));
    assert_eq!(b.speed, 250);
    assert_eq!(state.state, GameState::Yes);
}

#[test]
fn brick_effects() {
    let mut state = playing();
    BrickFeature::new(100, BrickType::Normal).hitted_process(&mut state);
    assert_eq!((state.score, state.difficulity), (100, BreakOutDifficulity::Easy));
    BrickFeature::new(200, BrickType::Upper).hitted_process(&mut state);
    assert_eq!((state.score, state.difficulity), (300, BreakOutDifficulity::Normal));
    BrickFeature::new(0, BrickType::Upper).hitted_process(&mut state);
    assert_eq!(state.difficulity, BreakOutDifficulity::Normal);
    BrickFeature::new(500, BrickType::Top).hitted_process(&mut state);
    assert_eq!((state.score, state.difficulity), (800, BreakOutDifficulity::Hard));
    BrickFeature::new(u64::MAX, BrickType::Normal).hitted_process(&mut state);
    assert_eq!(state.score, u64::MAX);
}

#[test]
fn layout_positions_and_gaps() {
    let disp = Vec2::new(ARENA, ARENA);
    let param = BrickSpawnParam {
        column: 3,
        row: 4,
        margin_top: 1920,
        brick_margin: Vec2::new(120, 240),
        brick_size: Vec2::new(1440, 720),
        spawn_f: |x: u32, y: u32, _p: Vec2, _s: Vec2| {
            if y == 1 {
                None
            } else {
                Some(BrickTemplate {
                    feature: BrickFeature::new(x as u64, BrickType::Normal),
                    color: Rgba::new(1, 2, 3, 255),
                })
            }
        },
    };
    let bricks = BrickCollection::spawn(disp, param);
    assert_eq!(bricks.get().count(), 8);
    let mut ents_models = Vec::new();
    bricks.as_instance(&mut ents_models);
    assert_eq!(ents_models.len(), 8);
    // width 4*1440 + 3*120 = 6120, left margin (38400 - 6120) / 2 = 16140
    // height 3*720 + 2*240 = 2640, bottom 38400 - (1920 + 2640) = 33840
    assert_eq!(ents_models[0].position, Vec2::new(16140 + 720, 33840 + 360));
    assert_eq!(ents_models[1].position, Vec2::new(16140 + 1560 + 720, 33840 + 360));
    assert_eq!(ents_models[4].position, Vec2::new(16140 + 720, 33840 + 2 * 960 + 360));
    assert_eq!(ents_models[0].half_size, Vec2::new(720, 360));
}

#[test]
fn drawable_order() {
    let disp = Vec2::new(ARENA, ARENA);
    let mut ents = BreakOutEntities::new(single_brick_param(100), disp);
    let mut state = playing();
    let v = ents.as_instance();
    assert_eq!(v.len(), 2);
    assert_eq!(v[0].position, Vec2::new(ARENA / 2, 7200));
    ents.intent_input(Intent::Launch, true);
    ents.update(disp, &mut state);
    let v = ents.as_instance();
    assert_eq!(v.len(), 3);
    assert_eq!(v[2].position, Vec2::new(ARENA / 2, 7680));
}

#[test]
fn aabb_overlap_touching() {
    let a = Instance { position: Vec2::new(0, 0), half_size: Vec2::new(10, 10), color: white() };
    let b = Instance { position: Vec2::new(20, 0), half_size: Vec2::new(10, 10), color: white() };
    let c = Instance { position: Vec2::new(21, 0), half_size: Vec2::new(10, 10), color: white() };
    assert!(a.collision_aabb(&b));
    assert!(!a.collision_aabb(&c));
    let e = a.edges();
    assert_eq!(e[0], [Vec2::new(-10, -10), Vec2::new(10, -10)]);
    assert_eq!(e[3], [Vec2::new(10, -10), Vec2::new(10, 10)]);
}

#[test]
fn mouse_buffer_flushes_once() {
    let mut buf = MouseMoveBuffer::new();
    buf.input(Vec2::new(30, 1));
    buf.input(Vec2::new(-10, 2));
    let m = buf.finalize();
    assert_eq!(m, MouseMoveInput(Vec2::new(20, 3)));
    assert_eq!(buf.finalize(), MouseMoveInput(Vec2::new(0, 0)));
}

#[test]
fn pointer_motion_consumed_by_frame() {
    let disp = Vec2::new(ARENA, ARENA);
    let mut ents = BreakOutEntities::new(single_brick_param(100), disp);
    let mut state = playing();
    ents.mouse_motion_input(MouseMoveInput(Vec2::new(600, 0)));
    ents.update(disp, &mut state);
    assert_eq!(ents.paddle().model.position.x, ARENA / 2 + 600);
    ents.update(disp, &mut state);
    assert_eq!(ents.paddle().model.position.x, ARENA / 2 + 600);
}

#[test]
fn scene_pause_and_hud() {
    let disp = Vec2::new(ARENA, ARENA);
    let mut game = BreakOut::new(single_brick_param(100), disp);
    assert_eq!(game.hud().remain_brick, 1);
    assert_eq!(game.hud().remain_ball, 5);
    game.pause_input(true);
    assert_eq!(game.update(disp).0, SceneController::NewScene);
    assert_eq!(game.update(disp).0, SceneController::NOp);
    let mut pause = Pause::new();
    assert_eq!(pause.update(), SceneController::NOp);
    pause.resume_input(true);
    assert_eq!(pause.update(), SceneController::PopScene);
}

#[test]
fn grid_of_gaps_is_won_at_once() {
    let disp = Vec2::new(ARENA, ARENA);
    let param = BrickSpawnParam {
        column: 3,
        row: 3,
        margin_top: 0,
        brick_margin: Vec2::new(0, 0),
        brick_size: Vec2::new(600, 600),
        spawn_f: |_x: u32, _y: u32, _p: Vec2, _s: Vec2| -> Option<BrickTemplate> { None },
    };
    let mut ents = BreakOutEntities::new(param, disp);
    let mut state = playing();
    assert_eq!(ents.remain_brick(), 0);
    ents.update(disp, &mut state);
    assert_eq!(state.state, GameState::GameClear);
}

#[test]
fn largest_grid() {
    let disp = Vec2::new(16777216, 16777216);
    let param = BrickSpawnParam {
        column: 256,
        row: 256,
        margin_top: 131072,
        brick_margin: Vec2::new(131072, 131072),
        brick_size: Vec2::new(131072, 131072),
        spawn_f: |x: u32, y: u32, _p: Vec2, _s: Vec2| {
            if (x + y) % 2 == 0 {
                Some(BrickTemplate {
                    feature: BrickFeature::new(1, BrickType::Normal),
                    color: Rgba::new(0, 0, 0, 255),
                })
            } else {
                None
            }
        },
    };
    let bricks = BrickCollection::spawn(disp, param);
    assert_eq!(bricks.get().count(), 256 * 128);
    let mut models = Vec::new();
    bricks.as_instance(&mut models);
    assert_eq!(models.len(), 256 * 128);
    // width 256 * 131072 + 255 * 131072 = 66977792, left (16777216 - 66977792) / 2
    assert_eq!(models[0].position.x, -25100288 + 65536);
}

#[test]
fn hit_at_end_of_step_counts() {
    // the step ends exactly on the bottom edge: r = 1, s = 1/2
    let brick = Brick::spawn(
        BrickFeature::new(100, BrickType::Normal),
        Vec2::new(6000, 6000),
        Vec2::new(1440, 720),
        white(),
    );
    let ball = ball_at(6000, 5340, 0, UNIT, 300);
    assert_eq!(brick.collision(&ball), Some(BBCollisionPoint::Bottom));
    // one unit short: no hit
    let ball = ball_at(6000, 5339, 0, UNIT, 300);
    assert_eq!(brick.collision(&ball), None);
}

#[test]
fn launch_speed_follows_tier() {
    let disp = Vec2::new(ARENA, ARENA);
    for (tier, speed) in [
        (BreakOutDifficulity::Easy, 250),
        (BreakOutDifficulity::Normal, 300),
        (BreakOutDifficulity::Hard, 350),
    ] {
        let mut paddle = Paddle::spawn(Vec2::new(19200, 7200), white());
        paddle.move_flag.ball_shot = true;
        let mut state = playing();
        state.difficulity = tier;
        let mut slot = None;
        paddle.update(disp, &mut state, &mut slot);
        assert_eq!(slot.expect("launched").speed, speed);
    }
}

#[test]
fn scene_forwards_input() {
    let disp = Vec2::new(ARENA, ARENA);
    let mut game = BreakOut::new(single_brick_param(100), disp);
    game.intent_input(Intent::MoveRight, true);
    assert!(game.entities().paddle().move_flag.move_right);
    game.intent_input(Intent::MoveRight, false);
    game.mouse_motion_input(MouseMoveInput(Vec2::new(600, 0)));
    assert_eq!(game.entities().paddle().move_flag.move_delta, 600);
    game.intent_input(Intent::Launch, true);
    let (req, ev) = game.update(disp);
    assert_eq!(req, SceneController::NOp);
    assert!(!ev.brick_break);
    assert_eq!(game.entities().paddle().model.position.x, ARENA / 2 + 600);
    assert!(game.entities().ball().is_some());
    assert_eq!(game.state().remain_ball, 5);
}
