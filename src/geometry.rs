//! Fixed-point plane geometry: vectors, reflection, normalisation and
//! segment/segment intersection.
//!
//! Positions are measured in sixtieths of a pixel, so that speeds quoted in
//! pixels per second at sixty frames per second are whole numbers per frame.
//! A direction is a vector whose length is close to `UNIT`.
use vstd::prelude::*;

verus! {

/// Length that stands for 1 in a direction vector.
pub const UNIT: i64 = 65536;

/// Positions and half-extents of the entities stay within this bound.
pub const COORD_LIMIT: i64 = 268435456;

/// Components of a direction stay within this bound (three times `UNIT`).
pub const DIR_LIMIT: i64 = 196608;

/// Largest speed, in sixtieths of a pixel per frame.
pub const SPEED_LIMIT: i64 = 65536;

/// Segment end points handed to `segment_intersect` stay within this bound.
pub const SEG_LIMIT: i64 = 1073741824;

/// A point or a vector of the plane.
#[derive(Clone, Copy, Debug, PartialEq, Eq, Structural)]
pub struct Vec2 {
    pub x: i64,
    pub y: i64,
}

impl Vec2 {
    pub fn new(x: i64, y: i64) -> (r: Vec2)
        ensures
            r.x == x,
            r.y == y,
    {
        Vec2 { x, y }
    }
}

pub open spec fn abs(a: int) -> int {
    if a < 0 {
        -a
    } else {
        a
    }
}

/// Both components lie within `[-lim, lim]`.
pub open spec fn within(v: Vec2, lim: int) -> bool {
    -lim <= v.x <= lim && -lim <= v.y <= lim
}

pub open spec fn is_zero(v: Vec2) -> bool {
    v.x == 0 && v.y == 0
}

/// Squared length.
pub open spec fn len2(v: Vec2) -> int {
    v.x * v.x + v.y * v.y
}

/// Dot product.
pub open spec fn dot(u: Vec2, v: Vec2) -> int {
    u.x * v.x + u.y * v.y
}

/// `v + (-2 * dot(v, n)) * n`, componentwise.
pub open spec fn reflected_x(v: Vec2, n: Vec2) -> int {
    v.x - 2 * dot(v, n) * n.x
}

pub open spec fn reflected_y(v: Vec2, n: Vec2) -> int {
    v.y - 2 * dot(v, n) * n.y
}

/// The length of `v` is `UNIT` up to the rounding of a normalisation: its
/// square lies in `(UNIT² - 4·UNIT - 2, UNIT²]`.
pub open spec fn near_unit(v: Vec2) -> bool {
    UNIT * UNIT - 4 * UNIT - 2 < len2(v) <= UNIT * UNIT
}

/// `r` is the component of the normalised vector that belongs to `c`, where
/// `o` is the other component: `|r| = floor(UNIT · |c| / sqrt(c² + o²))`,
/// with the sign of `c`.
pub open spec fn unit_part(r: int, c: int, o: int) -> bool {
    &&& (c > 0 ==> r >= 0)
    &&& (c < 0 ==> r <= 0)
    &&& abs(r) * abs(r) * (c * c + o * o) <= c * c * (UNIT * UNIT)
    &&& c * c * (UNIT * UNIT) < (abs(r) + 1) * (abs(r) + 1) * (c * c + o * o)
}

/// `a / b` rounded toward zero, for `b > 0`.
pub open spec fn trunc_div(a: int, b: int) -> int {
    if a >= 0 {
        a / b
    } else {
        -((-a) / b)
    }
}

/// `v` clamped into `[lo, hi]`.
pub open spec fn clamp(v: int, lo: int, hi: int) -> int {
    if v < lo {
        lo
    } else if v > hi {
        hi
    } else {
        v
    }
}

/// How far a body moving along `dir` at `speed` travels in one frame.
pub open spec fn travel(dir: Vec2, speed: int) -> (int, int) {
    (trunc_div(dir.x * speed, UNIT as int), trunc_div(dir.y * speed, UNIT as int))
}

proof fn lemma_mul_bound(a: int, b: int, la: int, lb: int)
    requires
        -la <= a <= la,
        -lb <= b <= lb,
    ensures
        -(la * lb) <= a * b <= la * lb,
{
    assert(-(la * lb) <= a * b <= la * lb) by (nonlinear_arith)
        requires
            -la <= a <= la,
            -lb <= b <= lb,
    ;
}

proof fn lemma_trunc_div_bound(a: int, b: int, lim: int)
    requires
        b > 0,
        -lim <= a <= lim,
    ensures
        -lim <= trunc_div(a, b) <= lim,
        abs(trunc_div(a, b)) <= abs(a),
        a >= 0 ==> trunc_div(a, b) >= 0,
        a <= 0 ==> trunc_div(a, b) <= 0,
{
    if a >= 0 {
        assert(a / b <= a) by (nonlinear_arith)
            requires
                a >= 0,
                b > 0,
        ;
        assert(a / b >= 0) by (nonlinear_arith)
            requires
                a >= 0,
                b > 0,
        ;
    } else {
        assert((-a) / b <= -a) by (nonlinear_arith)
            requires
                -a > 0,
                b > 0,
        ;
        assert((-a) / b >= 0) by (nonlinear_arith)
            requires
                -a > 0,
                b > 0,
        ;
    }
}

/// `a / b` rounded toward zero.
pub fn div_toward_zero(a: i128, b: i128) -> (r: i128)
    requires
        b > 0,
        a > i128::MIN,
    ensures
        r == trunc_div(a as int, b as int),
{
    if a >= 0 {
        a / b
    } else {
        -((-a) / b)
    }
}

/// `v` clamped into `[-COORD_LIMIT, COORD_LIMIT]`.
pub fn clamp_coord(v: i128) -> (r: i64)
    ensures
        r == clamp(v as int, -COORD_LIMIT as int, COORD_LIMIT as int),
{
    if v < -(COORD_LIMIT as i128) {
        -COORD_LIMIT
    } else if v > COORD_LIMIT as i128 {
        COORD_LIMIT
    } else {
        v as i64
    }
}

/// How far a body moving along `dir` at `speed` travels in one frame.
pub fn travel_of(dir: Vec2, speed: i64) -> (r: Vec2)
    requires
        within(dir, DIR_LIMIT as int),
        0 <= speed <= SPEED_LIMIT,
    ensures
        (r.x as int, r.y as int) == travel(dir, speed as int),
        within(r, 3 * SPEED_LIMIT),
{
    proof {
        lemma_mul_bound(dir.x as int, speed as int, DIR_LIMIT as int, SPEED_LIMIT as int);
        lemma_mul_bound(dir.y as int, speed as int, DIR_LIMIT as int, SPEED_LIMIT as int);
    }
    let px = (dir.x as i128) * (speed as i128);
    let py = (dir.y as i128) * (speed as i128);
    let x = div_toward_zero(px, UNIT as i128);
    let y = div_toward_zero(py, UNIT as i128);
    proof {
        assert(-(3 * SPEED_LIMIT) <= trunc_div(px as int, UNIT as int) <= 3 * SPEED_LIMIT) by {
            if px >= 0 {
                assert(px as int / UNIT as int <= 3 * SPEED_LIMIT) by (nonlinear_arith)
                    requires
                        0 <= px <= DIR_LIMIT * SPEED_LIMIT,
                ;
            } else {
                assert((-px) as int / UNIT as int <= 3 * SPEED_LIMIT) by (nonlinear_arith)
                    requires
                        0 < -px <= DIR_LIMIT * SPEED_LIMIT,
                ;
            }
            lemma_trunc_div_bound(px as int, UNIT as int, DIR_LIMIT * SPEED_LIMIT);
        }
        assert(-(3 * SPEED_LIMIT) <= trunc_div(py as int, UNIT as int) <= 3 * SPEED_LIMIT) by {
            if py >= 0 {
                assert(py as int / UNIT as int <= 3 * SPEED_LIMIT) by (nonlinear_arith)
                    requires
                        0 <= py <= DIR_LIMIT * SPEED_LIMIT,
                ;
            } else {
                assert((-py) as int / UNIT as int <= 3 * SPEED_LIMIT) by (nonlinear_arith)
                    requires
                        0 < -py <= DIR_LIMIT * SPEED_LIMIT,
                ;
            }
            lemma_trunc_div_bound(py as int, UNIT as int, DIR_LIMIT * SPEED_LIMIT);
        }
    }
    Vec2 { x: x as i64, y: y as i64 }
}

/// Reflects `v` on a surface with normal `n`, whose components are -1, 0 or
/// 1: `v + (-2 * dot(v, n)) * n`. The result is not renormalised.
pub fn reflect(v: Vec2, n: Vec2) -> (r: Vec2)
    requires
        -1 <= n.x <= 1,
        -1 <= n.y <= 1,
        within(v, COORD_LIMIT as int),
    ensures
        r.x == reflected_x(v, n),
        r.y == reflected_y(v, n),
{
    proof {
        lemma_mul_bound(v.x as int, n.x as int, COORD_LIMIT as int, 1);
        lemma_mul_bound(v.y as int, n.y as int, COORD_LIMIT as int, 1);
    }
    let d = v.x * n.x + v.y * n.y;
    proof {
        lemma_mul_bound(2 * d, n.x as int, 4 * COORD_LIMIT, 1);
        lemma_mul_bound(2 * d, n.y as int, 4 * COORD_LIMIT, 1);
    }
    Vec2 { x: v.x - 2 * d * n.x, y: v.y - 2 * d * n.y }
}

/// Reflecting on an axis normal flips one component and keeps the other.
pub proof fn lemma_axis_reflect(v: Vec2, n: Vec2)
    requires
        (n.x == 0 && (n.y == 1 || n.y == -1)) || (n.y == 0 && (n.x == 1 || n.x == -1)),
    ensures
        n.x == 0 ==> reflected_x(v, n) == v.x && reflected_y(v, n) == -v.y,
        n.y == 0 ==> reflected_x(v, n) == -v.x && reflected_y(v, n) == v.y,
{
    assert(n.x == 0 ==> reflected_x(v, n) == v.x && reflected_y(v, n) == -v.y) by (nonlinear_arith)
        requires
            (n.x == 0 && (n.y == 1 || n.y == -1)) || (n.y == 0 && (n.x == 1 || n.x == -1)),
    ;
    assert(n.y == 0 ==> reflected_x(v, n) == -v.x && reflected_y(v, n) == v.y) by (nonlinear_arith)
        requires
            (n.x == 0 && (n.y == 1 || n.y == -1)) || (n.y == 0 && (n.x == 1 || n.x == -1)),
    ;
}

/// The largest `r` with `r * r <= n`.
pub fn isqrt(n: u64) -> (r: u64)
    requires
        n <= 0x1_0000_0000,
    ensures
        r * r <= n < (r + 1) * (r + 1),
        r <= 65536,
{
    let mut lo: u64 = 0;
    let mut hi: u64 = 65537;
    assert(hi * hi > 0x1_0000_0000) by (nonlinear_arith)
        requires
            hi == 65537,
    ;
    while lo + 1 < hi
        invariant
            lo < hi <= 65537,
            lo * lo <= n,
            n < hi * hi,
        decreases hi - lo,
    {
        let mid = lo + (hi - lo) / 2;
        assert(mid * mid <= 65537 * 65537) by (nonlinear_arith)
            requires
                mid <= 65537,
        ;
        if mid * mid <= n {
            lo = mid;
        } else {
            hi = mid;
        }
    }
    assert(lo <= 65536);
    lo
}

proof fn lemma_floor_div_brackets(x: int, n: int, q: int, m: int)
    requires
        n > 0,
        x >= 0,
        q == x / n,
        m >= 0,
        m * m <= q < (m + 1) * (m + 1),
    ensures
        m * m * n <= x < (m + 1) * (m + 1) * n,
{
    assert(m * m * n <= x < (m + 1) * (m + 1) * n) by (nonlinear_arith)
        requires
            n > 0,
            x >= 0,
            q == x / n,
            m >= 0,
            m * m <= q < (m + 1) * (m + 1),
    ;
}

/// The component of the normalised vector that belongs to `c`, `o` being
/// the other component.
fn unit_component(c: i64, o: i64) -> (r: i64)
    requires
        -DIR_LIMIT <= c <= DIR_LIMIT,
        -DIR_LIMIT <= o <= DIR_LIMIT,
        c != 0 || o != 0,
    ensures
        unit_part(r as int, c as int, o as int),
        -UNIT <= r <= UNIT,
{
    let a: u128 = if c < 0 { (-c) as u128 } else { c as u128 };
    let b: u128 = if o < 0 { (-o) as u128 } else { o as u128 };
    proof {
        lemma_mul_bound(a as int, a as int, DIR_LIMIT as int, DIR_LIMIT as int);
        lemma_mul_bound(b as int, b as int, DIR_LIMIT as int, DIR_LIMIT as int);
        assert(a * a + b * b > 0) by (nonlinear_arith)
            requires
                a > 0 || b > 0,
        ;
    }
    let aa = a * a;
    let nn = aa + b * b;
    let uu: u128 = (UNIT as u128) * (UNIT as u128);
    proof {
        lemma_mul_bound(aa as int, uu as int, DIR_LIMIT * DIR_LIMIT, UNIT * UNIT);
    }
    let x = aa * uu;
    let q = x / nn;
    proof {
        assert(q <= uu) by (nonlinear_arith)
            requires
                x == aa * uu,
                q == x / nn,
                nn >= aa,
                nn > 0,
                uu > 0,
        ;
    }
    let m = isqrt(q as u64);
    proof {
        lemma_floor_div_brackets(x as int, nn as int, q as int, m as int);
        assert(abs(c as int) == a);
        assert(abs(o as int) == b);
        assert(c * c == a * a) by (nonlinear_arith)
            requires
                abs(c as int) == a,
        ;
        assert(o * o == b * b) by (nonlinear_arith)
            requires
                abs(o as int) == b,
        ;
    }
    if c < 0 {
        -(m as i64)
    } else {
        m as i64
    }
}

proof fn lemma_unit_part_sq(r: int, c: int, o: int)
    requires
        unit_part(r, c, o),
        c * c + o * o > 0,
    ensures
        r * r * (c * c + o * o) <= c * c * (UNIT * UNIT),
        c * c * (UNIT * UNIT) < (r * r + 2 * abs(r) + 1) * (c * c + o * o),
{
    assert(abs(r) * abs(r) == r * r) by (nonlinear_arith);
    assert((abs(r) + 1) * (abs(r) + 1) == r * r + 2 * abs(r) + 1) by (nonlinear_arith)
        requires
            abs(r) * abs(r) == r * r,
    ;
}

/// Normalised components have a squared length within the rounding band.
pub proof fn lemma_unit_parts_near_unit(x: int, y: int, cx: int, cy: int)
    requires
        unit_part(x, cx, cy),
        unit_part(y, cy, cx),
        cx * cx + cy * cy > 0,
    ensures
        UNIT * UNIT - 4 * UNIT - 2 < x * x + y * y <= UNIT * UNIT,
        -UNIT <= x <= UNIT,
        -UNIT <= y <= UNIT,
{
    let n = cx * cx + cy * cy;
    let uu = UNIT * UNIT;
    lemma_unit_part_sq(x, cx, cy);
    lemma_unit_part_sq(y, cy, cx);
    assert(cy * cy + cx * cx == n);
    assert((x * x + y * y) * n <= n * uu) by (nonlinear_arith)
        requires
            x * x * n <= cx * cx * uu,
            y * y * n <= cy * cy * uu,
            n == cx * cx + cy * cy,
    ;
    assert(x * x + y * y <= uu) by (nonlinear_arith)
        requires
            (x * x + y * y) * n <= n * uu,
            n > 0,
    ;
    assert(x * x <= uu && y * y <= uu) by (nonlinear_arith)
        requires
            x * x + y * y <= uu,
    ;
    assert(-UNIT <= x <= UNIT) by (nonlinear_arith)
        requires
            x * x <= UNIT * UNIT,
    ;
    assert(-UNIT <= y <= UNIT) by (nonlinear_arith)
        requires
            y * y <= UNIT * UNIT,
    ;
    let ex = x * x + 2 * abs(x) + 1;
    let ey = y * y + 2 * abs(y) + 1;
    assert(n * uu < (ex + ey) * n) by (nonlinear_arith)
        requires
            cx * cx * uu < ex * n,
            cy * cy * uu < ey * n,
            n == cx * cx + cy * cy,
    ;
    assert(uu < ex + ey) by (nonlinear_arith)
        requires
            n * uu < (ex + ey) * n,
            n > 0,
    ;
}

/// `v` scaled to length `UNIT`, each component rounded toward zero.
pub open spec fn normalized(v: Vec2) -> Vec2 {
    choose|w: Vec2|
        unit_part(w.x as int, v.x as int, v.y as int) && unit_part(w.y as int, v.y as int, v.x as int)
}

proof fn lemma_floor_sqrt_unique(m1: int, m2: int, n: int, x: int)
    requires
        m1 >= 0,
        m2 >= 0,
        n > 0,
        m1 * m1 * n <= x < (m1 + 1) * (m1 + 1) * n,
        m2 * m2 * n <= x < (m2 + 1) * (m2 + 1) * n,
    ensures
        m1 == m2,
{
    if m1 < m2 {
        assert((m1 + 1) * (m1 + 1) * n <= m2 * m2 * n) by (nonlinear_arith)
            requires
                0 <= m1 < m2,
                n > 0,
        ;
    } else if m2 < m1 {
        assert((m2 + 1) * (m2 + 1) * n <= m1 * m1 * n) by (nonlinear_arith)
            requires
                0 <= m2 < m1,
                n > 0,
        ;
    }
}

/// The component that `unit_part` describes is unique.
pub proof fn lemma_unit_part_unique(r1: int, r2: int, c: int, o: int)
    requires
        unit_part(r1, c, o),
        unit_part(r2, c, o),
        c * c + o * o > 0,
    ensures
        r1 == r2,
{
    let n = c * c + o * o;
    let x = c * c * (UNIT * UNIT);
    assert(x >= 0) by (nonlinear_arith)
        requires
            x == c * c * (UNIT * UNIT),
    ;
    lemma_floor_sqrt_unique(abs(r1), abs(r2), n, x);
    if c == 0 {
        assert(c * c * (UNIT * UNIT) == 0) by (nonlinear_arith)
            requires
                c == 0,
        ;
        assert(abs(r1) == 0) by (nonlinear_arith)
            requires
                abs(r1) * abs(r1) * n <= 0,
                n > 0,
                abs(r1) >= 0,
        ;
    }
}

/// Scales a non-zero direction to length `UNIT`, up to rounding.
pub fn normalize(v: Vec2) -> (r: Vec2)
    requires
        within(v, DIR_LIMIT as int),
        !is_zero(v),
    ensures
        r == normalized(v),
        unit_part(r.x as int, v.x as int, v.y as int),
        unit_part(r.y as int, v.y as int, v.x as int),
        near_unit(r),
        within(r, UNIT as int),
        !is_zero(r),
{
    let x = unit_component(v.x, v.y);
    let y = unit_component(v.y, v.x);
    proof {
        assert(v.x * v.x + v.y * v.y > 0) by (nonlinear_arith)
            requires
                v.x != 0 || v.y != 0,
        ;
        lemma_unit_parts_near_unit(x as int, y as int, v.x as int, v.y as int);
        let w = normalized(v);
        assert(unit_part(w.x as int, v.x as int, v.y as int) && unit_part(
            w.y as int,
            v.y as int,
            v.x as int,
        )) by {
            let r = Vec2 { x, y };
            assert(unit_part(r.x as int, v.x as int, v.y as int) && unit_part(
                r.y as int,
                v.y as int,
                v.x as int,
            ));
        }
        lemma_unit_part_unique(w.x as int, x as int, v.x as int, v.y as int);
        assert(v.y * v.y + v.x * v.x > 0) by (nonlinear_arith)
            requires
                v.x * v.x + v.y * v.y > 0,
        ;
        lemma_unit_part_unique(w.y as int, y as int, v.y as int, v.x as int);
        assert(!(x == 0 && y == 0)) by {
            if x == 0 && y == 0 {
                assert(x * x + y * y == 0) by (nonlinear_arith)
                    requires
                        x == 0 && y == 0,
                ;
            }
        }
    }
    Vec2 { x, y }
}

/// Cross product `u × v`.
pub open spec fn cross(ux: int, uy: int, vx: int, vy: int) -> int {
    ux * vy - uy * vx
}

/// Where segment AB meets the line through CD and CD meets the line through
/// AB, as fractions of each: `r = r_num / den` along AB and `s = s_num / den`
/// along CD, with `den > 0`.
#[derive(Clone, Copy, Debug, PartialEq, Eq, Structural)]
pub struct Crossing {
    pub r_num: i128,
    pub s_num: i128,
    pub den: i128,
}

/// The crossing parameters of AB and CD, `None` when they are parallel.
pub open spec fn crossing(a: Vec2, b: Vec2, c: Vec2, d: Vec2) -> Option<Crossing> {
    let den = cross(b.x - a.x, b.y - a.y, d.x - c.x, d.y - c.y);
    let rn = cross(c.x - a.x, c.y - a.y, d.x - c.x, d.y - c.y);
    let sn = cross(c.x - a.x, c.y - a.y, b.x - a.x, b.y - a.y);
    if den == 0 {
        None
    } else if den > 0 {
        Some(Crossing { r_num: rn as i128, s_num: sn as i128, den: den as i128 })
    } else {
        Some(Crossing { r_num: -rn as i128, s_num: -sn as i128, den: -den as i128 })
    }
}

/// The bound on the three numbers of a crossing.
pub open spec fn crossing_bounded(k: Crossing) -> bool {
    &&& 0 < k.den <= 0x8000_0000_0000_0000
    &&& -0x8000_0000_0000_0000 <= k.r_num <= 0x8000_0000_0000_0000
    &&& -0x8000_0000_0000_0000 <= k.s_num <= 0x8000_0000_0000_0000
}

/// `0 <= r <= 1`.
pub open spec fn r_in_unit(k: Crossing) -> bool {
    0 <= k.r_num <= k.den
}

/// `0 <= s <= 1`.
pub open spec fn s_in_unit(k: Crossing) -> bool {
    0 <= k.s_num <= k.den
}

fn cross_of(ux: i128, uy: i128, vx: i128, vy: i128) -> (r: i128)
    requires
        -0x8000_0000 <= ux <= 0x8000_0000,
        -0x8000_0000 <= uy <= 0x8000_0000,
        -0x8000_0000 <= vx <= 0x8000_0000,
        -0x8000_0000 <= vy <= 0x8000_0000,
    ensures
        r == cross(ux as int, uy as int, vx as int, vy as int),
        -0x8000_0000_0000_0000 <= r <= 0x8000_0000_0000_0000,
{
    proof {
        lemma_mul_bound(ux as int, vy as int, 0x8000_0000, 0x8000_0000);
        lemma_mul_bound(uy as int, vx as int, 0x8000_0000, 0x8000_0000);
    }
    ux * vy - uy * vx
}

/// Solves for the parameters at which segment AB and segment CD cross.
/// `None` when the determinant is zero (parallel or degenerate segments);
/// whether the crossing lies within both segments is for the caller to test.
pub fn segment_intersect(a: Vec2, b: Vec2, c: Vec2, d: Vec2) -> (r: Option<Crossing>)
    requires
        within(a, SEG_LIMIT as int),
        within(b, SEG_LIMIT as int),
        within(c, SEG_LIMIT as int),
        within(d, SEG_LIMIT as int),
    ensures
        r == crossing(a, b, c, d),
        r matches Some(k) ==> crossing_bounded(k),
{
    let abx = b.x as i128 - a.x as i128;
    let aby = b.y as i128 - a.y as i128;
    let cdx = d.x as i128 - c.x as i128;
    let cdy = d.y as i128 - c.y as i128;
    let acx = c.x as i128 - a.x as i128;
    let acy = c.y as i128 - a.y as i128;
    let den = cross_of(abx, aby, cdx, cdy);
    let rn = cross_of(acx, acy, cdx, cdy);
    let sn = cross_of(acx, acy, abx, aby);
    if den == 0 {
        None
    } else if den > 0 {
        Some(Crossing { r_num: rn, s_num: sn, den })
    } else {
        Some(Crossing { r_num: -rn, s_num: -sn, den: -den })
    }
}

/// `r1 < r2` for two crossings.
pub open spec fn r_before(k1: Crossing, k2: Crossing) -> bool {
    k1.r_num * k2.den < k2.r_num * k1.den
}

/// Decides `r_before(k1, k2)`.
pub fn is_r_before(k1: Crossing, k2: Crossing) -> (r: bool)
    requires
        crossing_bounded(k1),
        crossing_bounded(k2),
    ensures
        r == r_before(k1, k2),
{
    proof {
        lemma_mul_bound(
            k1.r_num as int,
            k2.den as int,
            0x8000_0000_0000_0000,
            0x8000_0000_0000_0000,
        );
        lemma_mul_bound(
            k2.r_num as int,
            k1.den as int,
            0x8000_0000_0000_0000,
            0x8000_0000_0000_0000,
        );
    }
    k1.r_num * k2.den < k2.r_num * k1.den
}

} // verus!
