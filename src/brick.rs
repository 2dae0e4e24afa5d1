//! The brick grid: rows of optional bricks, each destroyed at most once by
//! the collision query, which also applies the brick's effect on the round.
use vstd::prelude::*;
use crate::ball::Ball;
use crate::geometry::{
    crossing, crossing_bounded, is_r_before, r_before, r_in_unit, s_in_unit, segment_intersect,
    within, Crossing, Vec2, COORD_LIMIT, SEG_LIMIT,
};
use crate::instance::{Instance, Rgba};
use crate::state::{BreakOutDifficulity, BreakOutGameState};

verus! {

/// The face of a brick that the ball struck.
#[derive(Clone, Copy, Debug, PartialEq, Eq, Structural)]
pub enum BBCollisionPoint {
    Top,
    Bottom,
    Left,
    Right,
}

/// What hitting a brick does to the difficulty.
#[derive(Clone, Copy, Debug, PartialEq, Eq, Structural)]
pub enum BrickType {
    /// Nothing.
    Normal,
    /// Raises Easy to Normal.
    Upper,
    /// Raises any tier to Hard.
    Top,
}

/// The score and effect of a brick.
#[derive(Clone, Copy, Debug, PartialEq, Eq, Structural)]
pub struct BrickFeature {
    pub score: u64,
    pub blk_type: BrickType,
}

/// The tier after a brick of type `t` is hit.
pub open spec fn escalated(d: BreakOutDifficulity, t: BrickType) -> BreakOutDifficulity {
    match t {
        BrickType::Normal => d,
        BrickType::Upper => if d == BreakOutDifficulity::Easy {
            BreakOutDifficulity::Normal
        } else {
            d
        },
        BrickType::Top => BreakOutDifficulity::Hard,
    }
}

/// The round state after a brick with feature `f` is hit: its score is
/// added (saturating at the largest `u64`) and the tier escalates.
pub open spec fn after_hit(s: BreakOutGameState, f: BrickFeature) -> BreakOutGameState {
    BreakOutGameState {
        score: if s.score + f.score > u64::MAX {
            u64::MAX
        } else {
            (s.score + f.score) as u64
        },
        difficulity: escalated(s.difficulity, f.blk_type),
        ..s
    }
}

impl BrickFeature {
    pub fn new(score: u64, blk_type: BrickType) -> (r: Self)
        ensures
            r.score == score,
            r.blk_type == blk_type,
    {
        BrickFeature { score, blk_type }
    }

    /// Applies the hit to the round: adds the score, escalates the tier.
    pub fn hitted_process(&self, state: &mut BreakOutGameState)
        ensures
            *final(state) == after_hit(*old(state), *self),
    {
        state.score = if state.score > u64::MAX - self.score {
            u64::MAX
        } else {
            state.score + self.score
        };
        match self.blk_type {
            BrickType::Normal => {},
            BrickType::Upper => {
                if state.difficulity == BreakOutDifficulity::Easy {
                    state.difficulity = BreakOutDifficulity::Normal;
                }
            },
            BrickType::Top => {
                state.difficulity = BreakOutDifficulity::Hard;
            },
        }
    }
}

/// The face that edge `i` (bottom, top, left, right) belongs to.
pub open spec fn face_of(i: int) -> BBCollisionPoint {
    if i == 0 {
        BBCollisionPoint::Bottom
    } else if i == 1 {
        BBCollisionPoint::Top
    } else if i == 2 {
        BBCollisionPoint::Left
    } else {
        BBCollisionPoint::Right
    }
}

/// A crossing that counts as a hit: `0 <= r <= 1` along the ball's path and
/// `0 <= s <= 1` along the edge.
pub open spec fn is_hit(k: Option<Crossing>) -> bool {
    k matches Some(c) && r_in_unit(c) && s_in_unit(c)
}

/// Crossing of the path AB with edge `i` of `m`.
pub open spec fn edge_crossing(a: Vec2, b: Vec2, m: Instance, i: int) -> Option<Crossing> {
    crossing(a, b, m.edge_start(i), m.edge_end(i))
}

/// Among the first `n` edges of `m`, the one that the path AB hits first:
/// smallest `r`, the earlier edge on equal `r`.
pub open spec fn nearest_edge(a: Vec2, b: Vec2, m: Instance, n: nat) -> Option<int>
    decreases n,
{
    if n == 0 {
        None
    } else {
        let prev = nearest_edge(a, b, m, (n - 1) as nat);
        let k = edge_crossing(a, b, m, n - 1);
        if is_hit(k) && (prev is None || r_before(
            k.unwrap(),
            edge_crossing(a, b, m, prev.unwrap()).unwrap(),
        )) {
            Some(n - 1)
        } else {
            prev
        }
    }
}

/// A brick.
#[derive(Clone, Copy, Debug, PartialEq, Eq, Structural)]
pub struct Brick {
    pub feature: BrickFeature,
    pub model: Instance,
}

impl Brick {
    pub open spec fn wf(self) -> bool {
        self.model.wf()
    }

    /// The face that the path AB strikes first, if any.
    pub open spec fn struck_face(self, a: Vec2, b: Vec2) -> Option<BBCollisionPoint> {
        match nearest_edge(a, b, self.model, 4) {
            Some(i) => Some(face_of(i)),
            None => None,
        }
    }

    /// A brick of full size `size` centred at `position`; its half-extents
    /// are half the size, rounded down.
    pub fn spawn(feature: BrickFeature, position: Vec2, size: Vec2, color: Rgba) -> (r: Self)
        requires
            within(position, COORD_LIMIT as int),
            0 <= size.x <= COORD_LIMIT,
            0 <= size.y <= COORD_LIMIT,
        ensures
            r.wf(),
            r == (Brick {
                feature,
                model: Instance {
                    position,
                    half_size: Vec2 { x: (size.x / 2) as i64, y: (size.y / 2) as i64 },
                    color,
                },
            }),
    {
        Brick {
            feature,
            model: Instance { position, half_size: Vec2 { x: size.x / 2, y: size.y / 2 }, color },
        }
    }

    /// Applies this brick's effect to the round: its score and its change
    /// of tier.
    pub fn hit(&self, state: &mut BreakOutGameState)
        ensures
            *final(state) == after_hit(*old(state), self.feature),
    {
        self.feature.hitted_process(state)
    }

    /// Swept-segment test of the ball's path for this frame against the
    /// four edges; the edge crossed first gives the face.
    pub fn collision(&self, ball: &Ball) -> (r: Option<BBCollisionPoint>)
        requires
            self.wf(),
            ball.wf(),
        ensures
            r == self.struck_face(ball.model.position, ball.path_end()),
    {
        let a = ball.model.position;
        let b = ball.path_end_of();
        let edges = self.model.edges();
        let mut best: Option<(usize, Crossing)> = None;
        let mut i: usize = 0;
        while i < 4
            invariant
                i <= 4,
                self.wf(),
                within(a, SEG_LIMIT as int),
                within(b, SEG_LIMIT as int),
                forall|j: int|
                    0 <= j < 4 ==> edges[j][0] == self.model.edge_start(j) && edges[j][1]
                        == self.model.edge_end(j),
                forall|j: int|
                    0 <= j < 4 ==> within(edges[j][0], SEG_LIMIT as int) && within(
                        edges[j][1],
                        SEG_LIMIT as int,
                    ),
                match best {
                    None => nearest_edge(a, b, self.model, i as nat) is None,
                    Some((bi, bk)) => {
                        &&& nearest_edge(a, b, self.model, i as nat) == Some(bi as int)
                        &&& edge_crossing(a, b, self.model, bi as int) == Some(bk)
                        &&& crossing_bounded(bk)
                    },
                },
            decreases 4 - i,
        {
            let k = segment_intersect(a, b, edges[i][0], edges[i][1]);
            if let Some(k) = k {
                if 0 <= k.r_num && k.r_num <= k.den && 0 <= k.s_num && k.s_num <= k.den {
                    match best {
                        None => {
                            best = Some((i, k));
                        },
                        Some((_, bk)) => {
                            if is_r_before(k, bk) {
                                best = Some((i, k));
                            }
                        },
                    }
                }
            }
            i = i + 1;
        }
        match best {
            Some((bi, _)) => Some(
                if bi == 0 {
                    BBCollisionPoint::Bottom
                } else if bi == 1 {
                    BBCollisionPoint::Top
                } else if bi == 2 {
                    BBCollisionPoint::Left
                } else {
                    BBCollisionPoint::Right
                },
            ),
            None => None,
        }
    }
}

/// Largest number of rows, and of bricks in a row.
pub const GRID_LIMIT: usize = 256;

/// Number of live bricks among `cells`.
pub open spec fn live_count(cells: Seq<Option<Brick>>) -> nat
    decreases cells.len(),
{
    if cells.len() == 0 {
        0
    } else {
        live_count(cells.drop_last()) + if cells.last() is Some {
            1nat
        } else {
            0nat
        }
    }
}

/// Every live brick among `cells` is well formed.
pub open spec fn cells_wf(cells: Seq<Option<Brick>>) -> bool {
    forall|j: int| 0 <= j < cells.len() ==> (#[trigger] cells[j] matches Some(b) ==> b.wf())
}

/// The cell holds a brick that the path AB strikes.
pub open spec fn cell_struck(c: Option<Brick>, a: Vec2, b: Vec2) -> bool {
    c matches Some(br) && br.struck_face(a, b) is Some
}

/// The first cell at index `j` or later that the path AB strikes.
pub open spec fn first_struck_from(cells: Seq<Option<Brick>>, a: Vec2, b: Vec2, j: int) -> Option<
    int,
>
    decreases cells.len() - j,
{
    if j < 0 || j >= cells.len() {
        None
    } else if cell_struck(cells[j], a, b) {
        Some(j)
    } else {
        first_struck_from(cells, a, b, j + 1)
    }
}

pub proof fn lemma_live_count_bound(cells: Seq<Option<Brick>>)
    ensures
        live_count(cells) <= cells.len(),
    decreases cells.len(),
{
    if cells.len() > 0 {
        lemma_live_count_bound(cells.drop_last());
    }
}

/// Clearing a live cell lowers the live count by exactly one.
pub proof fn lemma_live_count_clear(cells: Seq<Option<Brick>>, j: int)
    requires
        0 <= j < cells.len(),
        cells[j] is Some,
    ensures
        live_count(cells.update(j, None)) + 1 == live_count(cells),
    decreases cells.len(),
{
    let u = cells.update(j, None);
    if j == cells.len() - 1 {
        assert(u.drop_last() =~= cells.drop_last());
    } else {
        assert(u.drop_last() =~= cells.drop_last().update(j, None));
        lemma_live_count_clear(cells.drop_last(), j);
    }
}

/// The first struck cell is struck and lies at or after `j`.
pub proof fn lemma_first_struck_from(cells: Seq<Option<Brick>>, a: Vec2, b: Vec2, j: int)
    ensures
        first_struck_from(cells, a, b, j) matches Some(i) ==> j <= i < cells.len() && cell_struck(
            cells[i],
            a,
            b,
        ),
    decreases cells.len() - j,
{
    if 0 <= j < cells.len() && !cell_struck(cells[j], a, b) {
        lemma_first_struck_from(cells, a, b, j + 1);
    }
}

/// A row of optional bricks, with its count of live ones.
pub struct BrickRow {
    bricks: Vec<Option<Brick>>,
    count: usize,
}

impl View for BrickRow {
    type V = Seq<Option<Brick>>;

    closed spec fn view(&self) -> Seq<Option<Brick>> {
        self.bricks@
    }
}

impl BrickRow {
    /// The cached count is the number of live cells, the live bricks are
    /// well formed and the row is not longer than `GRID_LIMIT`.
    pub closed spec fn wf(&self) -> bool {
        &&& self.count == live_count(self.bricks@)
        &&& cells_wf(self.bricks@)
        &&& self.bricks@.len() <= GRID_LIMIT
    }

    /// Number of live bricks in the row.
    pub fn count(&self) -> (r: usize)
        requires
            self.wf(),
        ensures
            r == live_count(self@),
            r <= self@.len() <= GRID_LIMIT,
    {
        proof {
            lemma_live_count_bound(self.bricks@);
        }
        self.count
    }

    /// Scans the row in order for the first live brick that the ball's path
    /// strikes. That brick's effect is applied to `state`, the brick is
    /// removed, and the struck face is returned.
    pub fn collision(&mut self, ball: &Ball, state: &mut BreakOutGameState) -> (r: Option<
        BBCollisionPoint,
    >)
        requires
            old(self).wf(),
            ball.wf(),
        ensures
            final(self).wf(),
            final(self)@.len() == old(self)@.len(),
            match first_struck_from(old(self)@, ball.model.position, ball.path_end(), 0) {
                None => {
                    &&& r is None
                    &&& final(self)@ == old(self)@
                    &&& *final(state) == *old(state)
                },
                Some(j) => {
                    &&& r == old(self)@[j]->Some_0.struck_face(
                        ball.model.position,
                        ball.path_end(),
                    )
                    &&& r is Some
                    &&& final(self)@ == old(self)@.update(j, None)
                    &&& *final(state) == after_hit(*old(state), old(self)@[j]->Some_0.feature)
                },
            },
    {
        let ghost a = ball.model.position;
        let ghost b = ball.path_end();
        let n = self.bricks.len();
        let mut i: usize = 0;
        while i < n
            invariant
                i <= n == self.bricks@.len(),
                self.wf(),
                *self == *old(self),
                *state == *old(state),
                ball.wf(),
                a == ball.model.position,
                b == ball.path_end(),
                first_struck_from(self@, a, b, 0) == first_struck_from(self@, a, b, i as int),
            decreases n - i,
        {
            match self.bricks[i] {
                Some(br) => {
                    let f = br.collision(ball);
                    if let Some(_) = f {
                        assert(first_struck_from(self@, a, b, i as int) == Some(i as int));
                        br.hit(state);
                        proof {
                            lemma_live_count_clear(self.bricks@, i as int);
                            lemma_live_count_bound(self.bricks@);
                        }
                        self.count = self.count - 1;
                        self.bricks.set(i, None);
                        return f;
                    }
                },
                None => {},
            }
            assert(first_struck_from(self@, a, b, i as int) == first_struck_from(
                self@,
                a,
                b,
                i + 1,
            ));
            i = i + 1;
        }
        None
    }
}

/// Number of live bricks in the grid.
pub open spec fn grid_live_count(rows: Seq<Seq<Option<Brick>>>) -> nat
    decreases rows.len(),
{
    if rows.len() == 0 {
        0
    } else {
        grid_live_count(rows.drop_last()) + live_count(rows.last())
    }
}

/// The first cell, scanning rows from `i` on and each row in order, that the
/// path AB strikes: its row and its index in the row.
pub open spec fn first_hit_from(rows: Seq<Seq<Option<Brick>>>, a: Vec2, b: Vec2, i: int) -> Option<
    (int, int),
>
    decreases rows.len() - i,
{
    if i < 0 || i >= rows.len() {
        None
    } else {
        match first_struck_from(rows[i], a, b, 0) {
            Some(j) => Some((i, j)),
            None => first_hit_from(rows, a, b, i + 1),
        }
    }
}

/// The grid with cell `j` of row `i` cleared.
pub open spec fn cleared(rows: Seq<Seq<Option<Brick>>>, i: int, j: int) -> Seq<Seq<Option<Brick>>> {
    rows.update(i, rows[i].update(j, None))
}

/// The brick grid: its rows, bottom row first, and its count of live
/// bricks.
pub struct BrickColumn {
    bricks: Vec<BrickRow>,
    count: usize,
}

impl View for BrickColumn {
    type V = Seq<Seq<Option<Brick>>>;

    closed spec fn view(&self) -> Seq<Seq<Option<Brick>>> {
        self.bricks@.map_values(|r: BrickRow| r@)
    }
}

impl BrickColumn {
    /// Every row is well formed and there are at most `GRID_LIMIT` rows.
    pub closed spec fn wf(&self) -> bool {
        &&& forall|i: int| 0 <= i < self.bricks@.len() ==> (#[trigger] self.bricks@[i]).wf()
        &&& self.bricks@.len() <= GRID_LIMIT
        &&& self.count == grid_live_count(self@)
    }

    /// Scans the rows in order, and each row in order, for the first live
    /// brick that the ball's path strikes; that brick's effect is applied to
    /// `state`, the brick is removed and the struck face is returned.
    pub fn collision(&mut self, ball: &Ball, state: &mut BreakOutGameState) -> (r: Option<
        BBCollisionPoint,
    >)
        requires
            old(self).wf(),
            ball.wf(),
        ensures
            final(self).wf(),
            match first_hit_from(old(self)@, ball.model.position, ball.path_end(), 0) {
                None => {
                    &&& r is None
                    &&& final(self)@ == old(self)@
                    &&& *final(state) == *old(state)
                },
                Some((i, j)) => {
                    &&& r == old(self)@[i][j]->Some_0.struck_face(
                        ball.model.position,
                        ball.path_end(),
                    )
                    &&& r is Some
                    &&& final(self)@ == cleared(old(self)@, i, j)
                    &&& *final(state) == after_hit(*old(state), old(self)@[i][j]->Some_0.feature)
                },
            },
    {
        let ghost a = ball.model.position;
        let ghost b = ball.path_end();
        let n = self.bricks.len();
        let mut i: usize = 0;
        while i < n
            invariant
                i <= n == self.bricks@.len(),
                self.wf(),
                self@ == old(self)@,
                *state == *old(state),
                ball.wf(),
                a == ball.model.position,
                b == ball.path_end(),
                first_hit_from(self@, a, b, 0) == first_hit_from(self@, a, b, i as int),
            decreases n - i,
        {
            let ghost rows = self@;
            assert(rows[i as int] == self.bricks@[i as int]@);
            let r = self.bricks[i].collision(ball, state);
            assert(forall|k: int|
                0 <= k < self.bricks@.len() ==> (#[trigger] self.bricks@[k]).wf());
            if r.is_some() {
                proof {
                    let j = first_struck_from(rows[i as int], a, b, 0)->Some_0;
                    assert(first_hit_from(rows, a, b, i as int) == Some((i as int, j)));
                    assert(self@ =~= cleared(rows, i as int, j));
                    lemma_first_hit_from(rows, a, b, 0);
                    lemma_grid_live_count_clear(rows, i as int, j);
                }
                self.count = self.count - 1;
                return r;
            }
            assert(self@ =~= rows);
            i = i + 1;
        }
        None
    }

    /// Number of live bricks in the grid, kept as the bricks break.
    pub fn count(&self) -> (r: usize)
        requires
            self.wf(),
        ensures
            r == grid_live_count(self@),
    {
        self.count
    }
}

/// The cell that `first_hit_from` finds holds a brick that the path strikes.
pub proof fn lemma_first_hit_from(rows: Seq<Seq<Option<Brick>>>, a: Vec2, b: Vec2, k: int)
    ensures
        first_hit_from(rows, a, b, k) matches Some((i, j)) ==> {
            &&& k <= i < rows.len()
            &&& 0 <= j < rows[i].len()
            &&& cell_struck(rows[i][j], a, b)
        },
    decreases rows.len() - k,
{
    if 0 <= k < rows.len() {
        lemma_first_struck_from(rows[k], a, b, 0);
        if first_struck_from(rows[k], a, b, 0) is None {
            lemma_first_hit_from(rows, a, b, k + 1);
        }
    }
}

/// Clearing a live cell of the grid lowers its live count by exactly one.
pub proof fn lemma_grid_live_count_clear(rows: Seq<Seq<Option<Brick>>>, i: int, j: int)
    requires
        0 <= i < rows.len(),
        0 <= j < rows[i].len(),
        rows[i][j] is Some,
    ensures
        grid_live_count(cleared(rows, i, j)) + 1 == grid_live_count(rows),
    decreases rows.len(),
{
    let u = cleared(rows, i, j);
    if i == rows.len() - 1 {
        assert(u.drop_last() =~= rows.drop_last());
        lemma_live_count_clear(rows[i], j);
    } else {
        assert(u.drop_last() =~= cleared(rows.drop_last(), i, j));
        lemma_grid_live_count_clear(rows.drop_last(), i, j);
    }
}

/// A brick is destroyed exactly once: when a collision query on the grid
/// `rows` reports a hit for the path AB, the live count drops by exactly one,
/// the struck cell is empty afterwards, every cell that was empty stays
/// empty, and no later query, along any path, reports that cell again.
pub proof fn lemma_brick_destroyed_exactly_once(
    rows: Seq<Seq<Option<Brick>>>,
    a: Vec2,
    b: Vec2,
    a2: Vec2,
    b2: Vec2,
)
    requires
        first_hit_from(rows, a, b, 0) is Some,
    ensures
        ({
            let (i, j) = first_hit_from(rows, a, b, 0)->Some_0;
            let after = cleared(rows, i, j);
            &&& grid_live_count(after) + 1 == grid_live_count(rows)
            &&& after[i][j] is None
            &&& forall|p: int, q: int|
                0 <= p < rows.len() && 0 <= q < rows[p].len() && rows[p][q] is None
                    ==> after[p][q] is None
            &&& first_hit_from(after, a2, b2, 0) != Some((i, j))
        }),
{
    let (i, j) = first_hit_from(rows, a, b, 0)->Some_0;
    lemma_first_hit_from(rows, a, b, 0);
    lemma_grid_live_count_clear(rows, i, j);
    let after = cleared(rows, i, j);
    lemma_first_hit_from(after, a2, b2, 0);
}

/// Largest brick size, margin and top margin accepted by the layout.
pub const LAYOUT_LIMIT: i64 = 131072;

/// Largest arena size accepted by the layout.
pub const ARENA_LIMIT: i64 = 16777216;

/// What a factory decides for one cell: the brick's feature and colour.
#[derive(Clone, Copy, Debug, PartialEq, Eq, Structural)]
pub struct BrickTemplate {
    pub feature: BrickFeature,
    pub color: Rgba,
}

/// The template that the cell was made from.
pub open spec fn template_of(c: Option<Brick>) -> Option<BrickTemplate> {
    match c {
        Some(b) => Some(BrickTemplate { feature: b.feature, color: b.model.color }),
        None => None,
    }
}

/// The cell is what the factory `f` returned for index `(x, y)`, placed at
/// `pos` with half the cell size as half-extents.
pub open spec fn placed<F: Fn(u32, u32, Vec2, Vec2) -> Option<BrickTemplate>>(
    c: Option<Brick>,
    f: F,
    x: int,
    y: int,
    pos: Vec2,
    size: Vec2,
) -> bool {
    &&& f.ensures((x as u32, y as u32, pos, size), template_of(c))
    &&& c matches Some(b) ==> b.model.position == pos && b.model.half_size == (Vec2 {
        x: (size.x / 2) as i64,
        y: (size.y / 2) as i64,
    })
}

/// Centre x of cell `k` of a row of `n` cells, centred in an arena of width
/// `w`.
pub open spec fn cell_x(n: int, k: int, margin: int, size: int, w: int) -> int {
    margin * k + (w - (n * size + (n - 1) * margin)) / 2 + size * k + size / 2
}

/// Centre y of row `k` of `n` rows whose top lies `top` below the arena's
/// top edge `h`.
pub open spec fn row_y(n: int, k: int, margin: int, size: int, top: int, h: int) -> int {
    margin * k + size * k + (h - (top + (n * size + (n - 1) * margin))) + size / 2
}

/// The layout parameters are within the bounds that keep every coordinate
/// within `COORD_LIMIT`.
pub open spec fn layout_ok(margin: Vec2, size: Vec2, disp: Vec2) -> bool {
    &&& 0 <= margin.x <= LAYOUT_LIMIT
    &&& 0 <= margin.y <= LAYOUT_LIMIT
    &&& 0 <= size.x <= LAYOUT_LIMIT
    &&& 0 <= size.y <= LAYOUT_LIMIT
    &&& 0 <= disp.x <= ARENA_LIMIT
    &&& 0 <= disp.y <= ARENA_LIMIT
}

proof fn lemma_span_bound(n: int, k: int, margin: int, size: int)
    requires
        1 <= n <= GRID_LIMIT,
        0 <= k < n,
        0 <= margin <= LAYOUT_LIMIT,
        0 <= size <= LAYOUT_LIMIT,
    ensures
        0 <= n * size + (n - 1) * margin <= 2 * GRID_LIMIT * LAYOUT_LIMIT,
        0 <= margin * k + size * k <= 2 * GRID_LIMIT * LAYOUT_LIMIT,
{
    assert(0 <= n * size + (n - 1) * margin <= 2 * GRID_LIMIT * LAYOUT_LIMIT) by (nonlinear_arith)
        requires
            1 <= n <= GRID_LIMIT,
            0 <= margin <= LAYOUT_LIMIT,
            0 <= size <= LAYOUT_LIMIT,
    ;
    assert(0 <= margin * k + size * k <= 2 * GRID_LIMIT * LAYOUT_LIMIT) by (nonlinear_arith)
        requires
            0 <= k < GRID_LIMIT,
            0 <= margin <= LAYOUT_LIMIT,
            0 <= size <= LAYOUT_LIMIT,
    ;
}

/// `v / 2` rounded down.
fn floor_half(v: i64) -> (r: i64)
    ensures
        r == v / 2,
{
    if v >= 0 {
        v / 2
    } else {
        -((-(v + 1)) / 2) - 1
    }
}

impl BrickRow {
    /// Lays out a row of `row` cells at height `pos_y`, centred in the
    /// arena, and asks `spawn_f` for each cell in order; `None` leaves a gap.
    pub fn spawn<F: Fn(u32, u32, Vec2, Vec2) -> Option<BrickTemplate>>(
        row: u32,
        column: u32,
        pos_y: i64,
        brick_margin: i64,
        brick_size: Vec2,
        disp_size: Vec2,
        spawn_f: &F,
    ) -> (r: BrickRow)
        requires
            1 <= row <= GRID_LIMIT,
            -COORD_LIMIT <= pos_y <= COORD_LIMIT,
            layout_ok(Vec2 { x: brick_margin, y: 0 }, brick_size, disp_size),
            forall|x: u32, y: u32, p: Vec2, s: Vec2| spawn_f.requires((x, y, p, s)),
        ensures
            r.wf(),
            r@.len() == row,
            forall|k: int|
                0 <= k < row ==> placed(
                    #[trigger] r@[k],
                    *spawn_f,
                    k,
                    column as int,
                    Vec2 {
                        x: cell_x(
                            row as int,
                            k,
                            brick_margin as int,
                            brick_size.x as int,
                            disp_size.x as int,
                        ) as i64,
                        y: pos_y,
                    },
                    brick_size,
                ),
    {
        let n = row as i64;
        proof {
            lemma_span_bound(n as int, 0, brick_margin as int, brick_size.x as int);
        }
        let width = n * brick_size.x + (n - 1) * brick_margin;
        let margin_left = floor_half(disp_size.x - width);
        let half = Vec2 { x: floor_half(brick_size.x), y: floor_half(brick_size.y) };
        let mut bricks: Vec<Option<Brick>> = Vec::new();
        let mut count: usize = 0;
        let mut k: u32 = 0;
        while k < row
            invariant
                k <= row <= GRID_LIMIT,
                n == row,
                layout_ok(Vec2 { x: brick_margin, y: 0 }, brick_size, disp_size),
                -COORD_LIMIT <= pos_y <= COORD_LIMIT,
                width == n * brick_size.x + (n - 1) * brick_margin,
                margin_left == (disp_size.x - width) / 2,
                half == (Vec2 { x: (brick_size.x / 2) as i64, y: (brick_size.y / 2) as i64 }),
                0 <= width <= 2 * GRID_LIMIT * LAYOUT_LIMIT,
                forall|x: u32, y: u32, p: Vec2, s: Vec2| spawn_f.requires((x, y, p, s)),
                bricks@.len() == k,
                count == live_count(bricks@),
                cells_wf(bricks@),
                forall|j: int|
                    0 <= j < k ==> placed(
                        #[trigger] bricks@[j],
                        *spawn_f,
                        j,
                        column as int,
                        Vec2 {
                            x: cell_x(
                                row as int,
                                j,
                                brick_margin as int,
                                brick_size.x as int,
                                disp_size.x as int,
                            ) as i64,
                            y: pos_y,
                        },
                        brick_size,
                    ),
            decreases row - k,
        {
            proof {
                lemma_span_bound(n as int, k as int, brick_margin as int, brick_size.x as int);
                lemma_live_count_bound(bricks@);
            }
            let x = brick_margin * (k as i64) + margin_left + brick_size.x * (k as i64) + half.x;
            let pos = Vec2 { x, y: pos_y };
            let t = spawn_f(k, column, pos, brick_size);
            let cell = match t {
                Some(t) => Some(Brick::spawn(t.feature, pos, brick_size, t.color)),
                None => None,
            };
            assert(template_of(cell) == t);
            let ghost prev = bricks@;
            bricks.push(cell);
            assert(bricks@.drop_last() =~= prev);
            if cell.is_some() {
                count = count + 1;
            }
            k = k + 1;
        }
        BrickRow { bricks, count }
    }
}

/// Every cell of the grid `g`, of `rows` rows of `cols` cells, is what the
/// factory returned for it, placed by the layout.
pub open spec fn grid_placed<F: Fn(u32, u32, Vec2, Vec2) -> Option<BrickTemplate>>(
    g: Seq<Seq<Option<Brick>>>,
    f: F,
    rows: int,
    cols: int,
    margin_top: int,
    margin: Vec2,
    size: Vec2,
    disp: Vec2,
) -> bool {
    &&& g.len() == rows
    &&& forall|i: int| 0 <= i < rows ==> (#[trigger] g[i]).len() == cols
    &&& forall|i: int, j: int|
        0 <= i < rows && 0 <= j < cols ==> placed(
            #[trigger] g[i][j],
            f,
            j,
            i,
            Vec2 {
                x: cell_x(cols, j, margin.x as int, size.x as int, disp.x as int) as i64,
                y: row_y(rows, i, margin.y as int, size.y as int, margin_top, disp.y as int) as i64,
            },
            size,
        )
}

impl BrickColumn {
    /// Lays out `column` rows of `row` cells, bottom row first, with the top
    /// row `margin_top` below the top of the arena, each row centred.
    pub fn spawn<F: Fn(u32, u32, Vec2, Vec2) -> Option<BrickTemplate>>(
        column: u32,
        row: u32,
        margin_top: i64,
        brick_margin: Vec2,
        brick_size: Vec2,
        disp_size: Vec2,
        spawn_f: &F,
    ) -> (r: BrickColumn)
        requires
            1 <= column <= GRID_LIMIT,
            1 <= row <= GRID_LIMIT,
            0 <= margin_top <= LAYOUT_LIMIT,
            layout_ok(brick_margin, brick_size, disp_size),
            forall|x: u32, y: u32, p: Vec2, s: Vec2| spawn_f.requires((x, y, p, s)),
        ensures
            r.wf(),
            grid_placed(
                r@,
                *spawn_f,
                column as int,
                row as int,
                margin_top as int,
                brick_margin,
                brick_size,
                disp_size,
            ),
    {
        let n = column as i64;
        proof {
            lemma_span_bound(n as int, 0, brick_margin.y as int, brick_size.y as int);
        }
        let height = n * brick_size.y + (n - 1) * brick_margin.y;
        let y_pos = disp_size.y - (margin_top + height);
        let half_y = floor_half(brick_size.y);
        let mut bricks: Vec<BrickRow> = Vec::new();
        let mut count: usize = 0;
        let mut k: u32 = 0;
        while k < column
            invariant
                k <= column <= GRID_LIMIT,
                1 <= row <= GRID_LIMIT,
                n == column,
                0 <= margin_top <= LAYOUT_LIMIT,
                layout_ok(brick_margin, brick_size, disp_size),
                height == n * brick_size.y + (n - 1) * brick_margin.y,
                0 <= height <= 2 * GRID_LIMIT * LAYOUT_LIMIT,
                y_pos == disp_size.y - (margin_top + height),
                half_y == brick_size.y / 2,
                forall|x: u32, y: u32, p: Vec2, s: Vec2| spawn_f.requires((x, y, p, s)),
                bricks@.len() == k,
                count == grid_live_count(bricks@.map_values(|r: BrickRow| r@)),
                count <= k * GRID_LIMIT,
                forall|i: int| 0 <= i < k ==> (#[trigger] bricks@[i]).wf(),
                forall|i: int| 0 <= i < k ==> (#[trigger] bricks@[i])@.len() == row,
                forall|i: int, j: int|
                    0 <= i < k && 0 <= j < row ==> placed(
                        #[trigger] bricks@[i]@[j],
                        *spawn_f,
                        j,
                        i,
                        Vec2 {
                            x: cell_x(
                                row as int,
                                j,
                                brick_margin.x as int,
                                brick_size.x as int,
                                disp_size.x as int,
                            ) as i64,
                            y: row_y(
                                column as int,
                                i,
                                brick_margin.y as int,
                                brick_size.y as int,
                                margin_top as int,
                                disp_size.y as int,
                            ) as i64,
                        },
                        brick_size,
                    ),
            decreases column - k,
        {
            proof {
                lemma_span_bound(n as int, k as int, brick_margin.y as int, brick_size.y as int);
            }
            let y = brick_margin.y * (k as i64) + brick_size.y * (k as i64) + y_pos + half_y;
            let r = BrickRow::spawn(row, k, y, brick_margin.x, brick_size, disp_size, spawn_f);
            let c = r.count();
            let ghost prev = bricks@;
            bricks.push(r);
            proof {
                let v = bricks@.map_values(|r: BrickRow| r@);
                assert(v.drop_last() =~= prev.map_values(|r: BrickRow| r@));
            }
            count = count + c;
            k = k + 1;
        }
        let r = BrickColumn { bricks, count };
        assert forall|i: int| 0 <= i < r@.len() implies (#[trigger] r@[i]) == r.bricks@[i]@ by {}
        r
    }
}

/// The parameters of a grid: `column` rows of `row` bricks of size
/// `brick_size`, separated by `brick_margin`, the top row `margin_top` below
/// the top of the arena, each cell decided by `spawn_f`.
pub struct BrickSpawnParam<F: Fn(u32, u32, Vec2, Vec2) -> Option<BrickTemplate>> {
    pub column: u32,
    pub row: u32,
    pub margin_top: i64,
    pub brick_margin: Vec2,
    pub brick_size: Vec2,
    pub spawn_f: F,
}

impl<F: Fn(u32, u32, Vec2, Vec2) -> Option<BrickTemplate>> BrickSpawnParam<F> {
    /// The counts are at least one and the layout is within its bounds.
    pub open spec fn wf(&self, disp_size: Vec2) -> bool {
        &&& 1 <= self.column <= GRID_LIMIT
        &&& 1 <= self.row <= GRID_LIMIT
        &&& 0 <= self.margin_top <= LAYOUT_LIMIT
        &&& layout_ok(self.brick_margin, self.brick_size, disp_size)
        &&& forall|x: u32, y: u32, p: Vec2, s: Vec2| self.spawn_f.requires((x, y, p, s))
    }

    /// The grid that these parameters lay out in an arena of `disp_size`.
    pub open spec fn lays_out(&self, g: Seq<Seq<Option<Brick>>>, disp_size: Vec2) -> bool {
        grid_placed(
            g,
            self.spawn_f,
            self.column as int,
            self.row as int,
            self.margin_top as int,
            self.brick_margin,
            self.brick_size,
            disp_size,
        )
    }
}

/// The grid of a round.
pub struct BrickCollection(BrickColumn);

impl View for BrickCollection {
    type V = Seq<Seq<Option<Brick>>>;

    closed spec fn view(&self) -> Seq<Seq<Option<Brick>>> {
        self.0@
    }
}

impl BrickCollection {
    pub closed spec fn wf(&self) -> bool {
        self.0.wf()
    }

    /// Builds the grid that `param` describes in an arena of `disp_size`.
    pub fn spawn<F: Fn(u32, u32, Vec2, Vec2) -> Option<BrickTemplate>>(
        disp_size: Vec2,
        param: BrickSpawnParam<F>,
    ) -> (r: Self)
        requires
            param.wf(disp_size),
        ensures
            r.wf(),
            param.lays_out(r@, disp_size),
    {
        BrickCollection(
            BrickColumn::spawn(
                param.column,
                param.row,
                param.margin_top,
                param.brick_margin,
                param.brick_size,
                disp_size,
                &param.spawn_f,
            ),
        )
    }

    pub fn get(&self) -> (r: &BrickColumn)
        requires
            self.wf(),
        ensures
            r.wf(),
            r@ == self@,
    {
        &self.0
    }

    pub fn get_mut(&mut self) -> (r: &mut BrickColumn)
        requires
            old(self).wf(),
        ensures
            r.wf(),
            r@ == old(self)@,
            final(self)@ == final(r)@,
            final(r).wf() ==> final(self).wf(),
    {
        &mut self.0
    }
}

/// The models of the live bricks among `cells`, in order.
pub open spec fn row_models(cells: Seq<Option<Brick>>) -> Seq<Instance>
    decreases cells.len(),
{
    if cells.len() == 0 {
        Seq::empty()
    } else {
        row_models(cells.drop_last()) + match cells.last() {
            Some(b) => seq![b.model],
            None => Seq::empty(),
        }
    }
}

/// The models of the live bricks of the grid, row by row.
pub open spec fn grid_models(rows: Seq<Seq<Option<Brick>>>) -> Seq<Instance>
    decreases rows.len(),
{
    if rows.len() == 0 {
        Seq::empty()
    } else {
        grid_models(rows.drop_last()) + row_models(rows.last())
    }
}

impl BrickRow {
    /// Appends the models of the live bricks, in order.
    pub fn as_instance(&self, instances: &mut Vec<Instance>)
        ensures
            final(instances)@ == old(instances)@ + row_models(self@),
    {
        let n = self.bricks.len();
        let mut i: usize = 0;
        while i < n
            invariant
                i <= n == self.bricks@.len(),
                instances@ == old(instances)@ + row_models(self@.take(i as int)),
            decreases n - i,
        {
            assert(self@.take(i + 1).drop_last() =~= self@.take(i as int));
            match self.bricks[i] {
                Some(b) => {
                    instances.push(b.model);
                },
                None => {},
            }
            assert(instances@ =~= old(instances)@ + row_models(self@.take(i + 1)));
            i = i + 1;
        }
        assert(self@.take(n as int) =~= self@);
    }
}

impl BrickColumn {
    /// Appends the models of the live bricks, row by row.
    pub fn as_instance(&self, instances: &mut Vec<Instance>)
        ensures
            final(instances)@ == old(instances)@ + grid_models(self@),
    {
        let n = self.bricks.len();
        let mut i: usize = 0;
        while i < n
            invariant
                i <= n == self.bricks@.len(),
                instances@ == old(instances)@ + grid_models(self@.take(i as int)),
            decreases n - i,
        {
            assert(self@.take(i + 1).drop_last() =~= self@.take(i as int));
            assert(self@[i as int] == self.bricks@[i as int]@);
            self.bricks[i].as_instance(instances);
            assert(instances@ =~= old(instances)@ + grid_models(self@.take(i + 1)));
            i = i + 1;
        }
        assert(self@.take(n as int) =~= self@);
    }
}

impl BrickCollection {
    /// Appends the models of the live bricks, row by row.
    pub fn as_instance(&self, instances: &mut Vec<Instance>)
        ensures
            final(instances)@ == old(instances)@ + grid_models(self@),
    {
        self.0.as_instance(instances)
    }
}

} // verus!
