//! The renderable record of an entity: centre, half-extents and colour.
use vstd::prelude::*;
use crate::geometry::{Vec2, within, COORD_LIMIT, SEG_LIMIT};

verus! {

/// A colour, one byte per channel.
#[derive(Clone, Copy, Debug, PartialEq, Eq, Structural)]
pub struct Rgba {
    pub r: u8,
    pub g: u8,
    pub b: u8,
    pub a: u8,
}

impl Rgba {
    pub fn new(r: u8, g: u8, b: u8, a: u8) -> (c: Rgba)
        ensures
            c == (Rgba { r, g, b, a }),
    {
        Rgba { r, g, b, a }
    }
}


/// A box centred at `position` whose half-extents are `half_size`; the
/// rotation of every entity of the game is zero.
#[derive(Clone, Copy, Debug, PartialEq, Eq, Structural)]
pub struct Instance {
    pub position: Vec2,
    pub half_size: Vec2,
    pub color: Rgba,
}

impl Instance {
    /// The centre and half-extents lie within the coordinate bound.
    pub open spec fn wf(self) -> bool {
        &&& within(self.position, COORD_LIMIT as int)
        &&& 0 <= self.half_size.x <= COORD_LIMIT
        &&& 0 <= self.half_size.y <= COORD_LIMIT
    }

    /// The boxes overlap on both axes; touching counts.
    pub open spec fn overlaps(self, o: Instance) -> bool {
        &&& self.position.x - self.half_size.x <= o.position.x + o.half_size.x
        &&& self.position.y - self.half_size.y <= o.position.y + o.half_size.y
        &&& o.position.x - o.half_size.x <= self.position.x + self.half_size.x
        &&& o.position.y - o.half_size.y <= self.position.y + self.half_size.y
    }

    /// Axis-aligned bounding-box test: true iff the boxes overlap on both
    /// axes, touching included.
    pub fn collision_aabb(&self, other: &Self) -> (r: bool)
        requires
            self.wf(),
            other.wf(),
        ensures
            r == self.overlaps(*other),
    {
        self.position.x - self.half_size.x <= other.position.x + other.half_size.x
            && self.position.y - self.half_size.y <= other.position.y + other.half_size.y
            && other.position.x - other.half_size.x <= self.position.x + self.half_size.x
            && other.position.y - other.half_size.y <= self.position.y + self.half_size.y
    }

    /// Start of edge `i` of the box: bottom, top, left, right in that order.
    pub open spec fn edge_start(self, i: int) -> Vec2 {
        let p = self.position;
        let h = self.half_size;
        if i == 1 {
            Vec2 { x: (p.x - h.x) as i64, y: (p.y + h.y) as i64 }
        } else if i == 3 {
            Vec2 { x: (p.x + h.x) as i64, y: (p.y - h.y) as i64 }
        } else {
            Vec2 { x: (p.x - h.x) as i64, y: (p.y - h.y) as i64 }
        }
    }

    /// End of edge `i` of the box.
    pub open spec fn edge_end(self, i: int) -> Vec2 {
        let p = self.position;
        let h = self.half_size;
        if i == 0 {
            Vec2 { x: (p.x + h.x) as i64, y: (p.y - h.y) as i64 }
        } else if i == 2 {
            Vec2 { x: (p.x - h.x) as i64, y: (p.y + h.y) as i64 }
        } else {
            Vec2 { x: (p.x + h.x) as i64, y: (p.y + h.y) as i64 }
        }
    }

    /// The four edges: bottom, top, left and right.
    pub fn edges(&self) -> (r: [[Vec2; 2]; 4])
        requires
            self.wf(),
        ensures
            forall|i: int|
                0 <= i < 4 ==> r[i][0] == self.edge_start(i) && r[i][1] == self.edge_end(i),
            forall|i: int|
                0 <= i < 4 ==> within(r[i][0], SEG_LIMIT as int) && within(
                    r[i][1],
                    SEG_LIMIT as int,
                ),
    {
        let p = self.position;
        let h = self.half_size;
        let bl = Vec2 { x: p.x - h.x, y: p.y - h.y };
        let br = Vec2 { x: p.x + h.x, y: p.y - h.y };
        let tl = Vec2 { x: p.x - h.x, y: p.y + h.y };
        let tr = Vec2 { x: p.x + h.x, y: p.y + h.y };
        [[bl, br], [tl, tr], [bl, tl], [br, tr]]
    }
}

} // verus!
