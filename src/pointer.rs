//! The aim pointer: where the ball's current path meets the paddle.
use vstd::prelude::*;
use crate::geometry::Vec2;
use crate::instance::{Instance, Rgba};

verus! {

/// The aim pointer; recomputed every frame from the ball's path.
#[derive(Clone, Copy, Debug, PartialEq, Eq, Structural)]
pub struct Pointer {
    pub model: Instance,
    pub visible: bool,
}

impl Pointer {
    pub open spec fn wf(self) -> bool {
        self.model.wf()
    }

    /// A hidden red pointer of eight pixels at the origin.
    pub fn spawn() -> (r: Self)
        ensures
            r.wf(),
            !r.visible,
            r.model == (Instance {
                position: Vec2 { x: 0, y: 0 },
                half_size: Vec2 { x: 240, y: 240 },
                color: Rgba { r: 255, g: 0, b: 0, a: 255 },
            }),
    {
        Pointer {
            model: Instance {
                position: Vec2 { x: 0, y: 0 },
                half_size: Vec2 { x: 240, y: 240 },
                color: Rgba { r: 255, g: 0, b: 0, a: 255 },
            },
            visible: false,
        }
    }
}

} // verus!
