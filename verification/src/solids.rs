//! The static walls that enclose the arena.

use vstd::prelude::*;

use crate::geometry::{COORD_MAX, Rect, RectShape};

verus! {

/// A static collider: a wall rectangle that never moves.
#[derive(Clone, Copy, Debug, PartialEq, Eq, Structural)]
pub struct Collider {
    pub rect: Rect,
}

impl View for Collider {
    type V = RectShape;

    open spec fn view(&self) -> RectShape {
        self.rect@
    }
}

/// The shapes of a sequence of colliders, in order.
pub open spec fn rects_of(walls: Seq<Collider>) -> Seq<RectShape> {
    walls.map_values(|c: Collider| c@)
}

/// Every collider in the sequence is a well-formed rectangle.
pub open spec fn walls_wf(walls: Seq<Collider>) -> bool {
    forall|i: int| 0 <= i < walls.len() ==> (#[trigger] walls[i])@.wf()
}

/// The arena bounds that a wall set was built for: `create_walls` with
/// these half-extents and thickness yields exactly the four walls.
pub open spec fn wall_layout(half_w: int, half_h: int, t: int) -> Seq<RectShape> {
    seq![
        RectShape { x: -half_w - t, y: 0, w: t, h: 2 * half_h + 3 * t },
        RectShape { x: half_w + t, y: 0, w: t, h: 2 * half_h + 3 * t },
        RectShape { x: 0, y: half_h + t, w: 2 * half_w + 3 * t, h: t },
        RectShape { x: 0, y: -half_h - t, w: 2 * half_w + 3 * t, h: t },
    ]
}

/// Builds the four walls around an arena of half-extents
/// `(half_w, half_h)`: left, right, top, bottom, in that order. Each wall
/// is centered one thickness outside the corresponding edge and runs past
/// both adjacent edges by a margin, so the corners leave no gap.
pub fn create_walls(half_w: i64, half_h: i64, thickness: i64) -> (walls: Vec<Collider>)
    requires
        0 < half_w,
        0 < half_h,
        0 < thickness,
        2 * half_w + 3 * thickness <= COORD_MAX,
        2 * half_h + 3 * thickness <= COORD_MAX,
    ensures
        rects_of(walls@) == wall_layout(half_w as int, half_h as int, thickness as int),
        walls_wf(walls@),
{
    let side_h: i64 = 2 * half_h + 3 * thickness;
    let cap_w: i64 = 2 * half_w + 3 * thickness;
    let mut walls: Vec<Collider> = Vec::new();
    walls.push(Collider { rect: Rect { x: -half_w - thickness, y: 0, w: thickness, h: side_h } });
    walls.push(Collider { rect: Rect { x: half_w + thickness, y: 0, w: thickness, h: side_h } });
    walls.push(Collider { rect: Rect { x: 0, y: half_h + thickness, w: cap_w, h: thickness } });
    walls.push(Collider { rect: Rect { x: 0, y: -half_h - thickness, w: cap_w, h: thickness } });
    proof {
        assert(rects_of(walls@) =~= wall_layout(half_w as int, half_h as int, thickness as int));
    }
    walls
}

} // verus!
