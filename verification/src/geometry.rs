//! Axis-aligned rectangles and the overlap test with side-of-contact
//! classification that every other part of the simulation is built on.
//!
//! Executable rectangles carry `i64` fixed-point coordinates; their
//! mathematical view is [`RectShape`], a record of unbounded integers, and
//! every contract in the crate is stated over shapes.

use vstd::prelude::*;

verus! {

/// Number of coordinate subunits in one world unit. Positions, extents and
/// speeds are all held in subunits, so fractional world positions such as
/// two and a half units are exact integers (2500 subunits).
pub const SCALE: i64 = 1000;

/// Bound on the magnitude of coordinates and extents. Keeping every
/// rectangle inside this bound lets the overlap test double coordinates and
/// compare penetration depths without any risk of `i64` overflow.
pub const COORD_MAX: i64 = 0x4000_0000_0000;

/// An axis-aligned rectangle: center position `(x, y)` and full extents
/// `(w, h)`, all in subunits. Extents are positive.
#[derive(Clone, Copy, Debug, PartialEq, Eq, Structural)]
pub struct Rect {
    pub x: i64,
    pub y: i64,
    pub w: i64,
    pub h: i64,
}

/// The mathematical view of a [`Rect`]: the same center-and-extents record
/// over unbounded integers.
pub ghost struct RectShape {
    pub x: int,
    pub y: int,
    pub w: int,
    pub h: int,
}

impl View for Rect {
    type V = RectShape;

    open spec fn view(&self) -> RectShape {
        RectShape { x: self.x as int, y: self.y as int, w: self.w as int, h: self.h as int }
    }
}

/// The side of the second rectangle through which the first entered it, as
/// reported by [`overlap`]: `Left` means the first rectangle sticks out past
/// the second's left edge, and so on. `Inside` is overlap without a
/// directional side (one rectangle spans or contains the other on both axes).
#[derive(Clone, Copy, Debug, PartialEq, Eq, Structural)]
pub enum Side {
    Left,
    Right,
    Top,
    Bottom,
    Inside,
}

impl RectShape {
    /// Extents are positive and everything is within `COORD_MAX`.
    pub open spec fn wf(self) -> bool {
        &&& 0 < self.w <= COORD_MAX
        &&& 0 < self.h <= COORD_MAX
        &&& -COORD_MAX <= self.x <= COORD_MAX
        &&& -COORD_MAX <= self.y <= COORD_MAX
    }

    /// Left edge, doubled so that halved extents stay exact integers.
    pub open spec fn left2(self) -> int {
        2 * self.x - self.w
    }

    /// Right edge, doubled.
    pub open spec fn right2(self) -> int {
        2 * self.x + self.w
    }

    /// Bottom edge, doubled.
    pub open spec fn bottom2(self) -> int {
        2 * self.y - self.h
    }

    /// Top edge, doubled.
    pub open spec fn top2(self) -> int {
        2 * self.y + self.h
    }

    /// The same rectangle moved by `(dx, dy)`.
    pub open spec fn moved(self, dx: int, dy: int) -> RectShape {
        RectShape { x: self.x + dx, y: self.y + dy, ..self }
    }
}

/// The projections of `a` and `b` intersect with positive length on both
/// axes. Rectangles that merely touch along an edge do not overlap.
pub open spec fn overlaps(a: RectShape, b: RectShape) -> bool {
    &&& a.left2() < b.right2()
    &&& a.right2() > b.left2()
    &&& a.bottom2() < b.top2()
    &&& a.top2() > b.bottom2()
}

/// Horizontal entry side: `Left` when `a` sticks out past `b`'s left edge
/// (and not past its right), `Right` symmetrically, nothing when `a` spans
/// or is contained in `b`'s horizontal extent.
pub open spec fn x_side(a: RectShape, b: RectShape) -> Option<Side> {
    if a.left2() < b.left2() && a.right2() < b.right2() {
        Some(Side::Left)
    } else if a.left2() > b.left2() && a.right2() > b.right2() {
        Some(Side::Right)
    } else {
        None
    }
}

/// Vertical entry side: `Bottom` when `a` sticks out below `b`, `Top` when
/// above, nothing when `a` spans or is contained in `b`'s vertical extent.
pub open spec fn y_side(a: RectShape, b: RectShape) -> Option<Side> {
    if a.bottom2() < b.bottom2() && a.top2() < b.top2() {
        Some(Side::Bottom)
    } else if a.bottom2() > b.bottom2() && a.top2() > b.top2() {
        Some(Side::Top)
    } else {
        None
    }
}

/// Horizontal penetration depth (doubled), meaningful when `x_side` reports
/// a side: how far `a` reaches past the edge it entered through.
pub open spec fn x_depth2(a: RectShape, b: RectShape) -> int {
    if a.left2() < b.left2() {
        a.right2() - b.left2()
    } else {
        b.right2() - a.left2()
    }
}

/// Vertical penetration depth (doubled), meaningful when `y_side` reports a
/// side.
pub open spec fn y_depth2(a: RectShape, b: RectShape) -> int {
    if a.bottom2() < b.bottom2() {
        a.top2() - b.bottom2()
    } else {
        b.top2() - a.bottom2()
    }
}

/// What [`overlap`] returns: `None` without positive overlap on both axes;
/// otherwise the entry side on the axis of smaller penetration depth, ties
/// preferring the horizontal side, and `Inside` when neither axis has a
/// directional side.
pub open spec fn classify(a: RectShape, b: RectShape) -> Option<Side> {
    if !overlaps(a, b) {
        None
    } else {
        match (x_side(a, b), y_side(a, b)) {
            (Some(xs), Some(ys)) => if y_depth2(a, b) < x_depth2(a, b) {
                Some(ys)
            } else {
                Some(xs)
            },
            (Some(xs), None) => Some(xs),
            (None, Some(ys)) => Some(ys),
            (None, None) => Some(Side::Inside),
        }
    }
}

/// AABB overlap test with side-of-contact classification; the result is the
/// side of `b` through which `a` entered it.
pub fn overlap(a: &Rect, b: &Rect) -> (r: Option<Side>)
    requires
        a@.wf(),
        b@.wf(),
    ensures
        r == classify(a@, b@),
{
    let a_left: i64 = 2 * a.x - a.w;
    let a_right: i64 = 2 * a.x + a.w;
    let a_bottom: i64 = 2 * a.y - a.h;
    let a_top: i64 = 2 * a.y + a.h;
    let b_left: i64 = 2 * b.x - b.w;
    let b_right: i64 = 2 * b.x + b.w;
    let b_bottom: i64 = 2 * b.y - b.h;
    let b_top: i64 = 2 * b.y + b.h;

    if !(a_left < b_right && a_right > b_left && a_bottom < b_top && a_top > b_bottom) {
        return None;
    }

    let x_hit: Option<Side> = if a_left < b_left && a_right < b_right {
        Some(Side::Left)
    } else if a_left > b_left && a_right > b_right {
        Some(Side::Right)
    } else {
        None
    };
    let y_hit: Option<Side> = if a_bottom < b_bottom && a_top < b_top {
        Some(Side::Bottom)
    } else if a_bottom > b_bottom && a_top > b_top {
        Some(Side::Top)
    } else {
        None
    };

    match (x_hit, y_hit) {
        (Some(xs), Some(ys)) => {
            let x_depth: i64 = if a_left < b_left { a_right - b_left } else { b_right - a_left };
            let y_depth: i64 = if a_bottom < b_bottom {
                a_top - b_bottom
            } else {
                b_top - a_bottom
            };
            if y_depth < x_depth {
                Some(ys)
            } else {
                Some(xs)
            }
        },
        (Some(xs), None) => Some(xs),
        (None, Some(ys)) => Some(ys),
        (None, None) => Some(Side::Inside),
    }
}

/// Rectangles with zero overlap length on the horizontal or the vertical
/// axis are never classified as touching.
pub proof fn lemma_disjoint_axis_no_overlap(a: RectShape, b: RectShape)
    requires
        a.right2() <= b.left2() || b.right2() <= a.left2() || a.top2() <= b.bottom2() || b.top2()
            <= a.bottom2(),
    ensures
        classify(a, b) is None,
{
}

} // verus!
