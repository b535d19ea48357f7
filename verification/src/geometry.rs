//! Integer coordinate model: design space, screen space, rectangles, and the
//! viewport transform between the two spaces.
//!
//! Design space is Y-up; screen space is Y-down. The viewport is a pure
//! translation plus the Y flip, so `to_screen` and `from_screen` are exact
//! inverses. All coordinates the tool stores are kept within
//! `[-COORD_LIMIT, COORD_LIMIT]`, which keeps every sum the tool computes far
//! away from `i64` overflow.

use vstd::prelude::*;

verus! {

/// Bound on stored design-space coordinates and viewport offsets.
pub const COORD_LIMIT: i64 = 0x4000_0000;

/// A coordinate a document point or viewport offset may hold.
pub open spec fn coord_ok(x: i64) -> bool {
    -COORD_LIMIT <= x <= COORD_LIMIT
}

/// A coordinate an incoming screen-space position may hold.
pub open spec fn screen_ok(x: i64) -> bool {
    -2 * (COORD_LIMIT as int) <= x <= 2 * (COORD_LIMIT as int)
}

/// A coordinate of a design-space point recovered through `from_screen`.
pub open spec fn loose_ok(x: i64) -> bool {
    -3 * (COORD_LIMIT as int) <= x <= 3 * (COORD_LIMIT as int)
}

/// Clamping used when moving document points: keeps them inside the
/// coordinate range however large the requested delta is.
pub open spec fn clamp_coord(x: int) -> int {
    if x < -(COORD_LIMIT as int) {
        -(COORD_LIMIT as int)
    } else if x > COORD_LIMIT as int {
        COORD_LIMIT as int
    } else {
        x
    }
}

/// A point in design space (the document's logical coordinates, Y-up).
#[derive(Clone, Copy, PartialEq, Eq, Structural, Debug)]
pub struct DPoint {
    pub x: i64,
    pub y: i64,
}

impl DPoint {
    pub open spec fn wf(self) -> bool {
        coord_ok(self.x) && coord_ok(self.y)
    }

    pub open spec fn loose_wf(self) -> bool {
        loose_ok(self.x) && loose_ok(self.y)
    }
}

/// A displacement in design space.
#[derive(Clone, Copy, PartialEq, Eq, Structural, Debug)]
pub struct DVec2 {
    pub x: i64,
    pub y: i64,
}

impl DVec2 {
    /// A delta the tool may hand to the document: small enough that adding it
    /// to an in-range coordinate stays far from overflow.
    pub open spec fn delta_ok(self) -> bool {
        &&& -8 * (COORD_LIMIT as int) <= self.x <= 8 * (COORD_LIMIT as int)
        &&& -8 * (COORD_LIMIT as int) <= self.y <= 8 * (COORD_LIMIT as int)
    }
}

/// A point in screen space (pixels, Y-down).
#[derive(Clone, Copy, PartialEq, Eq, Structural, Debug)]
pub struct SPoint {
    pub x: i64,
    pub y: i64,
}

impl SPoint {
    pub open spec fn wf(self) -> bool {
        screen_ok(self.x) && screen_ok(self.y)
    }
}

/// An axis-aligned screen-space rectangle with normalized corners.
#[derive(Clone, Copy, PartialEq, Eq, Structural, Debug)]
pub struct Rect {
    pub x0: i64,
    pub y0: i64,
    pub x1: i64,
    pub y1: i64,
}

impl Rect {
    pub open spec fn wf(self) -> bool {
        &&& self.x0 <= self.x1
        &&& self.y0 <= self.y1
        &&& screen_ok(self.x0) && screen_ok(self.x1)
        &&& screen_ok(self.y0) && screen_ok(self.y1)
    }

    /// Membership is inclusive on all four edges.
    pub open spec fn contains_spec(self, p: SPoint) -> bool {
        self.x0 <= p.x <= self.x1 && self.y0 <= p.y <= self.y1
    }

    /// The smallest rectangle holding both corner points, in any order.
    pub open spec fn from_points_spec(a: SPoint, b: SPoint) -> Rect {
        Rect {
            x0: if a.x <= b.x { a.x } else { b.x },
            y0: if a.y <= b.y { a.y } else { b.y },
            x1: if a.x <= b.x { b.x } else { a.x },
            y1: if a.y <= b.y { b.y } else { a.y },
        }
    }

    pub fn from_points(a: SPoint, b: SPoint) -> (r: Rect)
        requires
            a.wf(),
            b.wf(),
        ensures
            r == Rect::from_points_spec(a, b),
            r.wf(),
    {
        let (x0, x1) = if a.x <= b.x { (a.x, b.x) } else { (b.x, a.x) };
        let (y0, y1) = if a.y <= b.y { (a.y, b.y) } else { (b.y, a.y) };
        Rect { x0, y0, x1, y1 }
    }

    pub fn contains(&self, p: SPoint) -> (r: bool)
        ensures
            r == self.contains_spec(p),
    {
        self.x0 <= p.x && p.x <= self.x1 && self.y0 <= p.y && p.y <= self.y1
    }
}

/// The viewport transform: a translation plus the Y flip between design
/// space (Y-up) and screen space (Y-down).
#[derive(Clone, Copy, PartialEq, Eq, Structural, Debug)]
pub struct Viewport {
    pub offset_x: i64,
    pub offset_y: i64,
}

impl Viewport {
    pub open spec fn wf(self) -> bool {
        coord_ok(self.offset_x) && coord_ok(self.offset_y)
    }

    pub open spec fn to_screen_spec(self, d: DPoint) -> SPoint {
        SPoint { x: (d.x + self.offset_x) as i64, y: (self.offset_y - d.y) as i64 }
    }

    pub open spec fn from_screen_spec(self, s: SPoint) -> DPoint {
        DPoint { x: (s.x - self.offset_x) as i64, y: (self.offset_y - s.y) as i64 }
    }

    pub fn to_screen(&self, d: DPoint) -> (r: SPoint)
        requires
            self.wf(),
            d.wf(),
        ensures
            r == self.to_screen_spec(d),
            r.wf(),
    {
        SPoint { x: d.x + self.offset_x, y: self.offset_y - d.y }
    }

    pub fn from_screen(&self, s: SPoint) -> (r: DPoint)
        requires
            self.wf(),
            s.wf(),
        ensures
            r == self.from_screen_spec(s),
            r.loose_wf(),
    {
        DPoint { x: s.x - self.offset_x, y: self.offset_y - s.y }
    }
}

/// Adds a delta to a coordinate, clamping into the coordinate range.
pub fn clamp_add(a: i64, d: i64) -> (r: i64)
    requires
        coord_ok(a),
        -8 * (COORD_LIMIT as int) <= d <= 8 * (COORD_LIMIT as int),
    ensures
        r == clamp_coord(a + d),
        coord_ok(r),
{
    let s: i64 = a + d;
    if s < -COORD_LIMIT {
        -COORD_LIMIT
    } else if s > COORD_LIMIT {
        COORD_LIMIT
    } else {
        s
    }
}

} // verus!
