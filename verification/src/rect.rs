//! Axis-aligned rectangles.

use vstd::prelude::*;
use vstd::math::{max, min};
use crate::fixed::COORD_LIMIT;
use crate::vec2::Vec2;

verus! {

/// An axis-aligned box: its top-left corner, its width and its height.
#[derive(Clone, Copy, Debug, PartialEq, Eq, Structural)]
pub struct Rect {
    pub x: i64,
    pub y: i64,
    pub w: i64,
    pub h: i64,
}

impl Rect {
    /// The corner lies within [`COORD_LIMIT`] of the origin, and the extents
    /// are between zero and [`COORD_LIMIT`].
    pub open spec fn wf(self) -> bool {
        &&& -COORD_LIMIT <= self.x <= COORD_LIMIT
        &&& -COORD_LIMIT <= self.y <= COORD_LIMIT
        &&& 0 <= self.w <= COORD_LIMIT
        &&& 0 <= self.h <= COORD_LIMIT
    }

    /// The `x` of the right edge.
    pub open spec fn right(self) -> int {
        self.x + self.w
    }

    /// The `y` of the bottom edge.
    pub open spec fn bottom(self) -> int {
        self.y + self.h
    }

    /// Twice the `x` of the centre, which is `x + w / 2`.
    pub open spec fn center2_x(self) -> int {
        2 * self.x + self.w
    }

    /// Twice the `y` of the centre, which is `y + h / 2`.
    pub open spec fn center2_y(self) -> int {
        2 * self.y + self.h
    }

    /// The centre, each coordinate rounded down.
    pub open spec fn spec_center(self) -> Vec2 {
        Vec2 { x: (self.x + self.w / 2) as i64, y: (self.y + self.h / 2) as i64 }
    }

    /// The width of what the two rectangles share; zero or less where they
    /// share nothing.
    pub open spec fn overlap_w(self, other: Rect) -> int {
        min(self.right(), other.right()) - max(self.x as int, other.x as int)
    }

    /// The height of what the two rectangles share; zero or less where they
    /// share nothing.
    pub open spec fn overlap_h(self, other: Rect) -> int {
        min(self.bottom(), other.bottom()) - max(self.y as int, other.y as int)
    }

    /// The two rectangles share an area. Rectangles that only touch do not.
    pub open spec fn overlaps(self, other: Rect) -> bool {
        self.overlap_w(other) > 0 && self.overlap_h(other) > 0
    }

    /// The rectangle that the two share, if they share an area.
    pub open spec fn intersection(self, other: Rect) -> Option<Rect> {
        if self.overlaps(other) {
            Some(
                Rect {
                    x: max(self.x as int, other.x as int) as i64,
                    y: max(self.y as int, other.y as int) as i64,
                    w: self.overlap_w(other) as i64,
                    h: self.overlap_h(other) as i64,
                },
            )
        } else {
            None
        }
    }

    /// The rectangle with the top-left corner at `x` and `y`, `w` wide and
    /// `h` tall.
    pub fn new(x: i64, y: i64, w: i64, h: i64) -> (r: Rect)
        ensures
            r == (Rect { x, y, w, h }),
    {
        Rect { x, y, w, h }
    }

    /// Tells whether the rectangle is well-formed.
    pub fn in_range(&self) -> (ok: bool)
        ensures
            ok == self.wf(),
    {
        -COORD_LIMIT <= self.x && self.x <= COORD_LIMIT && -COORD_LIMIT <= self.y && self.y
            <= COORD_LIMIT && 0 <= self.w && self.w <= COORD_LIMIT && 0 <= self.h && self.h
            <= COORD_LIMIT
    }

    /// The centre, each coordinate rounded down.
    pub fn center(&self) -> (c: Vec2)
        requires
            self.wf(),
        ensures
            c == self.spec_center(),
    {
        Vec2 { x: self.x + self.w / 2, y: self.y + self.h / 2 }
    }

    /// The rectangle that `self` and `other` share, or `None` where they
    /// share no area.
    pub fn intersect(&self, other: &Rect) -> (r: Option<Rect>)
        requires
            self.wf(),
            other.wf(),
        ensures
            r == self.intersection(*other),
            r matches Some(o) ==> o.wf() && 0 < o.w <= self.w && o.w <= other.w && 0 < o.h
                <= self.h && o.h <= other.h,
    {
        let left: i64 = if self.x >= other.x { self.x } else { other.x };
        let top: i64 = if self.y >= other.y { self.y } else { other.y };
        let right: i64 = if self.x + self.w <= other.x + other.w {
            self.x + self.w
        } else {
            other.x + other.w
        };
        let bottom: i64 = if self.y + self.h <= other.y + other.h {
            self.y + self.h
        } else {
            other.y + other.h
        };
        if right <= left || bottom <= top {
            return None;
        }
        Some(Rect { x: left, y: top, w: right - left, h: bottom - top })
    }
}

} // verus!
