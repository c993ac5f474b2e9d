//! The play area.

use vstd::prelude::*;
use crate::fixed::{COORD_LIMIT, PIXEL};

verus! {

/// The width of the paddle.
pub const PLAYER_WIDTH: i64 = 150 * PIXEL;

/// The size of the play area, which has its origin in the top-left corner.
#[derive(Clone, Copy, Debug, PartialEq, Eq, Structural)]
pub struct Viewport {
    pub width: i64,
    pub height: i64,
}

impl Viewport {
    /// The area is wide enough for the paddle, and no side is longer than
    /// [`COORD_LIMIT`].
    pub open spec fn wf(self) -> bool {
        &&& PLAYER_WIDTH <= self.width <= COORD_LIMIT
        &&& 0 <= self.height <= COORD_LIMIT
    }

    /// Tells whether the play area is well-formed.
    pub fn is_valid(&self) -> (ok: bool)
        ensures
            ok == self.wf(),
    {
        PLAYER_WIDTH <= self.width && self.width <= COORD_LIMIT && 0 <= self.height && self.height
            <= COORD_LIMIT
    }

    /// A play area of the given size, or `None` where the paddle would not
    /// fit in or a side is too long.
    pub fn new(width: i64, height: i64) -> (r: Option<Viewport>)
        ensures
            r is Some <==> (Viewport { width, height }).wf(),
            r matches Some(view) ==> view.width == width && view.height == height,
    {
        let view = Viewport { width, height };
        if view.is_valid() {
            Some(view)
        } else {
            None
        }
    }
}

} // verus!
