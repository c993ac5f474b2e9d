//! What the player does during one frame.

use vstd::prelude::*;

verus! {

/// The state of the controls during one frame.
#[derive(Clone, Copy, Debug, PartialEq, Eq, Structural)]
pub struct Input {
    /// The paddle is asked to move towards smaller `x`.
    pub move_left: bool,
    /// The paddle is asked to move towards larger `x`.
    pub move_right: bool,
    /// The launch control went down in this frame.
    pub launch_pressed: bool,
    /// The control that lays the blocks out anew went down in this frame.
    pub reset_pressed: bool,
}

impl Input {
    /// No control is in use.
    pub open spec fn is_idle(self) -> bool {
        !self.move_left && !self.move_right && !self.launch_pressed && !self.reset_pressed
    }

    /// The input of a frame in which the player does nothing.
    pub fn idle() -> (r: Input)
        ensures
            r.is_idle(),
    {
        Input { move_left: false, move_right: false, launch_pressed: false, reset_pressed: false }
    }
}

} // verus!
