//! What a frame asks the screen to show.

use vstd::prelude::*;
use crate::rect::Rect;

verus! {

/// The colours of the rectangles that show the game.
#[derive(Clone, Copy, Debug, PartialEq, Eq, Structural)]
pub enum Color {
    Yellow,
    DarkGray,
    DarkBrown,
    Red,
    Blue,
}

/// What a line of text says.
#[derive(Clone, Copy, Debug, PartialEq, Eq, Structural)]
pub enum Label {
    /// The number of lives that the player has left.
    Lives(u8),
    /// The invitation to start the game.
    PressStart,
    /// The player has destroyed every block.
    Won,
    /// The player has no lives left.
    Lost,
}

/// Where a line of text stands relative to its position.
#[derive(Clone, Copy, Debug, PartialEq, Eq, Structural)]
pub enum Align {
    /// The text starts at the position.
    Left,
    /// The text is centred on the `x` of the position.
    Centered,
    /// The text is centred on the `x` of the position and raised by half
    /// its height.
    CenteredRaised,
}

/// One thing to draw. Later commands are drawn over earlier ones.
#[derive(Clone, Copy, Debug, PartialEq, Eq, Structural)]
pub enum DrawCommand {
    FilledRect { rect: Rect, color: Color },
    Text { label: Label, x: i64, y: i64, size: u16, align: Align },
}

} // verus!
