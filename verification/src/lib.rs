//! A game of breaking blocks: a paddle keeps balls in play, the balls wear
//! the blocks down, and some blocks leave further balls behind.
//!
//! The library is the game without the screen and the keyboard. A
//! [`RustBreakout`] takes the time that has passed and the state of the
//! controls, frame by frame, and answers each frame with the list of things
//! to draw. All its numbers are whole: lengths are counted in thousandths
//! of a pixel, times in microseconds, and directions in millionths (see
//! [`fixed`]).
//!
//! What a frame does is written down twice: as a function on the
//! mathematical value of a game in [`model`], and as the code in [`game`]
//! that is proved to compute it.

pub mod ball;
pub mod block;
pub mod collision;
pub mod fixed;
pub mod game;
pub mod input;
pub mod laws;
pub mod layout;
pub mod model;
pub mod player;
pub mod random;
pub mod rect;
pub mod render;
pub mod scene;
pub mod sqrt;
pub mod vec2;
pub mod viewport;

pub use ball::Ball;
pub use block::{Block, BlockType, BLOCK_HEIGHT, BLOCK_WIDTH};
pub use game::RustBreakout;
pub use input::Input;
pub use model::GameState;
pub use player::Player;
pub use rect::Rect;
pub use render::DrawCommand;
pub use vec2::Vec2;
pub use viewport::Viewport;
