//! The blocks.

use vstd::prelude::*;
use crate::fixed::PIXEL;
use crate::rect::Rect;
use crate::render::{Color, DrawCommand};
use crate::vec2::Vec2;

verus! {

/// The width of a block.
pub const BLOCK_WIDTH: i64 = 100 * PIXEL;

/// The height of a block.
pub const BLOCK_HEIGHT: i64 = 40 * PIXEL;

/// The hits that the blocks of the top row take.
pub const MAX_BLOCK_LIVES: u8 = 3;

/// What becomes of a block when it is destroyed.
#[derive(Clone, Copy, Debug, PartialEq, Eq, Structural)]
pub enum BlockType {
    /// It disappears.
    Normal,
    /// It disappears and leaves a new ball behind.
    BallSpawner,
}

/// A block: where it is, how many hits it still takes, and its kind.
#[derive(Clone, Copy, Debug, PartialEq, Eq, Structural)]
pub struct Block {
    pub rect: Rect,
    pub lives: u8,
    pub block_type: BlockType,
}

impl BlockType {
    /// The kind that a roll of a three-sided die gives a block: one side
    /// makes it leave a ball behind.
    pub open spec fn of_roll(roll: int) -> BlockType {
        if roll == 0 {
            BlockType::BallSpawner
        } else {
            BlockType::Normal
        }
    }

    /// The kind that the roll `roll` of the die gives a block.
    pub fn from_roll(roll: i32) -> (kind: BlockType)
        ensures
            kind == BlockType::of_roll(roll as int),
    {
        if roll == 0 {
            BlockType::BallSpawner
        } else {
            BlockType::Normal
        }
    }
}

impl Block {
    /// The block has the size of a block, lies within the coordinate limit
    /// and takes no more than three hits.
    pub open spec fn wf(self) -> bool {
        &&& self.rect.wf()
        &&& self.rect.w == BLOCK_WIDTH
        &&& self.rect.h == BLOCK_HEIGHT
        &&& self.lives <= MAX_BLOCK_LIVES
    }

    /// The block is not destroyed yet.
    pub open spec fn standing(self) -> bool {
        self.lives > 0
    }

    /// What shows the block: a rectangle in the colour of its remaining hits.
    pub open spec fn shown(self) -> DrawCommand {
        DrawCommand::FilledRect { rect: self.rect, color: self.color() }
    }

    /// The block after a ball has hit it: it takes one hit fewer, and never
    /// fewer than none.
    pub open spec fn after_hit(self) -> Block {
        Block { lives: if self.lives > 0 { (self.lives - 1) as u8 } else { 0 }, ..self }
    }

    /// The block is destroyed and leaves a ball behind.
    pub open spec fn spawns(self) -> bool {
        self.lives == 0 && self.block_type == BlockType::BallSpawner
    }

    /// The colour in which the block is shown, which tells how many hits it
    /// still takes.
    pub open spec fn color(self) -> Color {
        if self.lives == 3 {
            Color::DarkBrown
        } else if self.lives == 2 {
            Color::Red
        } else {
            Color::Blue
        }
    }

    /// Tells whether the block is well-formed.
    pub fn is_valid(&self) -> (ok: bool)
        ensures
            ok == self.wf(),
    {
        self.rect.in_range() && self.rect.w == BLOCK_WIDTH && self.rect.h == BLOCK_HEIGHT
            && self.lives <= MAX_BLOCK_LIVES
    }

    /// A block at `pos` that takes one hit.
    pub fn new(pos: Vec2, block_type: BlockType) -> (block: Block)
        ensures
            block == (Block {
                rect: Rect { x: pos.x, y: pos.y, w: BLOCK_WIDTH, h: BLOCK_HEIGHT },
                lives: 1,
                block_type,
            }),
    {
        Block {
            rect: Rect { x: pos.x, y: pos.y, w: BLOCK_WIDTH, h: BLOCK_HEIGHT },
            lives: 1u8,
            block_type,
        }
    }

    /// Takes one hit off the block.
    pub fn take_hit(&mut self)
        ensures
            *final(self) == old(self).after_hit(),
            old(self).wf() ==> final(self).wf(),
    {
        if self.lives > 0 {
            self.lives -= 1;
        }
    }

    /// Tells whether the block is destroyed and leaves a ball behind.
    pub fn leaves_ball(&self) -> (r: bool)
        ensures
            r == self.spawns(),
    {
        self.lives == 0 && matches!(self.block_type, BlockType::BallSpawner)
    }

    /// The rectangle that shows the block.
    pub fn draw(&self) -> (cmd: DrawCommand)
        ensures
            cmd == self.shown(),
    {
        let color = match self.lives {
            3 => Color::DarkBrown,
            2 => Color::Red,
            _ => Color::Blue,
        };
        DrawCommand::FilledRect { rect: self.rect, color }
    }
}

/// Every block is well-formed.
pub open spec fn blocks_wf(blocks: Seq<Block>) -> bool {
    forall|j: int| 0 <= j < blocks.len() ==> (#[trigger] blocks[j]).wf()
}

/// No block is destroyed.
pub open spec fn all_standing(blocks: Seq<Block>) -> bool {
    forall|j: int| 0 <= j < blocks.len() ==> (#[trigger] blocks[j]).standing()
}

} // verus!
