//! Where the blocks stand at the start of a game.

use vstd::prelude::*;
use crate::block::{all_standing, blocks_wf, Block, BlockType, BLOCK_HEIGHT, BLOCK_WIDTH};
use crate::fixed::{half, PIXEL};
use crate::random::gen_range;
use macroquad::rand::RandGenerator;
use crate::rect::Rect;
use crate::vec2::Vec2;
use crate::viewport::Viewport;

verus! {

/// The gap between two blocks.
pub const BLOCK_PADDING: i64 = 5 * PIXEL;

/// The `y` of the top row of blocks.
pub const BOARD_TOP: i64 = 50 * PIXEL;

/// The sides of the die that decides the kind of a block.
pub const KIND_DIE: i32 = 3;

/// Why a grid of blocks cannot be laid out.
#[derive(Clone, Copy, Debug, PartialEq, Eq, Structural)]
pub enum LayoutError {
    /// The grid has no columns or no rows.
    EmptyGrid,
}

/// The `x` of the left column of a grid of `width` columns, which is
/// centred in the play area; rounded down.
pub open spec fn board_left(view: Viewport, width: int) -> int {
    (view.width - (BLOCK_WIDTH + BLOCK_PADDING) * width) / 2
}

/// The place of the cell that is the `index`-th of a grid of `width`
/// columns, counted row by row from the top left.
pub open spec fn cell_rect(view: Viewport, width: int, index: int) -> Rect {
    Rect {
        x: (board_left(view, width) + (index % width) * (BLOCK_WIDTH + BLOCK_PADDING)) as i64,
        y: (BOARD_TOP + (index / width) * (BLOCK_HEIGHT + BLOCK_PADDING)) as i64,
        w: BLOCK_WIDTH,
        h: BLOCK_HEIGHT,
    }
}

/// The hits that a block in the given row takes: three in the top row, two
/// in the next two rows, one below.
pub open spec fn row_lives(row: int) -> u8 {
    if row == 0 {
        3
    } else if row <= 2 {
        2
    } else {
        1
    }
}

/// The block of the `index`-th cell, of the kind that `roll` gives it.
pub open spec fn cell_block(view: Viewport, width: int, index: int, roll: int) -> Block {
    Block {
        rect: cell_rect(view, width, index),
        lives: row_lives(index / width),
        block_type: BlockType::of_roll(roll),
    }
}

/// `blocks` fill a grid of `width` columns and `height` rows, row by row,
/// each with the hits of its row. Their kinds are left to chance.
pub open spec fn is_layout(blocks: Seq<Block>, width: int, height: int, view: Viewport) -> bool {
    &&& blocks.len() == width * height
    &&& forall|i: int|
        0 <= i < blocks.len() ==> (#[trigger] blocks[i]).rect == cell_rect(view, width, i)
            && blocks[i].lives == row_lives(i / width)
}

/// The hits that a block in the given row takes.
pub fn lives_of_row(row: u32) -> (lives: u8)
    ensures
        lives == row_lives(row as int),
{
    if row == 0 {
        3
    } else if row <= 2 {
        2
    } else {
        1
    }
}

/// The cells of a grid lie in its rows and columns, and within reach.
proof fn lemma_cell_in_grid(width: int, height: int, index: int)
    by (nonlinear_arith)
    requires
        0 < width <= 0xffff,
        0 < height <= 0xffff,
        0 <= index < width * height,
    ensures
        0 <= index / width < height,
        0 <= index % width < width,
        width * height <= 0xffff * 0xffff,
{
}

/// Makes the block of the `index`-th cell of a grid of `width` columns, of
/// the kind that `roll` gives it.
pub fn block_at_cell(view: &Viewport, width: u16, index: u32, roll: i32) -> (block: Block)
    requires
        view.wf(),
        0 < width,
        index / (width as u32) < 0xffff,
    ensures
        block == cell_block(*view, width as int, index as int, roll as int),
        block.wf(),
{
    let pitch_x: i64 = BLOCK_WIDTH + BLOCK_PADDING;
    let pitch_y: i64 = BLOCK_HEIGHT + BLOCK_PADDING;
    let left: i64 = half(view.width - pitch_x * (width as i64));
    let column: u32 = index % (width as u32);
    let row: u32 = index / (width as u32);
    let pos = Vec2 { x: left + (column as i64) * pitch_x, y: BOARD_TOP + (row as i64) * pitch_y };
    let mut block = Block::new(pos, BlockType::from_roll(roll));
    block.lives = lives_of_row(row);
    block
}

/// Lays out a grid of `width` columns and `height` rows of blocks, centred
/// in the play area, and draws the kind of each block from `rng`.
pub fn generate(width: u16, height: u16, view: &Viewport, rng: &RandGenerator) -> (r: Result<
    Vec<Block>,
    LayoutError,
>)
    requires
        view.wf(),
    ensures
        r is Err <==> width == 0 || height == 0,
        r matches Err(e) ==> e == LayoutError::EmptyGrid,
        r matches Ok(blocks) ==> is_layout(blocks@, width as int, height as int, *view),
        r matches Ok(blocks) ==> blocks_wf(blocks@) && all_standing(blocks@),
{
    if width == 0 || height == 0 {
        return Err(LayoutError::EmptyGrid);
    }
    assert((width as u32) * (height as u32) <= 0xffff * 0xffff) by (nonlinear_arith)
        requires
            0 < width <= 0xffff,
            0 < height <= 0xffff,
    ;
    let total: u32 = (width as u32) * (height as u32);
    let mut blocks: Vec<Block> = Vec::new();
    let mut i: u32 = 0;
    while i < total
        invariant
            view.wf(),
            0 < width,
            0 < height,
            total == width * height,
            i <= total,
            blocks@.len() == i,
            forall|k: int|
                0 <= k < i ==> (#[trigger] blocks@[k]).rect == cell_rect(*view, width as int, k)
                    && blocks@[k].lives == row_lives(k / (width as int)) && blocks@[k].wf(),
        decreases total - i,
    {
        proof {
            lemma_cell_in_grid(width as int, height as int, i as int);
        }
        let roll: i32 = gen_range(rng, 0, KIND_DIE);
        let block = block_at_cell(view, width, i, roll);
        blocks.push(block);
        i += 1;
    }
    Ok(blocks)
}

} // verus!
