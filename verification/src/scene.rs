//! What the screen shows of a game.

use vstd::prelude::*;
use crate::ball::Ball;
use crate::block::Block;
use crate::fixed::{half, PIXEL};
use crate::game::RustBreakout;
use crate::model::{Game, GameState};
use crate::render::{Align, DrawCommand, Label};
use crate::viewport::Viewport;

verus! {

/// The size of all text.
pub const TEXT_SIZE: u16 = 30;

/// The `x` at which the number of lives is shown.
pub const LIVES_X: i64 = 10 * PIXEL;

/// The `y` at which the number of lives is shown.
pub const LIVES_Y: i64 = 50 * PIXEL;

/// The line that tells how many lives are left.
pub open spec fn lives_line(lives: u8) -> DrawCommand {
    DrawCommand::Text {
        label: Label::Lives(lives),
        x: LIVES_X,
        y: LIVES_Y,
        size: TEXT_SIZE,
        align: Align::Left,
    }
}

/// The line in the middle of the play area that tells where a game stands
/// that is not on.
pub open spec fn banner(state: GameState, view: Viewport) -> DrawCommand {
    DrawCommand::Text {
        label: match state {
            GameState::Win => Label::Won,
            GameState::Dead => Label::Lost,
            _ => Label::PressStart,
        },
        x: (view.width / 2) as i64,
        y: (view.height / 2) as i64,
        size: TEXT_SIZE,
        align: match state {
            GameState::Win => Align::Centered,
            GameState::Dead => Align::Centered,
            _ => Align::CenteredRaised,
        },
    }
}

/// What shows the balls, one after the other.
pub open spec fn balls_shown(balls: Seq<Ball>) -> Seq<DrawCommand> {
    Seq::new(balls.len(), |i: int| balls[i].shown())
}

/// What shows the blocks, one after the other.
pub open spec fn blocks_shown(blocks: Seq<Block>) -> Seq<DrawCommand> {
    Seq::new(blocks.len(), |i: int| blocks[i].shown())
}

impl Game {
    /// What the screen shows of the game. While the game is on: the blocks,
    /// over them the balls, then the paddle and the lives. Otherwise: the
    /// paddle, the lives, the balls, the blocks, and over all a line that
    /// tells where the game stands.
    pub open spec fn scene(self) -> Seq<DrawCommand> {
        if self.state == GameState::Playing {
            blocks_shown(self.blocks) + balls_shown(self.balls) + seq![
                self.player.shown(),
                lives_line(self.player.lives),
            ]
        } else {
            seq![self.player.shown(), lives_line(self.player.lives)] + balls_shown(self.balls)
                + blocks_shown(self.blocks) + seq![banner(self.state, self.viewport)]
        }
    }
}

impl RustBreakout {
    /// The line that tells how many lives are left.
    pub fn draw_lives(&self) -> (cmd: DrawCommand)
        ensures
            cmd == lives_line(self.player.lives),
    {
        DrawCommand::Text {
            label: Label::Lives(self.player.lives),
            x: LIVES_X,
            y: LIVES_Y,
            size: TEXT_SIZE,
            align: Align::Left,
        }
    }

    /// The line in the middle of the play area that tells where the game
    /// stands while it is not on.
    pub fn draw_banner(&self) -> (cmd: DrawCommand)
        ensures
            cmd == banner(self.state, self.viewport),
    {
        DrawCommand::Text {
            label: match self.state {
                GameState::Win => Label::Won,
                GameState::Dead => Label::Lost,
                _ => Label::PressStart,
            },
            x: half(self.viewport.width),
            y: half(self.viewport.height),
            size: TEXT_SIZE,
            align: match self.state {
                GameState::Win => Align::Centered,
                GameState::Dead => Align::Centered,
                _ => Align::CenteredRaised,
            },
        }
    }

    /// Adds what shows the balls to `cmds`.
    fn draw_balls(&self, cmds: &mut Vec<DrawCommand>)
        ensures
            final(cmds)@ == old(cmds)@ + balls_shown(self.balls@),
    {
        let mut i: usize = 0;
        while i < self.balls.len()
            invariant
                i <= self.balls@.len(),
                cmds@ == old(cmds)@ + balls_shown(self.balls@).subrange(0, i as int),
            decreases self.balls@.len() - i,
        {
            cmds.push(self.balls[i].draw());
            i += 1;
        }
    }

    /// Adds what shows the blocks to `cmds`.
    fn draw_blocks(&self, cmds: &mut Vec<DrawCommand>)
        ensures
            final(cmds)@ == old(cmds)@ + blocks_shown(self.blocks@),
    {
        let mut j: usize = 0;
        while j < self.blocks.len()
            invariant
                j <= self.blocks@.len(),
                cmds@ == old(cmds)@ + blocks_shown(self.blocks@).subrange(0, j as int),
            decreases self.blocks@.len() - j,
        {
            cmds.push(self.blocks[j].draw());
            j += 1;
        }
    }

    /// What the screen is to show of the game.
    pub fn render(&self) -> (cmds: Vec<DrawCommand>)
        ensures
            cmds@ == self@.scene(),
    {
        let mut cmds: Vec<DrawCommand> = Vec::new();
        match self.state {
            GameState::Playing => {
                self.draw_blocks(&mut cmds);
                self.draw_balls(&mut cmds);
                cmds.push(self.player.draw());
                cmds.push(self.draw_lives());
            },
            _ => {
                cmds.push(self.player.draw());
                cmds.push(self.draw_lives());
                self.draw_balls(&mut cmds);
                self.draw_blocks(&mut cmds);
                cmds.push(self.draw_banner());
            },
        }
        cmds
    }
}

} // verus!
