//! The game as a mathematical value, and what one frame makes of it.

use vstd::prelude::*;
use crate::ball::{balls_wf, Ball};
use crate::block::{all_standing, blocks_wf, Block};
use crate::collision::{deflected, pushed_out};
use crate::fixed::{clamp, COORD_LIMIT, PIXEL};
use crate::input::Input;
use crate::layout::is_layout;
use crate::player::{paddle_deflected, Player};
use crate::rect::Rect;
use crate::vec2::Vec2;
use crate::viewport::Viewport;

verus! {

/// How far above the bottom of the play area the line is below which a
/// ball is lost.
pub const FLOOR_MARGIN: i64 = 50 * PIXEL;

/// How far above the top of the paddle a ball is set off.
pub const LAUNCH_HEIGHT: i64 = 100 * PIXEL;

/// The columns of the grid of blocks.
pub const GRID_WIDTH: u16 = 6;

/// The rows of the grid of blocks.
pub const GRID_HEIGHT: u16 = 6;

/// Where the game stands.
#[derive(Clone, Copy, Debug, PartialEq, Eq, Structural)]
pub enum GameState {
    /// Nothing moves yet.
    Start,
    /// The game is on.
    Playing,
    /// Every block is destroyed.
    Win,
    /// The player has lost the last life.
    Dead,
}

/// A game: its state and everything in the play area.
pub struct Game {
    pub state: GameState,
    pub player: Player,
    pub balls: Seq<Ball>,
    pub blocks: Seq<Block>,
    pub viewport: Viewport,
}

/// What chance decides in one frame.
pub struct Chance {
    /// The blocks, where the frame lays them out anew.
    pub laid: Seq<Block>,
    /// The ball, where the player sets one off.
    pub launched: Ball,
    /// The balls that destroyed blocks leave behind.
    pub spawned: Seq<Ball>,
}

/// One ball on its way through the blocks.
pub struct Strike {
    pub ball: Ball,
    pub blocks: Seq<Block>,
    /// Where destroyed blocks leave balls behind.
    pub queued: Seq<Vec2>,
}

/// All balls on their way through a frame.
pub struct Sweep {
    pub balls: Seq<Ball>,
    pub blocks: Seq<Block>,
    /// Where destroyed blocks leave balls behind.
    pub queued: Seq<Vec2>,
}

/// Tells the balls that are still above the line below which a ball is lost.
pub open spec fn in_play(view: Viewport) -> spec_fn(Ball) -> bool {
    |ball: Ball| ball.rect.y < view.height - FLOOR_MARGIN
}

/// Tells the blocks that are not destroyed.
pub open spec fn standing() -> spec_fn(Block) -> bool {
    |block: Block| block.standing()
}

/// Where the block that a ball at `ball` has destroyed leaves a new ball:
/// below the middle of that ball, and no further than the coordinate limit.
pub open spec fn spawn_point(ball: Rect) -> Vec2 {
    Vec2 {
        x: clamp(ball.x + ball.w / 2, -COORD_LIMIT as int, COORD_LIMIT as int) as i64,
        y: clamp(ball.y + ball.h / 2 + ball.h / 2, -COORD_LIMIT as int, COORD_LIMIT as int) as i64,
    }
}

/// Each of `balls` is a ball set off at the point of the same index.
pub open spec fn launched_at_all(balls: Seq<Ball>, points: Seq<Vec2>) -> bool {
    &&& balls.len() == points.len()
    &&& forall|k: int| 0 <= k < balls.len() ==> (#[trigger] balls[k]).is_launched_at(points[k])
}

/// The ball after the paddle has sent it back, where the two overlap.
pub open spec fn off_paddle(ball: Ball, paddle: Rect) -> Ball {
    if ball.rect.overlaps(paddle) {
        Ball {
            rect: pushed_out(ball.rect, paddle),
            vel: paddle_deflected(ball.vel, ball.rect, paddle),
        }
    } else {
        ball
    }
}

/// The ball meets the block of index `j`: where the two overlap, the ball
/// is sent back, the block takes a hit, and a block that is destroyed and
/// leaves a ball behind has the place of that ball queued.
pub open spec fn strike_block(s: Strike, j: int) -> Strike {
    let block = s.blocks[j];
    if s.ball.rect.overlaps(block.rect) {
        let ball = Ball {
            rect: pushed_out(s.ball.rect, block.rect),
            vel: deflected(s.ball.vel, s.ball.rect, block.rect),
        };
        let hit = block.after_hit();
        Strike {
            ball,
            blocks: s.blocks.update(j, hit),
            queued: if hit.spawns() {
                s.queued.push(spawn_point(ball.rect))
            } else {
                s.queued
            },
        }
    } else {
        s
    }
}

/// The ball meets the first `n` blocks, one after the other.
pub open spec fn strike_blocks(s: Strike, n: nat) -> Strike
    decreases n,
{
    if n == 0 {
        s
    } else {
        strike_block(strike_blocks(s, (n - 1) as nat), n - 1)
    }
}

/// The turn of one ball: it moves, meets the paddle, then every block.
pub open spec fn ball_turn(
    ball: Ball,
    blocks: Seq<Block>,
    queued: Seq<Vec2>,
    paddle: Rect,
    dt: int,
    view: Viewport,
) -> Strike {
    strike_blocks(
        Strike { ball: off_paddle(ball.moved(dt, view), paddle), blocks, queued },
        blocks.len(),
    )
}

/// The first `n` balls take their turns, one after the other.
pub open spec fn sweep_balls(s: Sweep, paddle: Rect, dt: int, view: Viewport, n: nat) -> Sweep
    decreases n,
{
    if n == 0 {
        s
    } else {
        let before = sweep_balls(s, paddle, dt, view, (n - 1) as nat);
        let turn = ball_turn(before.balls[n - 1], before.blocks, before.queued, paddle, dt, view);
        Sweep {
            balls: before.balls.update(n - 1, turn.ball),
            blocks: turn.blocks,
            queued: turn.queued,
        }
    }
}

impl Game {
    /// Everything has its size and lies within the coordinate limit, the
    /// paddle lies within the play area, and every ball moves in a
    /// direction of unit length.
    pub open spec fn bodies_wf(self) -> bool {
        &&& self.viewport.wf()
        &&& self.player.wf(self.viewport)
        &&& balls_wf(self.balls)
        &&& blocks_wf(self.blocks)
    }

    /// What holds of a game between two frames: besides `bodies_wf`, no
    /// block is destroyed, and while the game is on or about to start the
    /// player has a life left, and while it is on there is a block left.
    pub open spec fn wf(self) -> bool {
        &&& self.bodies_wf()
        &&& all_standing(self.blocks)
        &&& self.state == GameState::Playing || self.state == GameState::Start
            ==> self.player.lives >= 1
        &&& self.state == GameState::Playing ==> self.blocks.len() >= 1
    }

    /// Where the player sets a ball off: above the middle of the paddle.
    pub open spec fn launch_point(self) -> Vec2 {
        Vec2 {
            x: (self.player.rect.x + self.player.rect.w / 2) as i64,
            y: (self.player.rect.y - LAUNCH_HEIGHT) as i64,
        }
    }

    /// The frame lays the blocks out anew: at the launch control while the
    /// game is not on, and at the other control while it is on and no ball
    /// is set off.
    pub open spec fn lays_out(self, input: Input) -> bool {
        if self.state == GameState::Playing {
            !input.launch_pressed && input.reset_pressed
        } else {
            input.launch_pressed
        }
    }

    /// The frame sets a ball off.
    pub open spec fn launches(self, input: Input) -> bool {
        self.state == GameState::Playing && input.launch_pressed
    }

    /// The game after the controls have had their say, before anything moves.
    pub open spec fn prepared(self, input: Input, chance: Chance) -> Game {
        match self.state {
            GameState::Playing => if input.launch_pressed {
                Game { balls: self.balls.push(chance.launched), ..self }
            } else if input.reset_pressed {
                Game { blocks: chance.laid, ..self }
            } else {
                self
            },
            GameState::Start => if input.launch_pressed {
                Game { state: GameState::Playing, blocks: chance.laid, ..self }
            } else {
                self
            },
            _ => if input.launch_pressed {
                Game {
                    state: GameState::Playing,
                    player: Player::spec_new(self.viewport),
                    balls: Seq::empty(),
                    blocks: chance.laid,
                    viewport: self.viewport,
                }
            } else {
                self
            },
        }
    }

    /// Every ball has taken its turn.
    pub open spec fn swept(self, dt: int) -> Sweep {
        sweep_balls(
            Sweep { balls: self.balls, blocks: self.blocks, queued: Seq::empty() },
            self.player.rect,
            dt,
            self.viewport,
            self.balls.len(),
        )
    }

    /// The game with the balls and blocks that a sweep has left.
    pub open spec fn with_sweep(self, sweep: Sweep) -> Game {
        Game { balls: sweep.balls, blocks: sweep.blocks, ..self }
    }

    /// The game without the balls that have fallen below the line. Losing
    /// the last ball costs a life, and the game is over without a life.
    pub open spec fn without_lost_balls(self) -> Game {
        let kept = self.balls.filter(in_play(self.viewport));
        let lives = if kept.len() != self.balls.len() && kept.len() == 0 && self.player.lives > 0 {
            (self.player.lives - 1) as u8
        } else {
            self.player.lives
        };
        Game {
            state: if lives < 1 { GameState::Dead } else { self.state },
            player: Player { lives, ..self.player },
            balls: kept,
            ..self
        }
    }

    /// The game is won once no block is left.
    pub open spec fn judged(self) -> Game {
        Game { state: if self.blocks.len() == 0 { GameState::Win } else { self.state }, ..self }
    }

    /// A frame of a game that is on, after the controls have had their say:
    /// the paddle moves, every ball takes its turn, the balls that
    /// destroyed blocks leave behind join the others, destroyed blocks and
    /// lost balls leave, and the game is judged.
    pub open spec fn played(self, dt: int, input: Input, spawned: Seq<Ball>) -> Game {
        let moved = Game { player: self.player.moved(dt, input, self.viewport), ..self };
        let sweep = moved.swept(dt);
        let grown = Game {
            balls: sweep.balls + spawned,
            blocks: sweep.blocks.filter(standing()),
            ..moved
        };
        grown.without_lost_balls().judged()
    }

    /// What chance may decide in a frame: where blocks are laid out, they
    /// fill the grid; where a ball is set off, it starts above the paddle;
    /// and while the game is on, one ball starts wherever a destroyed block
    /// leaves one behind.
    pub open spec fn chance_fits(self, dt: int, input: Input, chance: Chance) -> bool {
        &&& self.lays_out(input) ==> is_layout(
            chance.laid,
            GRID_WIDTH as int,
            GRID_HEIGHT as int,
            self.viewport,
        )
        &&& self.launches(input) ==> chance.launched.is_launched_at(self.launch_point())
        &&& self.state == GameState::Playing ==> launched_at_all(
            chance.spawned,
            Game {
                player: self.player.moved(dt, input, self.viewport),
                ..self.prepared(input, chance)
            }.swept(dt).queued,
        )
    }

    /// The game after a frame of `dt` microseconds under the given
    /// controls, where chance decides as `chance` says.
    pub open spec fn frame(self, dt: int, input: Input, chance: Chance) -> Game {
        if self.state == GameState::Playing {
            self.prepared(input, chance).played(dt, input, chance.spawned)
        } else {
            self.prepared(input, chance)
        }
    }

    /// A frame of `dt` microseconds under the given controls can make
    /// `next` of the game: it does so for something that chance may decide.
    pub open spec fn leads_to(self, dt: int, input: Input, next: Game) -> bool {
        exists|chance: Chance|
            self.chance_fits(dt, input, chance) && next == #[trigger] self.frame(dt, input, chance)
    }
}

} // verus!
