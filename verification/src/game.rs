//! The game itself: what it holds, and how a frame changes it.

use vstd::prelude::*;
use crate::ball::{balls_wf, Ball};
use crate::block::{all_standing, blocks_wf, Block};
use crate::fixed::{clamp_to, COORD_LIMIT};
use crate::input::Input;
use crate::layout::{generate, is_layout, LayoutError};
use crate::model::{
    in_play, launched_at_all, spawn_point, standing, strike_blocks, sweep_balls, Chance, Game,
    GameState, Strike, Sweep, FLOOR_MARGIN, GRID_HEIGHT, GRID_WIDTH, LAUNCH_HEIGHT,
};
use crate::player::Player;
use crate::rect::Rect;
use crate::render::DrawCommand;
use crate::vec2::{all_in_reach, lemma_unit_components, Vec2};
use crate::viewport::Viewport;
use macroquad::rand::RandGenerator;

verus! {

/// A game of breaking blocks with balls that a paddle keeps in play.
pub struct RustBreakout {
    pub state: GameState,
    pub player: Player,
    pub balls: Vec<Ball>,
    pub blocks: Vec<Block>,
    pub viewport: Viewport,
    /// Where the game draws what it leaves to chance.
    pub rng: RandGenerator,
}

impl View for RustBreakout {
    type V = Game;

    open spec fn view(&self) -> Game {
        Game {
            state: self.state,
            player: self.player,
            balls: self.balls@,
            blocks: self.blocks@,
            viewport: self.viewport,
        }
    }
}

impl RustBreakout {
    /// A game that has not started: the paddle in the middle, no ball and
    /// no block yet. The game draws from `rng` what it leaves to chance.
    pub fn new(viewport: Viewport, rng: RandGenerator) -> (game: RustBreakout)
        requires
            viewport.wf(),
        ensures
            game@ == (Game {
                state: GameState::Start,
                player: Player::spec_new(viewport),
                balls: Seq::empty(),
                blocks: Seq::empty(),
                viewport,
            }),
            game@.wf(),
    {
        let player = Player::new(&viewport);
        let balls: Vec<Ball> = Vec::new();
        let blocks: Vec<Block> = Vec::new();
        RustBreakout { player, balls, blocks, state: GameState::Start, viewport, rng }
    }

    /// Tells whether everything in the game is well-formed.
    pub fn bodies_valid(&self) -> (ok: bool)
        ensures
            ok == self@.bodies_wf(),
    {
        if !self.viewport.is_valid() || !self.player.is_valid(&self.viewport) {
            return false;
        }
        let mut i: usize = 0;
        while i < self.balls.len()
            invariant
                i <= self.balls@.len(),
                forall|k: int| 0 <= k < i ==> (#[trigger] self.balls@[k]).wf(),
            decreases self.balls@.len() - i,
        {
            if !self.balls[i].is_valid() {
                assert(!self@.balls[i as int].wf());
                return false;
            }
            i += 1;
        }
        let mut j: usize = 0;
        while j < self.blocks.len()
            invariant
                j <= self.blocks@.len(),
                forall|k: int| 0 <= k < j ==> (#[trigger] self.blocks@[k]).wf(),
            decreases self.blocks@.len() - j,
        {
            if !self.blocks[j].is_valid() {
                assert(!self@.blocks[j as int].wf());
                return false;
            }
            j += 1;
        }
        true
    }

    /// Tells whether the game is as a game is between two frames.
    pub fn is_valid(&self) -> (ok: bool)
        ensures
            ok == self@.wf(),
    {
        if !self.bodies_valid() {
            return false;
        }
        let mut j: usize = 0;
        while j < self.blocks.len()
            invariant
                j <= self.blocks@.len(),
                forall|k: int| 0 <= k < j ==> (#[trigger] self.blocks@[k]).standing(),
            decreases self.blocks@.len() - j,
        {
            if self.blocks[j].lives == 0 {
                assert(!self@.blocks[j as int].standing());
                return false;
            }
            j += 1;
        }
        match self.state {
            GameState::Playing => self.player.lives >= 1 && self.blocks.len() >= 1,
            GameState::Start => self.player.lives >= 1,
            _ => true,
        }
    }

    /// Replaces the blocks by a grid of `width` columns and `height` rows.
    /// A grid without columns or rows is refused, and the blocks stay.
    pub fn setup_blocks(&mut self, width: u16, height: u16) -> (r: Result<(), LayoutError>)
        requires
            old(self).viewport.wf(),
        ensures
            r is Err <==> width == 0 || height == 0,
            r matches Err(e) ==> e == LayoutError::EmptyGrid && final(self)@ == old(self)@,
            r is Ok ==> final(self)@ == (Game { blocks: final(self)@.blocks, ..old(self)@ }),
            r is Ok ==> is_layout(
                final(self)@.blocks,
                width as int,
                height as int,
                old(self).viewport,
            ),
            r is Ok ==> blocks_wf(final(self)@.blocks) && all_standing(final(self)@.blocks),
    {
        match generate(width, height, &self.viewport, &self.rng) {
            Ok(blocks) => {
                self.blocks = blocks;
                Ok(())
            },
            Err(e) => Err(e),
        }
    }

    /// Starts over: no ball, a new grid of blocks, the paddle in the middle
    /// with all its lives.
    pub fn reset_game(&mut self)
        requires
            old(self).viewport.wf(),
        ensures
            final(self)@ == (Game {
                state: GameState::Start,
                player: Player::spec_new(old(self).viewport),
                balls: Seq::empty(),
                blocks: final(self)@.blocks,
                viewport: old(self).viewport,
            }),
            is_layout(
                final(self)@.blocks,
                GRID_WIDTH as int,
                GRID_HEIGHT as int,
                old(self).viewport,
            ),
            final(self)@.wf(),
    {
        self.balls = Vec::new();
        let _ = self.setup_blocks(GRID_WIDTH, GRID_HEIGHT);
        self.player = Player::new(&self.viewport);
        self.state = GameState::Start;
    }

    /// Takes the destroyed blocks away.
    pub fn remove_destroyed_blocks(&mut self)
        ensures
            final(self)@ == (Game { blocks: old(self)@.blocks.filter(standing()), ..old(self)@ }),
            all_standing(final(self)@.blocks),
            blocks_wf(old(self)@.blocks) ==> blocks_wf(final(self)@.blocks),
    {
        let mut kept: Vec<Block> = Vec::new();
        let mut j: usize = 0;
        while j < self.blocks.len()
            invariant
                j <= self.blocks@.len(),
                kept@ == self.blocks@.subrange(0, j as int).filter(standing()),
                all_standing(kept@),
                blocks_wf(self.blocks@) ==> blocks_wf(kept@),
            decreases self.blocks@.len() - j,
        {
            let block = self.blocks[j];
            proof {
                let seen = self.blocks@.subrange(0, j as int);
                assert(self.blocks@.subrange(0, j + 1) == seen.push(block));
                seen.lemma_filter_push(block, standing());
            }
            if block.lives > 0 {
                kept.push(block);
            }
            j += 1;
        }
        assert(self.blocks@.subrange(0, j as int) == self.blocks@);
        self.blocks = kept;
    }

    /// Takes the balls away that have fallen below the line. Where that
    /// was the last ball, the player loses a life, and without a life the
    /// game is over.
    pub fn eliminate_balls(&mut self)
        ensures
            final(self)@ == old(self)@.without_lost_balls(),
            balls_wf(old(self)@.balls) ==> balls_wf(final(self)@.balls),
    {
        let balls_before_remove: usize = self.balls.len();
        let mut kept: Vec<Ball> = Vec::new();
        let mut i: usize = 0;
        while i < self.balls.len()
            invariant
                i <= self.balls@.len(),
                kept@ == self.balls@.subrange(0, i as int).filter(in_play(self.viewport)),
                balls_wf(self.balls@) ==> balls_wf(kept@),
            decreases self.balls@.len() - i,
        {
            let ball = self.balls[i];
            proof {
                let seen = self.balls@.subrange(0, i as int);
                assert(self.balls@.subrange(0, i + 1) == seen.push(ball));
                seen.lemma_filter_push(ball, in_play(self.viewport));
            }
            if (ball.rect.y as i128) < (self.viewport.height as i128) - (FLOOR_MARGIN as i128) {
                kept.push(ball);
            }
            i += 1;
        }
        assert(self.balls@.subrange(0, i as int) == self.balls@);
        self.balls = kept;
        let balls_after_remove: usize = self.balls.len();
        if balls_before_remove != balls_after_remove && balls_after_remove == 0
            && self.player.lives > 0 {
            self.player.lives -= 1;
        }
        if self.player.lives < 1 {
            self.state = GameState::Dead;
        }
    }

    /// Where the block that the ball at `ball` has destroyed leaves a ball.
    pub fn spawn_point_of(ball: &Rect) -> (point: Vec2)
        requires
            ball.wf(),
        ensures
            point == spawn_point(*ball),
            point.in_reach(),
    {
        let center = ball.center();
        Vec2 {
            x: clamp_to(center.x, -COORD_LIMIT, COORD_LIMIT),
            y: clamp_to(center.y + ball.h / 2, -COORD_LIMIT, COORD_LIMIT),
        }
    }

    /// Gives every ball its turn: the ball moves, is sent back by the
    /// paddle and by every block that it meets, and each block that it
    /// meets takes a hit. Returns where destroyed blocks leave balls behind.
    pub fn step_balls(&mut self, dt_us: u32) -> (queued: Vec<Vec2>)
        requires
            old(self)@.bodies_wf(),
        ensures
            final(self)@ == old(self)@.with_sweep(old(self)@.swept(dt_us as int)),
            queued@ == old(self)@.swept(dt_us as int).queued,
            final(self)@.bodies_wf(),
            all_in_reach(queued@),
    {
        let mut queued: Vec<Vec2> = Vec::new();
        let ghost start = Sweep { balls: self.balls@, blocks: self.blocks@, queued: Seq::empty() };
        let ghost paddle = self.player.rect;
        let ghost view = self.viewport;
        let ghost dt = dt_us as int;
        let mut i: usize = 0;
        while i < self.balls.len()
            invariant
                i <= self.balls@.len(),
                self.balls@.len() == start.balls.len(),
                self.state == old(self).state,
                self.player == old(self).player,
                self.viewport == old(self).viewport,
                paddle == self.player.rect,
                view == self.viewport,
                dt == dt_us as int,
                self.balls@ == sweep_balls(start, paddle, dt, view, i as nat).balls,
                self.blocks@ == sweep_balls(start, paddle, dt, view, i as nat).blocks,
                queued@ == sweep_balls(start, paddle, dt, view, i as nat).queued,
                self.viewport.wf(),
                self.player.wf(self.viewport),
                balls_wf(self.balls@),
                blocks_wf(self.blocks@),
                all_in_reach(queued@),
            decreases self.balls@.len() - i,
        {
            let mut ball: Ball = self.balls[i];
            proof {
                lemma_unit_components(ball.vel);
            }
            ball.update(dt_us, &self.viewport);
            self.player.resolve_collision(&mut ball);
            let ghost turn_start = Strike { ball, blocks: self.blocks@, queued: queued@ };
            let ghost balls_now = self.balls@;
            let mut j: usize = 0;
            while j < self.blocks.len()
                invariant
                    j <= self.blocks@.len(),
                    self.blocks@.len() == turn_start.blocks.len(),
                    self.balls@ == balls_now,
                    i < balls_now.len(),
                    balls_wf(balls_now),
                    self.state == old(self).state,
                    self.player == old(self).player,
                    self.viewport == old(self).viewport,
                    ball == strike_blocks(turn_start, j as nat).ball,
                    self.blocks@ == strike_blocks(turn_start, j as nat).blocks,
                    queued@ == strike_blocks(turn_start, j as nat).queued,
                    ball.wf(),
                    blocks_wf(self.blocks@),
                    all_in_reach(queued@),
                decreases self.blocks@.len() - j,
            {
                let mut block: Block = self.blocks[j];
                proof {
                    lemma_unit_components(ball.vel);
                }
                if RustBreakout::resolve_collision(&mut ball.rect, &mut ball.vel, &block.rect) {
                    block.take_hit();
                    if block.leaves_ball() {
                        queued.push(RustBreakout::spawn_point_of(&ball.rect));
                    }
                    self.blocks.set(j, block);
                }
                j += 1;
            }
            self.balls.set(i, ball);
            i += 1;
        }
        queued
    }

    /// Sets a ball off at each of the points, each with a heading drawn
    /// from the generator, and adds it to the balls.
    pub fn spawn_balls(&mut self, points: &Vec<Vec2>)
        requires
            all_in_reach(points@),
        ensures
            final(self)@ == (Game { balls: final(self)@.balls, ..old(self)@ }),
            final(self)@.balls.len() == old(self)@.balls.len() + points@.len(),
            final(self)@.balls.subrange(0, old(self)@.balls.len() as int) == old(self)@.balls,
            launched_at_all(
                final(self)@.balls.subrange(
                    old(self)@.balls.len() as int,
                    final(self)@.balls.len() as int,
                ),
                points@,
            ),
            balls_wf(old(self)@.balls) ==> balls_wf(final(self)@.balls),
    {
        let ghost before = self.balls@;
        let mut k: usize = 0;
        while k < points.len()
            invariant
                k <= points@.len(),
                self.state == old(self).state,
                self.player == old(self).player,
                self.viewport == old(self).viewport,
                self.blocks@ == old(self).blocks@,
                before == old(self).balls@,
                self.balls@.len() == before.len() + k,
                self.balls@.subrange(0, before.len() as int) == before,
                launched_at_all(
                    self.balls@.subrange(before.len() as int, self.balls@.len() as int),
                    points@.subrange(0, k as int),
                ),
                balls_wf(before) ==> balls_wf(self.balls@),
                all_in_reach(points@),
            decreases points@.len() - k,
        {
            let ball = Ball::new(points[k], &self.rng);
            let ghost grown = self.balls@;
            self.balls.push(ball);
            proof {
                let n = before.len() as int;
                assert(self.balls@.subrange(0, n) == grown.subrange(0, n));
                assert(self.balls@.subrange(n, self.balls@.len() as int) == grown.subrange(
                    n,
                    grown.len() as int,
                ).push(ball));
                assert(points@.subrange(0, k + 1) == points@.subrange(0, k as int).push(points@[k as int]));
            }
            k += 1;
        }
        assert(points@.subrange(0, k as int) == points@);
    }

    /// Sets a ball off above the middle of the paddle, with a heading drawn
    /// from the generator.
    pub fn launch_ball(&mut self)
        requires
            old(self)@.viewport.wf(),
            old(self)@.player.wf(old(self)@.viewport),
        ensures
            final(self)@ == (Game {
                balls: old(self)@.balls.push(final(self)@.balls.last()),
                ..old(self)@
            }),
            final(self)@.balls.last().is_launched_at(old(self)@.launch_point()),
            final(self)@.balls.last().wf(),
    {
        let ball = Ball::new(
            Vec2 {
                x: self.player.rect.x + self.player.rect.w / 2,
                y: self.player.rect.y - LAUNCH_HEIGHT,
            },
            &self.rng,
        );
        self.balls.push(ball);
    }

    /// One frame of a game that is on: the controls have their say, the
    /// paddle and the balls move, what collides is sent back or takes a
    /// hit, what is destroyed or lost leaves, and the game is judged.
    pub fn play_frame(&mut self, dt_us: u32, input: &Input)
        requires
            old(self)@.bodies_wf(),
            old(self).state == GameState::Playing,
        ensures
            old(self)@.leads_to(dt_us as int, *input, final(self)@),
            final(self)@.bodies_wf(),
            all_standing(final(self)@.blocks),
            old(self)@.wf() ==> final(self)@.wf(),
    {
        let ghost pre = self@;
        if input.launch_pressed {
            self.launch_ball();
        } else if input.reset_pressed {
            let _ = self.setup_blocks(GRID_WIDTH, GRID_HEIGHT);
        }
        let ghost prepared = self@;
        self.player.update(dt_us, input, &self.viewport);
        let ghost moved = self@;
        let queued = self.step_balls(dt_us);
        let ghost swept = self.balls@;
        self.spawn_balls(&queued);
        let ghost chance = Chance {
            laid: prepared.blocks,
            launched: if input.launch_pressed {
                prepared.balls.last()
            } else {
                arbitrary()
            },
            spawned: self.balls@.subrange(swept.len() as int, self.balls@.len() as int),
        };
        assert(prepared == pre.prepared(*input, chance));
        assert(self.balls@ == swept + chance.spawned);
        self.remove_destroyed_blocks();
        self.eliminate_balls();
        if self.blocks.is_empty() {
            self.state = GameState::Win;
        }
        assert(pre.chance_fits(dt_us as int, *input, chance));
        assert(self@ == pre.frame(dt_us as int, *input, chance));
    }

    /// One frame: `dt_us` microseconds pass under the given controls.
    /// Returns what the screen is to show of the game afterwards.
    ///
    /// While the game is not on, nothing moves, and the launch control
    /// starts a game: with a new grid of blocks and, after a game that was
    /// won or lost, without balls and with the paddle as new.
    ///
    /// A game that is as a game is between two frames is so again
    /// afterwards.
    pub fn handle_frame(&mut self, dt_us: u32, input: &Input) -> (cmds: Vec<DrawCommand>)
        requires
            old(self)@.bodies_wf(),
        ensures
            old(self)@.leads_to(dt_us as int, *input, final(self)@),
            cmds@ == final(self)@.scene(),
            final(self)@.bodies_wf(),
            old(self)@.wf() ==> final(self)@.wf(),
    {
        let ghost pre = self@;
        match self.state {
            GameState::Playing => {
                self.play_frame(dt_us, input);
            },
            GameState::Start => {
                if input.launch_pressed {
                    let _ = self.setup_blocks(GRID_WIDTH, GRID_HEIGHT);
                    self.state = GameState::Playing;
                }
                let ghost chance = Chance {
                    laid: self@.blocks,
                    launched: arbitrary(),
                    spawned: Seq::empty(),
                };
                assert(pre.chance_fits(dt_us as int, *input, chance));
                assert(self@ == pre.frame(dt_us as int, *input, chance));
            },
            _ => {
                if input.launch_pressed {
                    self.reset_game();
                    self.state = GameState::Playing;
                }
                let ghost chance = Chance {
                    laid: self@.blocks,
                    launched: arbitrary(),
                    spawned: Seq::empty(),
                };
                assert(pre.chance_fits(dt_us as int, *input, chance));
                assert(self@ == pre.frame(dt_us as int, *input, chance));
            },
        }
        self.render()
    }
}

} // verus!
