//! The paddle.

use vstd::prelude::*;
use crate::ball::Ball;
use crate::collision::{leaves_left, leaves_up, leaves_vertically, pushed_out, can_clear};
use crate::fixed::{clamp, clamp_to, half, travel, travel_of, COORD_LIMIT, PIXEL, UNIT};
use crate::input::Input;
use crate::rect::Rect;
use crate::render::{Color, DrawCommand};
use crate::vec2::{lemma_normalized, lemma_sign_keeps_length, lemma_unit_components, Vec2};
use crate::viewport::{Viewport, PLAYER_WIDTH};

verus! {

/// The height of the paddle.
pub const PLAYER_HEIGHT: i64 = 40 * PIXEL;

/// The speed of the paddle, in pixels per second.
pub const PLAYER_SPEED: u16 = 700;

/// The lives with which a game starts.
pub const PLAYER_LIVES: u8 = 3;

/// How far above the bottom of the play area the top of the paddle is.
pub const PLAYER_ALTITUDE: i64 = 100 * PIXEL;

/// The paddle and the lives that the player has left.
#[derive(Clone, Copy, Debug, PartialEq, Eq, Structural)]
pub struct Player {
    pub rect: Rect,
    pub lives: u8,
}

/// By how much the paddle turns a ball that strikes it from above or below
/// sideways: half the `x` of the unit vector from the centre of the ball to
/// the centre of the paddle. It is taken off the `x` of the ball's
/// direction, so the ball is turned away from the middle of the paddle.
pub open spec fn steer(ball: Rect, paddle: Rect) -> int {
    (Vec2 {
        x: (paddle.center2_x() - ball.center2_x()) as i64,
        y: (paddle.center2_y() - ball.center2_y()) as i64,
    }).normalized().x as int / 2
}

/// The direction of a ball after the paddle has turned it away. A ball that
/// leaves along `y` is steered and its direction normalized.
pub open spec fn paddle_deflected(v: Vec2, ball: Rect, paddle: Rect) -> Vec2 {
    if leaves_vertically(ball, paddle) {
        let turned = v.with_y_sign(leaves_up(ball, paddle));
        (Vec2 { x: (turned.x - steer(ball, paddle)) as i64, y: turned.y }).normalized()
    } else {
        v.with_x_sign(leaves_left(ball, paddle))
    }
}

/// A ball that the paddle has turned away moves in a direction of unit
/// length.
pub proof fn lemma_paddle_deflected_unit(v: Vec2, ball: Rect, paddle: Rect)
    requires
        v.is_unit(),
        ball.wf(),
        paddle.wf(),
    ensures
        paddle_deflected(v, ball, paddle).is_unit(),
{
    lemma_unit_components(v);
    lemma_sign_keeps_length(v, leaves_up(ball, paddle));
    lemma_sign_keeps_length(v, leaves_left(ball, paddle));
    let toward = Vec2 {
        x: (paddle.center2_x() - ball.center2_x()) as i64,
        y: (paddle.center2_y() - ball.center2_y()) as i64,
    };
    lemma_normalized(toward);
    let turned = v.with_y_sign(leaves_up(ball, paddle));
    lemma_normalized(Vec2 { x: (turned.x - steer(ball, paddle)) as i64, y: turned.y });
}

impl Player {
    /// The paddle at the start of a game: in the middle of the play area,
    /// with all its lives.
    pub open spec fn spec_new(view: Viewport) -> Player {
        Player {
            rect: Rect {
                x: (view.width / 2 - PLAYER_WIDTH / 2) as i64,
                y: (view.height - PLAYER_ALTITUDE) as i64,
                w: PLAYER_WIDTH,
                h: PLAYER_HEIGHT,
            },
            lives: PLAYER_LIVES,
        }
    }

    /// The paddle has the size of a paddle and lies within the play area,
    /// at its height above the bottom.
    pub open spec fn wf(self, view: Viewport) -> bool {
        &&& self.rect.w == PLAYER_WIDTH
        &&& self.rect.h == PLAYER_HEIGHT
        &&& 0 <= self.rect.x <= view.width - PLAYER_WIDTH
        &&& self.rect.y == view.height - PLAYER_ALTITUDE
    }

    /// The way that the controls ask the paddle to go, as the `x` of a
    /// direction.
    pub open spec fn heading(input: Input) -> int {
        (if input.move_right { UNIT as int } else { 0 }) - (if input.move_left { UNIT as int } else { 0 })
    }

    /// The paddle after `dt` microseconds under the given controls: it has
    /// moved sideways, and no further than the edges of the play area.
    pub open spec fn moved(self, dt: int, input: Input, view: Viewport) -> Player {
        Player {
            rect: Rect {
                x: clamp(
                    self.rect.x + travel(Player::heading(input), dt, PLAYER_SPEED as int),
                    0,
                    view.width - PLAYER_WIDTH,
                ) as i64,
                ..self.rect
            },
            ..self
        }
    }

    /// What shows the paddle: a dark grey rectangle.
    pub open spec fn shown(self) -> DrawCommand {
        DrawCommand::FilledRect { rect: self.rect, color: Color::DarkGray }
    }

    /// Tells whether the paddle is well-formed in the play area `view`.
    pub fn is_valid(&self, view: &Viewport) -> (ok: bool)
        ensures
            ok == self.wf(*view),
    {
        self.rect.w == PLAYER_WIDTH && self.rect.h == PLAYER_HEIGHT && 0 <= self.rect.x
            && (self.rect.x as i128) <= (view.width as i128) - (PLAYER_WIDTH as i128)
            && (self.rect.y as i128) == (view.height as i128) - (PLAYER_ALTITUDE as i128)
    }

    /// The paddle at the start of a game.
    pub fn new(view: &Viewport) -> (player: Player)
        requires
            view.wf(),
        ensures
            player == Player::spec_new(*view),
            player.wf(*view),
            player.rect.wf(),
    {
        Player {
            rect: Rect::new(
                view.width / 2 - PLAYER_WIDTH / 2,
                view.height - PLAYER_ALTITUDE,
                PLAYER_WIDTH,
                PLAYER_HEIGHT,
            ),
            lives: PLAYER_LIVES,
        }
    }

    /// Moves the paddle for `dt_us` microseconds as the controls ask, and
    /// keeps it within the play area.
    pub fn update(&mut self, dt_us: u32, input: &Input, view: &Viewport)
        requires
            old(self).rect.wf(),
            view.wf(),
        ensures
            *final(self) == old(self).moved(dt_us as int, *input, *view),
            0 <= final(self).rect.x <= view.width - PLAYER_WIDTH,
            final(self).rect.wf(),
            old(self).wf(*view) ==> final(self).wf(*view),
    {
        let mut x_move: i64 = 0;
        if input.move_right {
            x_move += UNIT;
        }
        if input.move_left {
            x_move += -UNIT;
        }
        let x: i64 = self.rect.x + travel_of(x_move, dt_us, PLAYER_SPEED);
        self.rect.x = clamp_to(x, 0, view.width - PLAYER_WIDTH);
    }

    /// The rectangle that shows the paddle.
    pub fn draw(&self) -> (cmd: DrawCommand)
        ensures
            cmd == self.shown(),
    {
        DrawCommand::FilledRect { rect: self.rect, color: Color::DarkGray }
    }

    /// Moves `ball` out of the paddle where the two overlap and turns it
    /// away, steering it by where it struck. Tells whether they overlapped.
    /// The paddle does not change.
    pub fn resolve_collision(&mut self, ball: &mut Ball) -> (hit: bool)
        requires
            old(self).rect.wf(),
            old(ball).wf(),
        ensures
            *final(self) == *old(self),
            hit == old(ball).rect.overlaps(old(self).rect),
            !hit ==> *final(ball) == *old(ball),
            hit ==> final(ball).rect == pushed_out(old(ball).rect, old(self).rect),
            hit ==> final(ball).vel == paddle_deflected(
                old(ball).vel,
                old(ball).rect,
                old(self).rect,
            ),
            final(ball).wf(),
            hit && can_clear(old(ball).rect, old(self).rect) ==> !final(ball).rect.overlaps(
                old(self).rect,
            ),
    {
        let overlap = match self.rect.intersect(&ball.rect) {
            Some(overlap) => overlap,
            None => {
                return false;
            },
        };
        proof {
            lemma_unit_components(ball.vel);
        }
        let toward_x: i64 = (2 * self.rect.x + self.rect.w) - (2 * ball.rect.x + ball.rect.w);
        let toward_y: i64 = (2 * self.rect.y + self.rect.h) - (2 * ball.rect.y + ball.rect.h);
        if overlap.w > overlap.h {
            let up: bool = toward_y >= 0;
            let to: i64 = if up { ball.rect.y - overlap.h } else { ball.rect.y + overlap.h };
            ball.rect.y = clamp_to(to, -COORD_LIMIT, COORD_LIMIT);
            let turned = ball.vel.point_y(up);
            let toward = Vec2 { x: toward_x, y: toward_y };
            let unit = toward.normalize();
            let steered = Vec2 { x: turned.x - half(unit.x), y: turned.y };
            ball.vel = steered.normalize();
        } else {
            let left: bool = toward_x >= 0;
            let to: i64 = if left { ball.rect.x - overlap.w } else { ball.rect.x + overlap.w };
            ball.rect.x = clamp_to(to, -COORD_LIMIT, COORD_LIMIT);
            ball.vel = ball.vel.point_x(left);
        }
        true
    }
}

} // verus!
