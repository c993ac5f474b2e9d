//! The ball.

use vstd::prelude::*;
use crate::fixed::{
    abs, clamp, clamp_to, travel, travel_of, COORD_LIMIT, PIXEL, UNIT, UNIT_TOLERANCE,
};
use crate::random::gen_range;
use crate::rect::Rect;
use crate::render::{Color, DrawCommand};
use crate::vec2::{
    lemma_normalized, lemma_share_monotone, lemma_sign_keeps_length, lemma_unit_components,
    unit_share, Vec2,
};
use crate::viewport::Viewport;
use macroquad::rand::RandGenerator;

verus! {

/// The width and the height of a ball.
pub const BALL_SIZE: i64 = 40 * PIXEL;

/// The speed of a ball, in pixels per second.
pub const BALL_SPEED: u16 = 500;

/// A ball: where it is, and the direction in which it moves.
#[derive(Clone, Copy, Debug, PartialEq, Eq, Structural)]
pub struct Ball {
    pub rect: Rect,
    pub vel: Vec2,
}

impl Ball {
    /// The ball has the size of a ball, lies within the coordinate limit
    /// and moves in a direction of unit length.
    pub open spec fn wf(self) -> bool {
        &&& self.rect.wf()
        &&& self.rect.w == BALL_SIZE
        &&& self.rect.h == BALL_SIZE
        &&& self.vel.is_unit()
    }

    /// The ball that is set off at `pos`, heading downwards and sideways by
    /// `heading`, which is the `x` of its direction before the direction is
    /// normalized.
    pub open spec fn launched(pos: Vec2, heading: int) -> Ball {
        Ball {
            rect: Rect { x: pos.x, y: pos.y, w: BALL_SIZE, h: BALL_SIZE },
            vel: (Vec2 { x: heading as i64, y: UNIT }).normalized(),
        }
    }

    /// `self` is a ball set off at `pos` with some heading.
    pub open spec fn is_launched_at(self, pos: Vec2) -> bool {
        exists|heading: int| -UNIT <= heading <= UNIT && self == #[trigger] Ball::launched(pos, heading)
    }

    /// The ball after `dt` microseconds in a play area as wide as `view`:
    /// it has moved along its direction, no further than the coordinate
    /// limit, and where it has left the area on the left, on the right or
    /// at the top, its direction points back in.
    pub open spec fn moved(self, dt: int, view: Viewport) -> Ball {
        let x = clamp(
            self.rect.x + travel(self.vel.x as int, dt, BALL_SPEED as int),
            -COORD_LIMIT as int,
            COORD_LIMIT as int,
        );
        let y = clamp(
            self.rect.y + travel(self.vel.y as int, dt, BALL_SPEED as int),
            -COORD_LIMIT as int,
            COORD_LIMIT as int,
        );
        let turned = if x < 0 {
            self.vel.with_x_sign(false)
        } else if x > view.width - self.rect.w {
            self.vel.with_x_sign(true)
        } else {
            self.vel
        };
        Ball {
            rect: Rect { x: x as i64, y: y as i64, ..self.rect },
            vel: if y < 0 { turned.with_y_sign(false) } else { turned },
        }
    }

    /// What shows the ball: a yellow rectangle.
    pub open spec fn shown(self) -> DrawCommand {
        DrawCommand::FilledRect { rect: self.rect, color: Color::Yellow }
    }

    /// Tells whether the ball is well-formed.
    pub fn is_valid(&self) -> (ok: bool)
        ensures
            ok == self.wf(),
    {
        self.rect.in_range() && self.rect.w == BALL_SIZE && self.rect.h == BALL_SIZE
            && self.vel.has_unit_length()
    }

    /// Sets a ball off at `pos` with the given heading.
    pub fn launch(pos: Vec2, heading: i64) -> (ball: Ball)
        requires
            pos.in_reach(),
            -UNIT <= heading <= UNIT,
        ensures
            ball == Ball::launched(pos, heading as int),
            ball.is_launched_at(pos),
            ball.wf(),
            ball.vel.y > 0,
    {
        let aim = Vec2 { x: heading, y: UNIT };
        proof {
            lemma_normalized(aim);
            lemma_launch_descends(heading as int);
        }
        let ball = Ball {
            rect: Rect { x: pos.x, y: pos.y, w: BALL_SIZE, h: BALL_SIZE },
            vel: aim.normalize(),
        };
        assert(ball == Ball::launched(pos, heading as int));
        ball
    }

    /// Sets a ball off at `pos` with a heading drawn from `rng`.
    pub fn new(pos: Vec2, rng: &RandGenerator) -> (ball: Ball)
        requires
            pos.in_reach(),
        ensures
            ball.is_launched_at(pos),
            ball.wf(),
    {
        let heading: i32 = gen_range(rng, -1_000_000, 1_000_000);
        Ball::launch(pos, heading as i64)
    }

    /// Moves the ball for `dt_us` microseconds and turns it back at the
    /// left, right and top edges of the play area.
    pub fn update(&mut self, dt_us: u32, view: &Viewport)
        requires
            old(self).rect.wf(),
            old(self).vel.wf(),
        ensures
            *final(self) == old(self).moved(dt_us as int, *view),
            final(self).rect.wf(),
            final(self).vel.wf(),
            final(self).vel.norm2() == old(self).vel.norm2(),
            old(self).wf() ==> final(self).wf(),
    {
        let dx: i64 = travel_of(self.vel.x, dt_us, BALL_SPEED);
        let dy: i64 = travel_of(self.vel.y, dt_us, BALL_SPEED);
        self.rect.x = clamp_to(self.rect.x + dx, -COORD_LIMIT, COORD_LIMIT);
        self.rect.y = clamp_to(self.rect.y + dy, -COORD_LIMIT, COORD_LIMIT);
        if self.rect.x < 0 {
            self.vel = self.vel.point_x(false);
        } else if self.rect.x + self.rect.w > view.width {
            self.vel = self.vel.point_x(true);
        }
        if self.rect.y < 0 {
            self.vel = self.vel.point_y(false);
        }
    }

    /// The rectangle that shows the ball.
    pub fn draw(&self) -> (cmd: DrawCommand)
        ensures
            cmd == self.shown(),
    {
        DrawCommand::FilledRect { rect: self.rect, color: Color::Yellow }
    }
}

/// Every ball is well-formed.
pub open spec fn balls_wf(balls: Seq<Ball>) -> bool {
    forall|i: int| 0 <= i < balls.len() ==> (#[trigger] balls[i]).wf()
}

/// A ball that is set off moves downwards.
pub proof fn lemma_launch_descends(heading: int)
    requires
        -UNIT <= heading <= UNIT,
    ensures
        (Vec2 { x: heading as i64, y: UNIT }).normalized().y > 0,
{
    let v = Vec2 { x: heading as i64, y: UNIT };
    lemma_normalized(v);
    let n = v.normalized();
    // The share of `x` is at most that of `y`, so `y` cannot be zero in a
    // vector of unit length.
    if n.y <= 0 {
        assert(v.norm2() > 0) by (nonlinear_arith)
            requires
                v.norm2() == v.x * v.x + v.y * v.y,
                v.y == 1_000_000,
        ;
        lemma_share_monotone(abs(heading), UNIT as int, v.norm2());
        assert(n.y == unit_share(abs(v.y as int), v.norm2()));
        assert(unit_share(abs(v.x as int), v.norm2()) == 0);
        assert(n.x == 0);
        assert(n.norm2() == 0) by (nonlinear_arith)
            requires
                n.x == 0,
                n.y == 0,
                n.norm2() == n.x * n.x + n.y * n.y,
        ;
        assert((UNIT - UNIT_TOLERANCE) * (UNIT - UNIT_TOLERANCE) > 0) by (nonlinear_arith);
        assert(false);
    }
}

/// A ball that is set off is well-formed.
pub proof fn lemma_launched_wf(pos: Vec2, heading: int)
    requires
        pos.in_reach(),
        -UNIT <= heading <= UNIT,
    ensures
        Ball::launched(pos, heading).wf(),
{
    lemma_normalized(Vec2 { x: heading as i64, y: UNIT });
}

/// A well-formed ball is well-formed after it has moved.
pub proof fn lemma_moved_wf(ball: Ball, dt: int, view: Viewport)
    requires
        ball.wf(),
    ensures
        ball.moved(dt, view).wf(),
{
    lemma_unit_components(ball.vel);
    lemma_sign_keeps_length(ball.vel, false);
    lemma_sign_keeps_length(ball.vel, true);
    lemma_sign_keeps_length(ball.vel.with_x_sign(false), false);
    lemma_sign_keeps_length(ball.vel.with_x_sign(true), false);
}

} // verus!
