//! How a moving rectangle leaves a rectangle that it has run into.

use vstd::prelude::*;
use crate::fixed::{clamp, clamp_to, COORD_LIMIT};
use crate::game::RustBreakout;
use crate::rect::Rect;
use crate::vec2::{lemma_normalized, lemma_sign_keeps_length, Vec2};

verus! {

/// The overlap of `a` and `b` is wider than it is tall, so `a` leaves `b`
/// along `y`. Otherwise it leaves along `x`.
pub open spec fn leaves_vertically(a: Rect, b: Rect) -> bool {
    a.overlap_w(b) > a.overlap_h(b)
}

/// `a` leaves `b` towards smaller `x`: the centre of `b` is not left of the
/// centre of `a`.
pub open spec fn leaves_left(a: Rect, b: Rect) -> bool {
    b.center2_x() >= a.center2_x()
}

/// `a` leaves `b` towards smaller `y`: the centre of `b` is not above the
/// centre of `a`.
pub open spec fn leaves_up(a: Rect, b: Rect) -> bool {
    b.center2_y() >= a.center2_y()
}

/// Where `a` stands after it has left `b`: moved by the extent of the
/// overlap along one axis, away from the centre of `b`, and no further than
/// the coordinate limit.
pub open spec fn pushed_out(a: Rect, b: Rect) -> Rect {
    if leaves_vertically(a, b) {
        let to = if leaves_up(a, b) {
            a.y - a.overlap_h(b)
        } else {
            a.y + a.overlap_h(b)
        };
        Rect { y: clamp(to, -COORD_LIMIT as int, COORD_LIMIT as int) as i64, ..a }
    } else {
        let to = if leaves_left(a, b) {
            a.x - a.overlap_w(b)
        } else {
            a.x + a.overlap_w(b)
        };
        Rect { x: clamp(to, -COORD_LIMIT as int, COORD_LIMIT as int) as i64, ..a }
    }
}

/// The direction of `a` after it has left `b`: along the axis on which it
/// leaves, it points away from the centre of `b`. After leaving along `x`
/// the direction is normalized.
pub open spec fn deflected(v: Vec2, a: Rect, b: Rect) -> Vec2 {
    if leaves_vertically(a, b) {
        v.with_y_sign(leaves_up(a, b))
    } else {
        v.with_x_sign(leaves_left(a, b)).normalized()
    }
}

/// Along `x`, neither rectangle reaches beyond the other on both sides.
pub open spec fn staggered_x(a: Rect, b: Rect) -> bool {
    ||| a.x <= b.x && a.right() <= b.right()
    ||| a.x >= b.x && a.right() >= b.right()
}

/// Along `y`, neither rectangle reaches beyond the other on both sides.
pub open spec fn staggered_y(a: Rect, b: Rect) -> bool {
    ||| a.y <= b.y && a.bottom() <= b.bottom()
    ||| a.y >= b.y && a.bottom() >= b.bottom()
}

/// On the axis along which `a` leaves `b`, neither reaches beyond the other
/// on both sides, and `a` has room beside `b` within the coordinate limit.
pub open spec fn can_clear(a: Rect, b: Rect) -> bool {
    if leaves_vertically(a, b) {
        &&& staggered_y(a, b)
        &&& -COORD_LIMIT <= b.y - a.h
        &&& b.bottom() <= COORD_LIMIT
    } else {
        &&& staggered_x(a, b)
        &&& -COORD_LIMIT <= b.x - a.w
        &&& b.right() <= COORD_LIMIT
    }
}

/// A rectangle that has left another is as large as before and still
/// within the coordinate limit.
pub proof fn lemma_pushed_out_wf(a: Rect, b: Rect)
    requires
        a.wf(),
    ensures
        pushed_out(a, b).wf(),
        pushed_out(a, b).w == a.w,
        pushed_out(a, b).h == a.h,
{
}

/// A rectangle that has left another no longer overlaps it where, on the
/// axis along which it left, neither reached beyond the other on both
/// sides and there was room beside the other; and it still overlaps the
/// other where one did reach beyond the other on both sides.
pub proof fn lemma_pushed_out_clears(a: Rect, b: Rect)
    requires
        a.wf(),
        b.wf(),
        a.overlaps(b),
    ensures
        can_clear(a, b) ==> !pushed_out(a, b).overlaps(b),
        can_clear(a, b) && leaves_vertically(a, b) ==> pushed_out(a, b).overlap_h(b) == 0,
        can_clear(a, b) && !leaves_vertically(a, b) ==> pushed_out(a, b).overlap_w(b) == 0,
        leaves_vertically(a, b) && !staggered_y(a, b) ==> pushed_out(a, b).overlaps(b),
        !leaves_vertically(a, b) && !staggered_x(a, b) ==> pushed_out(a, b).overlaps(b),
{
}

/// A direction of unit length is of unit length after it was turned away.
pub proof fn lemma_deflected_unit(v: Vec2, a: Rect, b: Rect)
    requires
        v.wf(),
    ensures
        v.is_unit() ==> deflected(v, a, b).is_unit(),
        !leaves_vertically(a, b) ==> deflected(v, a, b).is_unit(),
        leaves_vertically(a, b) ==> deflected(v, a, b).norm2() == v.norm2(),
{
    lemma_sign_keeps_length(v, leaves_up(a, b));
    lemma_sign_keeps_length(v, leaves_left(a, b));
    lemma_normalized(v.with_x_sign(leaves_left(a, b)));
}

impl RustBreakout {
    /// Moves `a` out of `b` where the two overlap, and turns the direction `vel`
    /// of `a` away from `b`. Tells whether they overlapped. `b` does not move.
    pub fn resolve_collision(a: &mut Rect, vel: &mut Vec2, b: &Rect) -> (hit: bool)
        requires
            old(a).wf(),
            old(vel).wf(),
            b.wf(),
        ensures
            hit == old(a).overlaps(*b),
            !hit ==> *final(a) == *old(a) && *final(vel) == *old(vel),
            hit ==> *final(a) == pushed_out(*old(a), *b),
            hit ==> *final(vel) == deflected(*old(vel), *old(a), *b),
            final(a).wf(),
            final(vel).wf(),
            hit && can_clear(*old(a), *b) ==> !final(a).overlaps(*b),
            hit && can_clear(*old(a), *b) && leaves_vertically(*old(a), *b) ==> final(a).overlap_h(*b)
                == 0,
            hit && can_clear(*old(a), *b) && !leaves_vertically(*old(a), *b) ==> final(a).overlap_w(
                *b,
            ) == 0,
            hit && !leaves_vertically(*old(a), *b) ==> final(vel).is_unit(),
            hit && leaves_vertically(*old(a), *b) ==> final(vel).norm2() == old(vel).norm2(),
            old(vel).is_unit() ==> final(vel).is_unit(),
    {
        let overlap = match a.intersect(b) {
            Some(overlap) => overlap,
            None => {
                return false;
            },
        };
        if overlap.w > overlap.h {
            let up: bool = 2 * b.y + b.h >= 2 * a.y + a.h;
            let to: i64 = if up { a.y - overlap.h } else { a.y + overlap.h };
            a.y = clamp_to(to, -COORD_LIMIT, COORD_LIMIT);
            *vel = vel.point_y(up);
        } else {
            let left: bool = 2 * b.x + b.w >= 2 * a.x + a.w;
            let to: i64 = if left { a.x - overlap.w } else { a.x + overlap.w };
            a.x = clamp_to(to, -COORD_LIMIT, COORD_LIMIT);
            let turned = vel.point_x(left);
            *vel = turned.normalize();
        }
        true
    }
}

} // verus!
