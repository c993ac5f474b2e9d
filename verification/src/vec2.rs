//! Two-dimensional vectors of whole numbers: positions in length units and
//! directions in millionths.

use vstd::prelude::*;
use crate::fixed::{abs, magnitude, COORD_LIMIT, UNIT, UNIT_TOLERANCE, VEC_LIMIT};
use crate::sqrt::{is_sqrt_floor, isqrt, lemma_sqrt_floor, sqrt_floor};

verus! {

/// A point or a direction in the plane; `y` grows downwards.
#[derive(Clone, Copy, Debug, PartialEq, Eq, Structural)]
pub struct Vec2 {
    pub x: i64,
    pub y: i64,
}

/// The component of a unit vector that stands for the component of
/// magnitude `a` in a vector of squared length `norm2`, rounded down. The
/// length is taken with six more decimal places than the components have.
pub open spec fn unit_share(a: int, norm2: int) -> int {
    a * UNIT * UNIT / (sqrt_floor((norm2 * UNIT * UNIT) as nat) as int)
}

impl Vec2 {
    /// Both components are small enough for the vector to be normalized.
    pub open spec fn wf(self) -> bool {
        &&& -VEC_LIMIT <= self.x <= VEC_LIMIT
        &&& -VEC_LIMIT <= self.y <= VEC_LIMIT
    }

    /// As a point, the vector lies within the coordinate limit.
    pub open spec fn in_reach(self) -> bool {
        &&& -COORD_LIMIT <= self.x <= COORD_LIMIT
        &&& -COORD_LIMIT <= self.y <= COORD_LIMIT
    }

    /// The square of the vector's length.
    pub open spec fn norm2(self) -> int {
        self.x * self.x + self.y * self.y
    }

    /// The vector's length is [`UNIT`], give or take [`UNIT_TOLERANCE`].
    pub open spec fn is_unit(self) -> bool {
        &&& (UNIT - UNIT_TOLERANCE) * (UNIT - UNIT_TOLERANCE) <= self.norm2()
        &&& self.norm2() <= (UNIT + UNIT_TOLERANCE) * (UNIT + UNIT_TOLERANCE)
    }

    /// The unit vector that points where `self` points. The zero vector
    /// points nowhere: the unit vector along `y` stands for it.
    pub open spec fn normalized(self) -> Vec2 {
        if self.x == 0 && self.y == 0 {
            Vec2 { x: 0, y: UNIT }
        } else {
            let qx = unit_share(abs(self.x as int), self.norm2());
            let qy = unit_share(abs(self.y as int), self.norm2());
            Vec2 {
                x: (if self.x < 0 { -qx } else { qx }) as i64,
                y: (if self.y < 0 { -qy } else { qy }) as i64,
            }
        }
    }

    /// `self` with the sign of `x` chosen: negative where `negative` holds.
    pub open spec fn with_x_sign(self, negative: bool) -> Vec2 {
        Vec2 {
            x: (if negative { -abs(self.x as int) } else { abs(self.x as int) }) as i64,
            y: self.y,
        }
    }

    /// `self` with the sign of `y` chosen: negative where `negative` holds.
    pub open spec fn with_y_sign(self, negative: bool) -> Vec2 {
        Vec2 {
            x: self.x,
            y: (if negative { -abs(self.y as int) } else { abs(self.y as int) }) as i64,
        }
    }

    /// Tells whether the vector is a unit vector.
    pub fn has_unit_length(&self) -> (r: bool)
        ensures
            r == self.is_unit(),
    {
        if self.x < -(UNIT + UNIT_TOLERANCE) || self.x > UNIT + UNIT_TOLERANCE || self.y < -(UNIT
            + UNIT_TOLERANCE) || self.y > UNIT + UNIT_TOLERANCE {
            proof {
                if self.is_unit() {
                    lemma_unit_components(*self);
                }
            }
            return false;
        }
        let bound: i64 = UNIT + UNIT_TOLERANCE;
        assert(0 <= self.x * self.x <= bound * bound && 0 <= self.y * self.y <= bound * bound)
            by (nonlinear_arith)
            requires
                -bound <= self.x <= bound,
                -bound <= self.y <= bound,
        ;
        let norm2: i64 = self.x * self.x + self.y * self.y;
        (UNIT - UNIT_TOLERANCE) * (UNIT - UNIT_TOLERANCE) <= norm2 && norm2 <= (UNIT
            + UNIT_TOLERANCE) * (UNIT + UNIT_TOLERANCE)
    }

    /// Scales the vector to unit length.
    pub fn normalize(self) -> (r: Vec2)
        requires
            self.wf(),
        ensures
            r == self.normalized(),
            r.is_unit(),
            -UNIT <= r.x <= UNIT,
            -UNIT <= r.y <= UNIT,
    {
        proof {
            lemma_normalized(self);
        }
        if self.x == 0 && self.y == 0 {
            return Vec2 { x: 0, y: UNIT };
        }
        let a: u128 = magnitude(self.x) as u128;
        let b: u128 = magnitude(self.y) as u128;
        proof {
            lemma_scaled_norm_bounds(a as int, b as int);
        }
        let norm2: u128 = a * a + b * b;
        assert(norm2 == self.norm2()) by (nonlinear_arith)
            requires
                norm2 == a * a + b * b,
                a == abs(self.x as int),
                b == abs(self.y as int),
        ;
        let scaled: u128 = norm2 * 1_000_000 * 1_000_000;
        let len: u128 = isqrt(scaled) as u128;
        proof {
            lemma_scaled_length(a as int, b as int, len as int);
        }
        let qx: u128 = a * 1_000_000 * 1_000_000 / len;
        let qy: u128 = b * 1_000_000 * 1_000_000 / len;
        proof {
            lemma_share_bounds(a as int, 1_000_000, len as int, qx as int);
            lemma_share_bounds(b as int, 1_000_000, len as int, qy as int);
        }
        Vec2 {
            x: if self.x < 0 { -(qx as i64) } else { qx as i64 },
            y: if self.y < 0 { -(qy as i64) } else { qy as i64 },
        }
    }

    /// Flips `x` so that it is negative where `negative` holds, positive otherwise.
    pub fn point_x(self, negative: bool) -> (r: Vec2)
        requires
            self.wf(),
        ensures
            r == self.with_x_sign(negative),
            r.norm2() == self.norm2(),
            r.wf(),
    {
        let m: i64 = magnitude(self.x) as i64;
        assert(m * m == self.x * self.x) by (nonlinear_arith)
            requires
                m == abs(self.x as int),
        ;
        assert((-m) * (-m) == self.x * self.x) by (nonlinear_arith)
            requires
                m == abs(self.x as int),
        ;
        Vec2 { x: if negative { -m } else { m }, y: self.y }
    }

    /// Flips `y` so that it is negative where `negative` holds, positive otherwise.
    pub fn point_y(self, negative: bool) -> (r: Vec2)
        requires
            self.wf(),
        ensures
            r == self.with_y_sign(negative),
            r.norm2() == self.norm2(),
            r.wf(),
    {
        let m: i64 = magnitude(self.y) as i64;
        assert(m * m == self.y * self.y) by (nonlinear_arith)
            requires
                m == abs(self.y as int),
        ;
        assert((-m) * (-m) == self.y * self.y) by (nonlinear_arith)
            requires
                m == abs(self.y as int),
        ;
        Vec2 { x: self.x, y: if negative { -m } else { m } }
    }
}

/// Every point lies within the coordinate limit.
pub open spec fn all_in_reach(points: Seq<Vec2>) -> bool {
    forall|k: int| 0 <= k < points.len() ==> (#[trigger] points[k]).in_reach()
}

/// The sizes of the numbers that normalizing a vector with the component
/// magnitudes `a` and `b` goes through.
proof fn lemma_scaled_norm_bounds(a: int, b: int)
    by (nonlinear_arith)
    requires
        0 <= a <= VEC_LIMIT,
        0 <= b <= VEC_LIMIT,
    ensures
        0 <= a * a + b * b <= 2 * VEC_LIMIT * VEC_LIMIT,
        0 <= (a * a + b * b) * 1_000_000 <= 2 * VEC_LIMIT * VEC_LIMIT * 1_000_000,
        0 <= (a * a + b * b) * 1_000_000 * 1_000_000 <= 2 * VEC_LIMIT * VEC_LIMIT * 1_000_000
            * 1_000_000,
        2 * VEC_LIMIT * VEC_LIMIT * 1_000_000 * 1_000_000 < 0x8000_0000_0000_0000_0000_0000_0000_0000,
        0 <= a * 1_000_000 <= VEC_LIMIT * 1_000_000,
        0 <= a * 1_000_000 * 1_000_000 <= VEC_LIMIT * 1_000_000 * 1_000_000,
        0 <= b * 1_000_000 <= VEC_LIMIT * 1_000_000,
        0 <= b * 1_000_000 * 1_000_000 <= VEC_LIMIT * 1_000_000 * 1_000_000,
{
}

/// The scaled length of a vector that is not zero is at least [`UNIT`], and
/// no component, scaled, exceeds it.
proof fn lemma_scaled_length(a: int, b: int, len: int)
    by (nonlinear_arith)
    requires
        0 <= a,
        0 <= b,
        a + b > 0,
        0 <= len,
        len * len <= (a * a + b * b) * 1_000_000 * 1_000_000 < (len + 1) * (len + 1),
    ensures
        len >= 1_000_000,
        a * 1_000_000 <= len,
        b * 1_000_000 <= len,
{
    let s: int = 1_000_000;
    assert(a * a + b * b >= 1);
    assert((a * a + b * b) * s * s >= s * s);
    if len < s {
        assert((len + 1) * (len + 1) <= s * s);
    }
    assert((a * s) * (a * s) <= (a * a + b * b) * s * s);
    if a * s > len {
        assert((a * s) * (a * s) >= (len + 1) * (len + 1));
    }
    assert((b * s) * (b * s) <= (a * a + b * b) * s * s);
    if b * s > len {
        assert((b * s) * (b * s) >= (len + 1) * (len + 1));
    }
}

/// What rounding down leaves of a component: `q` is `a * s * s / len`.
proof fn lemma_share_bounds(a: int, s: int, len: int, q: int)
    by (nonlinear_arith)
    requires
        0 <= a,
        0 < s <= len,
        a * s <= len,
        q == a * s * s / len,
    ensures
        0 <= q <= s,
        q * len <= a * s * s < (q + 1) * len,
        a == 0 ==> q == 0,
{
    assert(a * s * s == len * (a * s * s / len) + (a * s * s) % len);
    assert(0 <= (a * s * s) % len < len);
    assert(a * s * s <= len * s);
    if q > s {
        assert(q * len >= (s + 1) * len);
    }
}

/// The squared length of the rounded components stays below the square of
/// `s + 1`.
proof fn lemma_unit_upper(a: int, b: int, s: int, len: int, qx: int, qy: int)
    requires
        0 <= a,
        0 <= b,
        0 < s <= len,
        (a * a + b * b) * s * s < (len + 1) * (len + 1),
        0 <= qx,
        0 <= qy,
        qx * len <= a * s * s,
        qy * len <= b * s * s,
    ensures
        qx * qx + qy * qy < (s + 1) * (s + 1),
{
    let big_a = a * s * s;
    let big_b = b * s * s;
    let x = qx * len;
    let y = qy * len;
    let m = (a * a + b * b) * s * s;
    let l1 = (len + 1) * (len + 1);
    let q = qx * qx + qy * qy;
    assert(0 <= x && 0 <= y) by (nonlinear_arith)
        requires
            0 <= qx,
            0 <= qy,
            0 < len,
            x == qx * len,
            y == qy * len,
    ;
    assert(x * x <= big_a * big_a) by (nonlinear_arith)
        requires
            0 <= x <= big_a,
    ;
    assert(y * y <= big_b * big_b) by (nonlinear_arith)
        requires
            0 <= y <= big_b,
    ;
    assert(big_a * big_a + big_b * big_b == (s * s) * m) by (nonlinear_arith)
        requires
            big_a == a * s * s,
            big_b == b * s * s,
            m == (a * a + b * b) * s * s,
    ;
    assert((s * s) * m < (s * s) * l1) by (nonlinear_arith)
        requires
            m < l1,
            s > 0,
    ;
    assert(q * (len * len) == x * x + y * y) by (nonlinear_arith)
        requires
            x == qx * len,
            y == qy * len,
            q == qx * qx + qy * qy,
    ;
    if q >= (s + 1) * (s + 1) {
        assert(q * (len * len) >= (s + 1) * (s + 1) * (len * len)) by (nonlinear_arith)
            requires
                q >= (s + 1) * (s + 1),
        ;
        assert((s + 1) * (s + 1) * (len * len) >= (s * s) * l1) by (nonlinear_arith)
            requires
                0 < s <= len,
                l1 == (len + 1) * (len + 1),
        {
            assert((s + 1) * len >= s * (len + 1));
            assert(((s + 1) * len) * ((s + 1) * len) >= (s * (len + 1)) * (s * (len + 1)));
        }
        assert(false);
    }
}

/// The squared length of the rounded components stays above the square of
/// `s`, less what rounding down can take.
proof fn lemma_unit_lower(a: int, b: int, s: int, len: int, qx: int, qy: int)
    requires
        0 <= a,
        0 <= b,
        0 < s <= len,
        len * len <= (a * a + b * b) * s * s,
        0 <= qx <= s,
        0 <= qy <= s,
        a * s * s < (qx + 1) * len,
        b * s * s < (qy + 1) * len,
    ensures
        s * s - 4 * s - 2 < qx * qx + qy * qy,
{
    let big_a = a * s * s;
    let big_b = b * s * s;
    let x = (qx + 1) * len;
    let y = (qy + 1) * len;
    let m = (a * a + b * b) * s * s;
    let q1 = (qx + 1) * (qx + 1) + (qy + 1) * (qy + 1);
    assert(0 <= big_a && 0 <= big_b) by (nonlinear_arith)
        requires
            0 <= a,
            0 <= b,
            0 < s,
            big_a == a * s * s,
            big_b == b * s * s,
    ;
    assert(x * x > big_a * big_a) by (nonlinear_arith)
        requires
            0 <= big_a < x,
    ;
    assert(y * y > big_b * big_b) by (nonlinear_arith)
        requires
            0 <= big_b < y,
    ;
    assert(big_a * big_a + big_b * big_b == (s * s) * m) by (nonlinear_arith)
        requires
            big_a == a * s * s,
            big_b == b * s * s,
            m == (a * a + b * b) * s * s,
    ;
    assert((s * s) * m >= (s * s) * (len * len)) by (nonlinear_arith)
        requires
            m >= len * len,
            s > 0,
    ;
    assert(q1 * (len * len) == x * x + y * y) by (nonlinear_arith)
        requires
            x == (qx + 1) * len,
            y == (qy + 1) * len,
            q1 == (qx + 1) * (qx + 1) + (qy + 1) * (qy + 1),
    ;
    if q1 <= s * s {
        assert(q1 * (len * len) <= (s * s) * (len * len)) by (nonlinear_arith)
            requires
                q1 <= s * s,
        ;
        assert(false);
    }
    assert(q1 == qx * qx + qy * qy + 2 * qx + 2 * qy + 2) by (nonlinear_arith)
        requires
            q1 == (qx + 1) * (qx + 1) + (qy + 1) * (qy + 1),
    ;
}

/// The components of a unit vector are no longer than the vector.
pub proof fn lemma_unit_components(v: Vec2)
    requires
        v.is_unit(),
    ensures
        -(UNIT + UNIT_TOLERANCE) <= v.x <= UNIT + UNIT_TOLERANCE,
        -(UNIT + UNIT_TOLERANCE) <= v.y <= UNIT + UNIT_TOLERANCE,
        v.wf(),
{
    let s: int = UNIT + UNIT_TOLERANCE;
    assert(abs(v.x as int) <= s && abs(v.y as int) <= s) by (nonlinear_arith)
        requires
            v.x * v.x + v.y * v.y <= s * s,
            s >= 0,
    {
        if abs(v.x as int) > s {
            assert(v.x * v.x >= (s + 1) * (s + 1));
            assert(v.y * v.y >= 0);
        }
        if abs(v.y as int) > s {
            assert(v.y * v.y >= (s + 1) * (s + 1));
            assert(v.x * v.x >= 0);
        }
    }
}

/// Choosing the sign of a component changes neither the length of a vector
/// nor its other component.
pub proof fn lemma_sign_keeps_length(v: Vec2, negative: bool)
    requires
        v.wf(),
    ensures
        v.with_x_sign(negative).norm2() == v.norm2(),
        v.with_y_sign(negative).norm2() == v.norm2(),
        v.with_x_sign(negative).wf(),
        v.with_y_sign(negative).wf(),
{
    let x = abs(v.x as int);
    let y = abs(v.y as int);
    assert(x * x == v.x * v.x && (-x) * (-x) == v.x * v.x) by (nonlinear_arith)
        requires
            x == abs(v.x as int),
    ;
    assert(y * y == v.y * v.y && (-y) * (-y) == v.y * v.y) by (nonlinear_arith)
        requires
            y == abs(v.y as int),
    ;
}

/// Of two components, the larger has the larger share.
pub proof fn lemma_share_monotone(a: int, b: int, norm2: int)
    requires
        0 <= a <= b,
        norm2 > 0,
    ensures
        0 <= unit_share(a, norm2) <= unit_share(b, norm2),
{
    let scaled = (norm2 * UNIT * UNIT) as nat;
    lemma_sqrt_floor(scaled);
    let len = sqrt_floor(scaled) as int;
    assert(norm2 * UNIT * UNIT >= 1) by (nonlinear_arith)
        requires
            norm2 > 0,
    ;
    assert(len > 0) by (nonlinear_arith)
        requires
            len >= 0,
            (len + 1) * (len + 1) > 1,
    ;
    assert(0 <= a * UNIT * UNIT <= b * UNIT * UNIT) by (nonlinear_arith)
        requires
            0 <= a <= b,
    ;
    vstd::arithmetic::div_mod::lemma_div_is_ordered(a * UNIT * UNIT, b * UNIT * UNIT, len);
    vstd::arithmetic::div_mod::lemma_div_pos_is_pos(a * UNIT * UNIT, len);
}

/// A normalized vector is a unit vector: its length is [`UNIT`] give or take
/// [`UNIT_TOLERANCE`], whatever vector it was made from.
pub proof fn lemma_normalized(v: Vec2)
    requires
        v.wf(),
    ensures
        v.normalized().is_unit(),
        -UNIT <= v.normalized().x <= UNIT,
        -UNIT <= v.normalized().y <= UNIT,
        v.x >= 0 ==> v.normalized().x >= 0,
        v.x <= 0 ==> v.normalized().x <= 0,
        v.y >= 0 ==> v.normalized().y >= 0,
        v.y < 0 ==> v.normalized().y <= 0,
        v.x != 0 || v.y != 0 ==> 0 <= unit_share(abs(v.x as int), v.norm2()) <= UNIT,
        v.x != 0 || v.y != 0 ==> 0 <= unit_share(abs(v.y as int), v.norm2()) <= UNIT,
{
    let s: int = UNIT as int;
    if v.x == 0 && v.y == 0 {
        assert(Vec2 { x: 0, y: UNIT }.norm2() == s * s) by (nonlinear_arith)
            requires
                s == UNIT,
        ;
        assert((s - 100) * (s - 100) <= s * s <= (s + 100) * (s + 100)) by (nonlinear_arith)
            requires
                s == 1_000_000,
        ;
    } else {
        let a = abs(v.x as int);
        let b = abs(v.y as int);
        assert(v.norm2() == a * a + b * b) by (nonlinear_arith)
            requires
                a == abs(v.x as int),
                b == abs(v.y as int),
                v.norm2() == v.x * v.x + v.y * v.y,
        ;
        lemma_scaled_norm_bounds(a, b);
        let scaled = (a * a + b * b) * UNIT * UNIT;
        lemma_sqrt_floor(scaled as nat);
        let len = sqrt_floor(scaled as nat) as int;
        assert(is_sqrt_floor(scaled as nat, len as nat));
        lemma_scaled_length(a, b, len);
        let qx = unit_share(a, v.norm2());
        let qy = unit_share(b, v.norm2());
        lemma_share_bounds(a, s, len, qx);
        lemma_share_bounds(b, s, len, qy);
        assert((a * a + b * b) * s * s == scaled);
        lemma_unit_upper(a, b, s, len, qx, qy);
        lemma_unit_lower(a, b, s, len, qx, qy);
        let r = v.normalized();
        assert(r.norm2() == qx * qx + qy * qy) by (nonlinear_arith)
            requires
                r.norm2() == r.x * r.x + r.y * r.y,
                r.x == qx || r.x == -qx,
                r.y == qy || r.y == -qy,
        ;
        assert((s - 100) * (s - 100) <= s * s - 4 * s - 2 && (s + 1) * (s + 1) <= (s + 100) * (s
            + 100)) by (nonlinear_arith)
            requires
                s == 1_000_000,
        ;
    }
}

} // verus!
