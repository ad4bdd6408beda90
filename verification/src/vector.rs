//! Minimal 2D vector value type with dot product and specular reflection.

use vstd::prelude::*;
use crate::num::{tdiv, lemma_tdiv_sq, lemma_tdiv_rem, div_trunc};

verus! {

/// Magnitude bound on vector components accepted by `reflect`, chosen so
/// every intermediate product of the reflection fits in an `i128`.
pub const REFLECT_LIMIT: i64 = 1_000_000_000_000;

/// Magnitude bound on vector components accepted by `dot_product`, chosen
/// so the sum of the two products fits in an `i128`.
pub const DOT_LIMIT: i64 = 1_000_000_000_000_000_000;

/// A 2D vector in fixed-point world coordinates.
#[derive(Clone, Copy, PartialEq, Eq, Structural, Debug)]
pub struct Vector2 {
    pub x: i64,
    pub y: i64,
}

/// Reflecting a velocity about an axis preserves its speed exactly: with
/// `d2` the squared length of the axis and `w` the reflected velocity
/// scaled by `d2` (so that no division is involved), the squared length of
/// `w` is `d2 * d2` times the squared length of the original velocity.
pub proof fn lemma_reflection_preserves_speed(vx: int, vy: int, ux: int, uy: int)
    ensures
        ({
            let d2 = ux * ux + uy * uy;
            let t = vx * ux + vy * uy;
            let wx = d2 * vx - 2 * t * ux;
            let wy = d2 * vy - 2 * t * uy;
            wx * wx + wy * wy == d2 * d2 * (vx * vx + vy * vy)
        }),
{
    let d2 = ux * ux + uy * uy;
    let t = vx * ux + vy * uy;
    let wx = d2 * vx - 2 * t * ux;
    let wy = d2 * vy - 2 * t * uy;
    lemma_diff_square(d2 * vx, 2 * t * ux, wx);
    lemma_diff_square(d2 * vy, 2 * t * uy, wy);
    let a2 = (d2 * vx) * (d2 * vx) + (d2 * vy) * (d2 * vy);
    let ab = (d2 * vx) * (2 * t * ux) + (d2 * vy) * (2 * t * uy);
    let b2 = (2 * t * ux) * (2 * t * ux) + (2 * t * uy) * (2 * t * uy);
    assert(wx * wx + wy * wy == a2 - 2 * ab + b2);
    assert((d2 * vx) * (d2 * vx) == (d2 * d2) * (vx * vx)) by (nonlinear_arith);
    assert((d2 * vy) * (d2 * vy) == (d2 * d2) * (vy * vy)) by (nonlinear_arith);
    assert((d2 * d2) * (vx * vx) + (d2 * d2) * (vy * vy) == (d2 * d2) * (vx * vx + vy * vy))
        by (nonlinear_arith);
    assert(a2 == d2 * d2 * (vx * vx + vy * vy));
    assert((d2 * vx) * (2 * t * ux) == 2 * ((d2 * t) * (vx * ux))) by (nonlinear_arith);
    assert((d2 * vy) * (2 * t * uy) == 2 * ((d2 * t) * (vy * uy))) by (nonlinear_arith);
    assert((d2 * t) * (vx * ux) + (d2 * t) * (vy * uy) == (d2 * t) * t) by (nonlinear_arith)
        requires
            t == vx * ux + vy * uy,
    ;
    assert(ab == 2 * ((d2 * t) * t));
    assert((2 * t * ux) * (2 * t * ux) == 4 * ((t * t) * (ux * ux))) by (nonlinear_arith);
    assert((2 * t * uy) * (2 * t * uy) == 4 * ((t * t) * (uy * uy))) by (nonlinear_arith);
    assert((t * t) * (ux * ux) + (t * t) * (uy * uy) == (t * t) * d2) by (nonlinear_arith)
        requires
            d2 == ux * ux + uy * uy,
    ;
    assert(b2 == 4 * ((t * t) * d2));
    assert((d2 * t) * t == (t * t) * d2) by (nonlinear_arith);
    assert(wx * wx + wy * wy == d2 * d2 * (vx * vx + vy * vy));
}

/// Squaring a difference, with the cross product kept as a named term.
proof fn lemma_diff_square(a: int, b: int, c: int)
    requires
        c == a - b,
    ensures
        c * c == a * a - 2 * (a * b) + b * b,
{
    assert(c * c == a * a - 2 * (a * b) + b * b) by (nonlinear_arith)
        requires
            c == a - b,
    ;
}

impl Vector2 {
    /// The dot product of two vectors, exact in `i128`.
    pub fn dot_product(&self, other: &Vector2) -> (r: i128)
        requires
            -DOT_LIMIT <= self.x <= DOT_LIMIT,
            -DOT_LIMIT <= self.y <= DOT_LIMIT,
            -DOT_LIMIT <= other.x <= DOT_LIMIT,
            -DOT_LIMIT <= other.y <= DOT_LIMIT,
        ensures
            r == self.x * other.x + self.y * other.y,
    {
        let a = self.x as i128;
        let b = other.x as i128;
        let c = self.y as i128;
        let d = other.y as i128;
        proof {
            let big: int = 1_000_000_000_000_000_000_000_000_000_000_000_000;
            assert(-big <= a * b <= big && -big <= c * d <= big) by (nonlinear_arith)
                requires
                    -1_000_000_000_000_000_000 <= a <= 1_000_000_000_000_000_000,
                    -1_000_000_000_000_000_000 <= b <= 1_000_000_000_000_000_000,
                    -1_000_000_000_000_000_000 <= c <= 1_000_000_000_000_000_000,
                    -1_000_000_000_000_000_000 <= d <= 1_000_000_000_000_000_000,
                    big == 1_000_000_000_000_000_000_000_000_000_000_000_000,
            ;
        }
        a * b + c * d
    }

    /// Specular reflection of `self` about the given (not necessarily unit)
    /// axis: the exact value is `v - 2 (v . u) u / |u|^2`; each component is
    /// rounded toward zero onto the fixed-point grid. The squared speed
    /// never increases, and each component sits within one grid unit below
    /// the exact reflection (`lemma_reflection_preserves_speed` gives the
    /// exact value's speed): scaled by `d2`, the result differs from the
    /// exact numerator by less than `d2`.
    pub fn reflect(&self, axis: &Vector2) -> (r: Vector2)
        requires
            axis.x != 0 || axis.y != 0,
            -REFLECT_LIMIT <= self.x <= REFLECT_LIMIT,
            -REFLECT_LIMIT <= self.y <= REFLECT_LIMIT,
            -REFLECT_LIMIT <= axis.x <= REFLECT_LIMIT,
            -REFLECT_LIMIT <= axis.y <= REFLECT_LIMIT,
        ensures
            ({
                let d2 = axis.x * axis.x + axis.y * axis.y;
                let t = self.x * axis.x + self.y * axis.y;
                r.x == tdiv(d2 * self.x - 2 * t * axis.x, d2) && r.y == tdiv(
                    d2 * self.y - 2 * t * axis.y,
                    d2,
                )
            }),
            r.x * r.x + r.y * r.y <= self.x * self.x + self.y * self.y,
            ({
                let d2 = axis.x * axis.x + axis.y * axis.y;
                let t = self.x * axis.x + self.y * axis.y;
                let wx = d2 * self.x - 2 * t * axis.x;
                let wy = d2 * self.y - 2 * t * axis.y;
                -d2 < wx - r.x * d2 < d2 && -d2 < wy - r.y * d2 < d2
            }),
    {
        let sx = self.x as i128;
        let sy = self.y as i128;
        let ax = axis.x as i128;
        let ay = axis.y as i128;
        proof {
            assert(-1_000_000_000_000_000_000_000_000 <= ax * ax <= 1_000_000_000_000_000_000_000_000
                && 0 <= ax * ax && (ax != 0 ==> ax * ax >= 1)) by (nonlinear_arith)
                requires
                    -1_000_000_000_000 <= ax <= 1_000_000_000_000,
            ;
            assert(-1_000_000_000_000_000_000_000_000 <= ay * ay <= 1_000_000_000_000_000_000_000_000
                && 0 <= ay * ay && (ay != 0 ==> ay * ay >= 1)) by (nonlinear_arith)
                requires
                    -1_000_000_000_000 <= ay <= 1_000_000_000_000,
            ;
            assert(-1_000_000_000_000_000_000_000_000 <= sx * ax <= 1_000_000_000_000_000_000_000_000)
                by (nonlinear_arith)
                requires
                    -1_000_000_000_000 <= sx <= 1_000_000_000_000,
                    -1_000_000_000_000 <= ax <= 1_000_000_000_000,
            ;
            assert(-1_000_000_000_000_000_000_000_000 <= sy * ay <= 1_000_000_000_000_000_000_000_000)
                by (nonlinear_arith)
                requires
                    -1_000_000_000_000 <= sy <= 1_000_000_000_000,
                    -1_000_000_000_000 <= ay <= 1_000_000_000_000,
            ;
        }
        let d2: i128 = ax * ax + ay * ay;
        proof {
            assert(d2 >= 1);
        }
        let t: i128 = sx * ax + sy * ay;
        proof {
            let big: int = 4_000_000_000_000_000_000_000_000_000_000_000_000;
            assert(-big <= d2 * sx <= big && -big <= d2 * sy <= big) by (nonlinear_arith)
                requires
                    0 <= d2 <= 2_000_000_000_000_000_000_000_000,
                    -1_000_000_000_000 <= sx <= 1_000_000_000_000,
                    -1_000_000_000_000 <= sy <= 1_000_000_000_000,
                    big == 4_000_000_000_000_000_000_000_000_000_000_000_000,
            ;
            assert(-big <= 2 * t * ax <= big && -big <= 2 * t * ay <= big) by (nonlinear_arith)
                requires
                    -2_000_000_000_000_000_000_000_000 <= t <= 2_000_000_000_000_000_000_000_000,
                    -1_000_000_000_000 <= ax <= 1_000_000_000_000,
                    -1_000_000_000_000 <= ay <= 1_000_000_000_000,
                    big == 4_000_000_000_000_000_000_000_000_000_000_000_000,
            ;
        }
        let wx: i128 = d2 * sx - 2 * t * ax;
        let wy: i128 = d2 * sy - 2 * t * ay;
        let qx = div_trunc(wx, d2);
        let qy = div_trunc(wy, d2);
        proof {
            lemma_reflection_preserves_speed(sx as int, sy as int, ax as int, ay as int);
            lemma_tdiv_sq(wx as int, d2 as int);
            lemma_tdiv_sq(wy as int, d2 as int);
            lemma_tdiv_rem(wx as int, d2 as int);
            lemma_tdiv_rem(wy as int, d2 as int);
            let qxi = tdiv(wx as int, d2 as int);
            let qyi = tdiv(wy as int, d2 as int);
            let di = d2 as int;
            let sq = (sx as int) * (sx as int) + (sy as int) * (sy as int);
            assert(qxi * qxi >= 0 && qyi * qyi >= 0) by (nonlinear_arith);
            assert(qxi * qxi + qyi * qyi <= sq) by (nonlinear_arith)
                requires
                    di > 0,
                    (qxi * di) * (qxi * di) <= (wx as int) * (wx as int),
                    (qyi * di) * (qyi * di) <= (wy as int) * (wy as int),
                    (wx as int) * (wx as int) + (wy as int) * (wy as int) == di * di * sq,
            ;
            assert(sq <= 2_000_000_000_000_000_000_000_000) by (nonlinear_arith)
                requires
                    -1_000_000_000_000 <= sx <= 1_000_000_000_000,
                    -1_000_000_000_000 <= sy <= 1_000_000_000_000,
                    sq == sx * sx + sy * sy,
            ;
            assert(-2_000_000_000_000 <= qxi <= 2_000_000_000_000 && -2_000_000_000_000 <= qyi
                <= 2_000_000_000_000) by (nonlinear_arith)
                requires
                    qxi * qxi + qyi * qyi <= sq,
                    qxi * qxi >= 0,
                    qyi * qyi >= 0,
                    sq <= 2_000_000_000_000_000_000_000_000,
            ;
        }
        Vector2 { x: qx as i64, y: qy as i64 }
    }
}

} // verus!
