//! Fixed-point vectors: `Vec2` for positions, velocities, forces and field
//! directions, `Vec3` for a point in the noise volume.

use vstd::prelude::*;
use crate::fixed::{
    floor_sqrt, isqrt, lemma_floor_sqrt_bounds, lemma_quotient_bounds, magnitude, sat_add,
    saturating_sum, UNIT,
};

verus! {

/// A vector in the plane, each component in millionths.
#[derive(Clone, Copy, Debug, PartialEq, Eq, Structural)]
pub struct Vec2 {
    pub x: i32,
    pub y: i32,
}

/// A point in the noise volume, each coordinate in millionths.
#[derive(Clone, Copy, Debug, PartialEq, Eq, Structural)]
pub struct Vec3 {
    pub x: i64,
    pub y: i64,
    pub z: i64,
}

/// The magnitude of one component `c` of a vector whose squared length is
/// `s`, after the vector was stretched or shrunk to the length `t`: the
/// exact value `|c| * t / sqrt(s)`, rounded down.
pub open spec fn rescaled_magnitude(c: int, s: int, t: int) -> int {
    floor_sqrt(((c * c * t * t) / s) as nat) as int
}

/// `rescaled_magnitude` with the sign of `c`.
pub open spec fn rescaled_component(c: int, s: int, t: int) -> int {
    if c < 0 {
        -rescaled_magnitude(c, s, t)
    } else {
        rescaled_magnitude(c, s, t)
    }
}

/// What `rescaled_magnitude` rounds: with `m` the result, `m / t` is the
/// largest fraction of that grain which does not exceed `|c| / sqrt(s)`.
/// The result is at most `t`, and below `|c|` where the vector is longer
/// than `t`.
pub proof fn lemma_rescaled_magnitude(c: int, s: int, t: int)
    requires
        s > 0,
        c * c <= s,
        t >= 0,
    ensures
        0 <= rescaled_magnitude(c, s, t) <= t,
        rescaled_magnitude(c, s, t) * rescaled_magnitude(c, s, t) * s <= c * c * t * t,
        c * c * t * t < (rescaled_magnitude(c, s, t) + 1) * (rescaled_magnitude(c, s, t) + 1) * s,
        t * t < s ==> rescaled_magnitude(c, s, t) <= magnitude(c),
{
    let a = c * c * t * t;
    let q = a / s;
    let m = rescaled_magnitude(c, s, t);
    assert(a >= 0) by (nonlinear_arith)
        requires
            a == c * c * t * t,
    ;
    lemma_quotient_bounds(a, s);
    assert(q >= 0) by (nonlinear_arith)
        requires
            a < (q + 1) * s,
            a >= 0,
            s > 0,
    ;
    lemma_floor_sqrt_bounds(q as nat);
    assert(m * m <= q);
    assert(q < (m + 1) * (m + 1));
    assert(m * m * s <= a) by (nonlinear_arith)
        requires
            m * m <= q,
            q * s <= a,
            s > 0,
    ;
    assert(a < (m + 1) * (m + 1) * s) by (nonlinear_arith)
        requires
            q + 1 <= (m + 1) * (m + 1),
            a < (q + 1) * s,
            s > 0,
    ;
    // c * c <= s, so the quotient is at most t * t
    assert(a <= t * t * s) by (nonlinear_arith)
        requires
            a == c * c * t * t,
            c * c <= s,
    ;
    assert(q <= t * t) by (nonlinear_arith)
        requires
            q * s <= a,
            a <= t * t * s,
            s > 0,
    ;
    assert(m <= t) by (nonlinear_arith)
        requires
            m * m <= q,
            q <= t * t,
            m >= 0,
            t >= 0,
    ;
    if t * t < s {
        let k = magnitude(c);
        assert(k * k == c * c) by (nonlinear_arith)
            requires
                k == c || k == -c,
        ;
        assert(a <= k * k * s) by (nonlinear_arith)
            requires
                a == c * c * t * t,
                k * k == c * c,
                t * t < s,
        ;
        assert(q <= k * k) by (nonlinear_arith)
            requires
                q * s <= a,
                a <= k * k * s,
                s > 0,
        ;
        assert(m <= k) by (nonlinear_arith)
            requires
                m * m <= q,
                q <= k * k,
                m >= 0,
                k >= 0,
        ;
    }
}

impl Vec2 {
    /// The vector with both components zero.
    pub open spec fn zero() -> Vec2 {
        Vec2 { x: 0, y: 0 }
    }

    /// The square of the vector's length.
    pub open spec fn length_squared(self) -> int {
        self.x * self.x + self.y * self.y
    }

    /// The sum of two vectors, each component held at the limits of `i32`.
    pub open spec fn sum(self, other: Vec2) -> Vec2 {
        Vec2 {
            x: sat_add(self.x as int, other.x as int) as i32,
            y: sat_add(self.y as int, other.y as int) as i32,
        }
    }

    /// The vector of the same direction and of length `t`, each component
    /// rounded toward zero.
    pub open spec fn rescaled(self, t: int) -> Vec2 {
        Vec2 {
            x: rescaled_component(self.x as int, self.length_squared(), t) as i32,
            y: rescaled_component(self.y as int, self.length_squared(), t) as i32,
        }
    }

    /// The vector of the same direction and of length one. The zero vector
    /// has no direction and stays as it is.
    pub open spec fn normalized(self) -> Vec2 {
        if self.length_squared() == 0 {
            self
        } else {
            self.rescaled(UNIT as int)
        }
    }

    /// The vector itself where it is no longer than `max`, else the vector of
    /// the same direction and of length `max`.
    pub open spec fn limited(self, max: int) -> Vec2 {
        if self.length_squared() > max * max {
            self.rescaled(max)
        } else {
            self
        }
    }

    /// The vector is as long as `t`, as far as whole millionths allow: it is
    /// no longer, and adding one millionth to the magnitude of each
    /// component makes it longer.
    pub open spec fn has_length(self, t: int) -> bool {
        &&& self.length_squared() <= t * t
        &&& t * t < (magnitude(self.x as int) + 1) * (magnitude(self.x as int) + 1) + (magnitude(
            self.y as int,
        ) + 1) * (magnitude(self.y as int) + 1)
    }

    /// The vector is of length one, as far as whole millionths allow.
    pub open spec fn is_unit(self) -> bool {
        self.has_length(UNIT as int)
    }

    /// The vector with the given components.
    pub fn new(x: i32, y: i32) -> (v: Vec2)
        ensures
            v == (Vec2 { x, y }),
    {
        Vec2 { x, y }
    }

    /// The sum of two vectors, each component held at the limits of `i32`.
    pub fn saturating_add(self, other: Vec2) -> (v: Vec2)
        ensures
            v == self.sum(other),
    {
        Vec2 { x: saturating_sum(self.x, other.x), y: saturating_sum(self.y, other.y) }
    }

    /// The square of the vector's length.
    pub fn squared_length(self) -> (s: u64)
        ensures
            s == self.length_squared(),
    {
        let x: i64 = self.x as i64;
        let y: i64 = self.y as i64;
        assert(0 <= x * x <= 0x4000_0000_0000_0000) by (nonlinear_arith)
            requires
                -0x8000_0000 <= x <= 0x8000_0000,
        ;
        assert(0 <= y * y <= 0x4000_0000_0000_0000) by (nonlinear_arith)
            requires
                -0x8000_0000 <= y <= 0x8000_0000,
        ;
        (x * x) as u64 + (y * y) as u64
    }

    /// The vector of the same direction and of length one; the zero vector
    /// stays as it is.
    pub fn normalize(self) -> (v: Vec2)
        ensures
            v == self.normalized(),
            self != Vec2::zero() ==> v.is_unit(),
    {
        let s = self.squared_length();
        proof {
            lemma_zero_length(self);
        }
        if s == 0 {
            self
        } else {
            proof {
                lemma_component_below_length(self);
                lemma_rescaled_length(self, UNIT as int);
            }
            Vec2 {
                x: rescale_component(self.x, s, 1_000_000),
                y: rescale_component(self.y, s, 1_000_000),
            }
        }
    }

    /// The vector cut down to the length `max` where it is longer.
    pub fn limit(self, max: u32) -> (v: Vec2)
        ensures
            v == self.limited(max as int),
            v.length_squared() <= max * max,
            self.length_squared() > max * max ==> v.has_length(max as int),
    {
        let s = self.squared_length();
        let m: u64 = max as u64;
        assert(m * m <= 0xffff_ffff * 0xffff_ffff) by (nonlinear_arith)
            requires
                0 <= m <= 0xffff_ffff,
        ;
        if s > m * m {
            proof {
                lemma_component_below_length(self);
                lemma_rescaled_length(self, max as int);
            }
            Vec2 { x: rescale_component(self.x, s, max), y: rescale_component(self.y, s, max) }
        } else {
            self
        }
    }
}

/// Only the zero vector has length zero.
pub proof fn lemma_zero_length(v: Vec2)
    ensures
        v.length_squared() >= 0,
        v.length_squared() == 0 <==> v == Vec2::zero(),
{
    let x = v.x as int;
    let y = v.y as int;
    assert(x * x >= 0 && (x * x == 0 <==> x == 0)) by (nonlinear_arith);
    assert(y * y >= 0 && (y * y == 0 <==> y == 0)) by (nonlinear_arith);
}

/// No component is longer than the vector.
pub proof fn lemma_component_below_length(v: Vec2)
    ensures
        v.x * v.x <= v.length_squared(),
        v.y * v.y <= v.length_squared(),
{
    let x = v.x as int;
    let y = v.y as int;
    assert(x * x >= 0) by (nonlinear_arith);
    assert(y * y >= 0) by (nonlinear_arith);
}

/// A vector that is not zero, rescaled to the length `t`, has that length as
/// far as whole millionths allow, provided its components fit: `t` is within
/// `i32`, or the vector was longer than `t`.
pub proof fn lemma_rescaled_length(v: Vec2, t: int)
    requires
        v != Vec2::zero(),
        0 <= t,
        t <= i32::MAX || t * t < v.length_squared(),
    ensures
        v.rescaled(t).x == rescaled_component(v.x as int, v.length_squared(), t),
        v.rescaled(t).y == rescaled_component(v.y as int, v.length_squared(), t),
        v.rescaled(t).has_length(t),
{
    let s = v.length_squared();
    let x = v.x as int;
    let y = v.y as int;
    lemma_zero_length(v);
    lemma_component_below_length(v);
    lemma_rescaled_magnitude(x, s, t);
    lemma_rescaled_magnitude(y, s, t);
    let mx = rescaled_magnitude(x, s, t);
    let my = rescaled_magnitude(y, s, t);
    let r = v.rescaled(t);
    assert(magnitude(r.x as int) == mx);
    assert(magnitude(r.y as int) == my);
    assert(r.x * r.x == mx * mx) by (nonlinear_arith)
        requires
            r.x == mx || r.x == -mx,
    ;
    assert(r.y * r.y == my * my) by (nonlinear_arith)
        requires
            r.y == my || r.y == -my,
    ;
    assert((mx * mx + my * my) * s <= t * t * s) by (nonlinear_arith)
        requires
            mx * mx * s <= x * x * t * t,
            my * my * s <= y * y * t * t,
            s == x * x + y * y,
    ;
    assert(mx * mx + my * my <= t * t) by (nonlinear_arith)
        requires
            (mx * mx + my * my) * s <= t * t * s,
            s > 0,
    ;
    assert(t * t * s < ((mx + 1) * (mx + 1) + (my + 1) * (my + 1)) * s) by (nonlinear_arith)
        requires
            x * x * t * t < (mx + 1) * (mx + 1) * s,
            y * y * t * t < (my + 1) * (my + 1) * s,
            s == x * x + y * y,
    ;
    assert(t * t < (mx + 1) * (mx + 1) + (my + 1) * (my + 1)) by (nonlinear_arith)
        requires
            t * t * s < ((mx + 1) * (mx + 1) + (my + 1) * (my + 1)) * s,
            s > 0,
    ;
}

/// One component of a vector of squared length `s`, rescaled to the length `t`.
fn rescale_component(c: i32, s: u64, t: u32) -> (r: i32)
    requires
        s > 0,
        c * c <= s,
        t <= i32::MAX || t * t < s,
    ensures
        r == rescaled_component(c as int, s as int, t as int),
{
    let c_abs: u64 = if c < 0 {
        (-(c as i64)) as u64
    } else {
        c as u64
    };
    let t_wide: u64 = t as u64;
    assert(c_abs * c_abs == c * c && c_abs * c_abs <= 0x4000_0000_0000_0000) by (nonlinear_arith)
        requires
            c_abs == c || c_abs == -c,
            0 <= c_abs <= 0x8000_0000,
    ;
    assert(t_wide * t_wide <= 0xffff_ffff * 0xffff_ffff) by (nonlinear_arith)
        requires
            0 <= t_wide <= 0xffff_ffff,
    ;
    let c2: u128 = (c_abs * c_abs) as u128;
    let t2: u128 = (t_wide * t_wide) as u128;
    assert(c2 * t2 <= 0x4000_0000_0000_0000 * 0xffff_ffff_ffff_ffff) by (nonlinear_arith)
        requires
            0 <= c2 <= 0x4000_0000_0000_0000,
            0 <= t2 <= 0xffff_ffff_ffff_ffff,
    ;
    assert(c2 * t2 == c * c * t * t) by (nonlinear_arith)
        requires
            c2 == c * c,
            t2 == t * t,
    ;
    let q: u128 = (c2 * t2) / (s as u128);
    proof {
        lemma_rescaled_magnitude(c as int, s as int, t as int);
        lemma_quotient_bounds(c * c * t * t, s as int);
        assert(q <= t * t) by (nonlinear_arith)
            requires
                q * s <= c * c * t * t,
                c * c <= s,
                s > 0,
                q >= 0,
        ;
    }
    let m: u32 = isqrt(q as u64);
    if c < 0 {
        (-(m as i64)) as i32
    } else {
        m as i32
    }
}

} // verus!
