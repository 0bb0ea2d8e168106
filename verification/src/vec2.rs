//! Two-dimensional fixed-point vectors and directional scaling.

use vstd::prelude::*;
use vstd::arithmetic::div_mod::{lemma_div_by_multiple, lemma_div_is_ordered};
use vstd::arithmetic::mul::lemma_mul_inequality;
use crate::math::{isqrt, isqrt64, lemma_isqrt_bounds};

verus! {

/// Raw steps per world distance unit (three decimal places of fixed point).
pub const UNIT: i64 = 1000;

/// Largest raw coordinate the core accepts from its callers, about a million
/// world units out from the origin. Keeping coordinates inside this window
/// lets every intermediate product of the aim geometry fit a machine word.
pub const MAX_COORD: i64 = 0x4000_0000;

/// Largest raw component of a direction vector; the difference of two
/// in-window coordinates always fits it.
pub const MAX_DIR: i64 = 0x8000_0000;

/// A two-dimensional vector of raw fixed-point steps.
#[derive(Clone, Copy, Debug, PartialEq, Eq, Structural)]
pub struct Vec2 {
    pub x: i64,
    pub y: i64,
}

impl Vec2 {
    /// The zero vector.
    pub fn zero() -> (r: Vec2)
        ensures
            r == (Vec2 { x: 0, y: 0 }),
    {
        Vec2 { x: 0, y: 0 }
    }
}

/// Both coordinates of `v` lie in the window the core accepts.
pub open spec fn coord_in_bounds(v: Vec2) -> bool {
    -MAX_COORD <= v.x <= MAX_COORD && -MAX_COORD <= v.y <= MAX_COORD
}

/// Both components of the direction `d` fit the directional window.
pub open spec fn dir_in_bounds(d: Vec2) -> bool {
    -MAX_DIR <= d.x <= MAX_DIR && -MAX_DIR <= d.y <= MAX_DIR
}

/// Squared Euclidean length of `(x, y)`.
pub open spec fn norm_sq(x: int, y: int) -> int {
    x * x + y * y
}

/// Integer length of the direction `d`: the floor of its Euclidean norm.
pub open spec fn dir_len(d: Vec2) -> int {
    isqrt(norm_sq(d.x as int, d.y as int) as nat) as int
}

/// One component of `c / l` scaled to length `s`, rounded toward zero.
pub open spec fn scaled_component(c: int, s: int, l: int) -> int {
    if l <= 0 {
        0
    } else if c >= 0 {
        (s * c) / l
    } else {
        -((s * (-c)) / l)
    }
}

/// The vector of length (up to rounding) `s` that points along `d`; the zero
/// vector when `d` is zero.
pub open spec fn dir_scaled(d: Vec2, s: int) -> Vec2 {
    Vec2 {
        x: scaled_component(d.x as int, s, dir_len(d)) as i64,
        y: scaled_component(d.y as int, s, dir_len(d)) as i64,
    }
}

/// The absolute value of `v` has the same square as `v`.
proof fn lemma_sq_abs(v: int, a: int)
    requires
        a == (if v >= 0 { v } else { -v }),
    ensures
        a * a == v * v,
        a >= 0,
{
    assert(a * a == v * v) by (nonlinear_arith)
        requires a == v || a == -v,
    ;
}

/// A component is no longer than the whole direction.
proof fn lemma_abs_component_le_len(a: int, n: nat, l: int)
    requires
        0 <= a,
        a * a <= n,
        l == isqrt(n),
    ensures
        a <= l,
{
    lemma_isqrt_bounds(n);
    if a > l {
        assert((l + 1) * (l + 1) <= a * a) by (nonlinear_arith)
            requires l + 1 <= a, 0 <= l,
        ;
    }
}

/// Scaling a component that is no longer than the direction cannot exceed
/// the requested length.
proof fn lemma_scaled_le(s: int, a: int, l: int)
    requires
        0 < l,
        0 <= a <= l,
        0 <= s,
    ensures
        0 <= (s * a) / l <= s,
{
    lemma_mul_inequality(a, l, s);
    assert(s * a == a * s && s * l == l * s) by (nonlinear_arith);
    lemma_div_is_ordered(s * a, s * l, l);
    lemma_div_by_multiple(s, l);
    assert(s * l == l * s) by (nonlinear_arith);
    assert((s * a) / l >= 0) by {
        assert(s * a >= 0) by (nonlinear_arith)
            requires s >= 0, a >= 0,
        ;
    }
}

/// Both components of `dir_scaled(d, s)` lie in `[-s, s]`.
pub proof fn lemma_dir_scaled_bounds(d: Vec2, s: int)
    requires
        dir_in_bounds(d),
        0 <= s,
    ensures
        -s <= scaled_component(d.x as int, s, dir_len(d)) <= s,
        -s <= scaled_component(d.y as int, s, dir_len(d)) <= s,
{
    let n = norm_sq(d.x as int, d.y as int) as nat;
    let l = dir_len(d);
    let ax = if d.x >= 0 { d.x as int } else { -(d.x as int) };
    let ay = if d.y >= 0 { d.y as int } else { -(d.y as int) };
    lemma_sq_abs(d.x as int, ax);
    lemma_sq_abs(d.y as int, ay);
    assert(ax * ax <= n && ay * ay <= n) by (nonlinear_arith)
        requires ax * ax >= 0, ay * ay >= 0, n == ax * ax + ay * ay,
    ;
    if l > 0 {
        lemma_abs_component_le_len(ax, n, l);
        lemma_abs_component_le_len(ay, n, l);
        lemma_scaled_le(s, ax, l);
        lemma_scaled_le(s, ay, l);
    }
}

/// Scale the direction `d` to length `s` (up to fixed-point rounding),
/// keeping its heading; the zero direction stays zero.
pub fn scale_to_length(d: Vec2, s: i64) -> (r: Vec2)
    requires
        dir_in_bounds(d),
        0 <= s <= 1_000_000,
    ensures
        r == dir_scaled(d, s as int),
        -s <= r.x <= s,
        -s <= r.y <= s,
{
    proof {
        lemma_dir_scaled_bounds(d, s as int);
    }
    let ax: u64 = (if d.x < 0 { -d.x } else { d.x }) as u64;
    let ay: u64 = (if d.y < 0 { -d.y } else { d.y }) as u64;
    assert(ax * ax + ay * ay <= 0x8000_0000_0000_0000) by (nonlinear_arith)
        requires ax <= 0x8000_0000u64, ay <= 0x8000_0000u64,
    ;
    let n: u64 = ax * ax + ay * ay;
    let l = isqrt64(n);
    proof {
        lemma_sq_abs(d.x as int, ax as int);
        lemma_sq_abs(d.y as int, ay as int);
        assert(l == dir_len(d));
        lemma_isqrt_bounds(n as nat);
    }
    if l == 0 {
        Vec2 { x: 0, y: 0 }
    } else {
        proof {
            lemma_abs_component_le_len(ax as int, n as nat, l as int);
            lemma_abs_component_le_len(ay as int, n as nat, l as int);
            lemma_scaled_le(s as int, ax as int, l as int);
            lemma_scaled_le(s as int, ay as int, l as int);
            assert(s * ax <= 1_000_000 * 0x8000_0000i64 && s * ay <= 1_000_000 * 0x8000_0000i64)
                by (nonlinear_arith)
                requires 0 <= s <= 1_000_000, 0 <= ax <= 0x8000_0000u64, 0 <= ay <= 0x8000_0000u64,
            ;
        }
        let mx = (s as u64) * ax / l;
        let my = (s as u64) * ay / l;
        Vec2 {
            x: if d.x < 0 { -(mx as i64) } else { mx as i64 },
            y: if d.y < 0 { -(my as i64) } else { my as i64 },
        }
    }
}

} // verus!
