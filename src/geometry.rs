//! Scalar clamping, integer square roots and distances.
use vstd::prelude::*;

verus! {

/// A point or a vector in the plane, in thousandths of a world unit.
#[derive(Clone, Copy, Debug, PartialEq, Eq, Structural)]
pub struct Point {
    pub x: i64,
    pub y: i64,
}

/// `v` limited to the closed interval `[lo, hi]`.
pub open spec fn clamped(v: int, lo: int, hi: int) -> int {
    if v < lo {
        lo
    } else if v > hi {
        hi
    } else {
        v
    }
}

/// Clamping twice into the same interval gives what clamping once gave.
pub proof fn lemma_clamp_idempotent(v: int, lo: int, hi: int)
    requires
        lo <= hi,
    ensures
        clamped(clamped(v, lo, hi), lo, hi) == clamped(v, lo, hi),
{
}

/// Squared Euclidean distance between `(ax, ay)` and `(bx, by)`.
pub open spec fn sq_dist(ax: int, ay: int, bx: int, by: int) -> int {
    (ax - bx) * (ax - bx) + (ay - by) * (ay - by)
}

/// The integer square root of `v` rounded down (zero for `v <= 0`).
pub open spec fn root(v: int) -> int
    decreases v,
{
    if v <= 0 {
        0
    } else {
        let r = root(v - 1);
        if (r + 1) * (r + 1) <= v {
            r + 1
        } else {
            r
        }
    }
}

/// `r` is the square root of `v` rounded down.
pub open spec fn is_floor_root(v: int, r: int) -> bool {
    0 <= r && r * r <= v && v < (r + 1) * (r + 1)
}

/// `a / b` rounded away from zero, for `b > 0`.
pub open spec fn div_away(a: int, b: int) -> int {
    if a >= 0 {
        (a + b - 1) / b
    } else {
        -((-a + b - 1) / b)
    }
}

/// `root` is the floor square root.
pub proof fn lemma_root(v: int)
    requires
        v >= 0,
    ensures
        is_floor_root(v, root(v)),
    decreases v,
{
    if v > 0 {
        lemma_root(v - 1);
        let r = root(v - 1);
        assert(v < (r + 2) * (r + 2)) by (nonlinear_arith)
            requires
                v - 1 < (r + 1) * (r + 1),
                r >= 0,
        ;
    }
}

/// The floor square root is unique, so it is `root`.
pub proof fn lemma_root_unique(v: int, r: int)
    requires
        is_floor_root(v, r),
    ensures
        r == root(v),
{
    lemma_root(v);
    let s = root(v);
    if r < s {
        assert((r + 1) * (r + 1) <= s * s) by (nonlinear_arith)
            requires
                0 <= r + 1 <= s,
        ;
    } else if s < r {
        assert((s + 1) * (s + 1) <= r * r) by (nonlinear_arith)
            requires
                0 <= s + 1 <= r,
        ;
    }
}

/// Clamps `value` into `[min, max]`.
pub fn constrain(value: i64, min: i64, max: i64) -> (r: i64)
    requires
        min <= max,
    ensures
        r == clamped(value as int, min as int, max as int),
{
    if value < min {
        min
    } else if value > max {
        max
    } else {
        value
    }
}

/// Upper bound on the values whose square root `isqrt` takes.
pub const ROOT_INPUT_LIMIT: u128 = 0x100_0000_0000_0000_0000_0000;

/// The square root of `v`, rounded down.
pub fn isqrt(v: u128) -> (r: u128)
    requires
        v < ROOT_INPUT_LIMIT,
    ensures
        r == root(v as int),
        r < (0x1000_0000_0000u128),
{
    let mut lo: u128 = 0;
    let mut hi: u128 = 0x1000_0000_0000u128;
    assert(v < hi * hi) by (nonlinear_arith)
        requires
            v < 0x100_0000_0000_0000_0000_0000u128,
            hi == 0x1000_0000_0000u128,
    ;
    while hi - lo > 1
        invariant
            lo < hi <= (0x1000_0000_0000u128),
            lo * lo <= v,
            v < hi * hi,
        decreases hi - lo,
    {
        let mid: u128 = lo + (hi - lo) / 2;
        assert(mid * mid <= hi * hi) by (nonlinear_arith)
            requires
                mid <= hi,
        ;
        assert(hi * hi <= 0x100_0000_0000_0000_0000_0000u128) by (nonlinear_arith)
            requires
                hi <= 0x1000_0000_0000u128,
        ;
        if mid * mid <= v {
            lo = mid;
        } else {
            hi = mid;
        }
    }
    proof {
        lemma_root_unique(v as int, lo as int);
    }
    lo
}

/// Upper bound on a coordinate difference that `distance` accepts.
pub const SPAN_LIMIT: i64 = 0x800_0000_0000;

/// The Euclidean distance from `(x1, y1)` to `(x2, y2)`, rounded down.
pub fn distance(x1: i64, y1: i64, x2: i64, y2: i64) -> (r: i64)
    requires
        -SPAN_LIMIT <= x2 - x1 <= SPAN_LIMIT,
        -SPAN_LIMIT <= y2 - y1 <= SPAN_LIMIT,
    ensures
        r == root(sq_dist(x1 as int, y1 as int, x2 as int, y2 as int)),
        0 <= r,
        r == 0 <==> (x1 == x2 && y1 == y2),
{
    let d2 = squared_distance(x1, y1, x2, y2);
    let r = isqrt(d2);
    proof {
        lemma_root(d2 as int);
        if r > 0 {
            assert(r * r >= 1) by (nonlinear_arith)
                requires
                    r >= 1,
            ;
        } else {
            assert((r + 1) * (r + 1) == 1) by (nonlinear_arith)
                requires
                    r == 0,
            ;
        }
    }
    r as i64
}

/// The squared Euclidean distance from `(x1, y1)` to `(x2, y2)`.
pub fn squared_distance(x1: i64, y1: i64, x2: i64, y2: i64) -> (r: u128)
    requires
        -SPAN_LIMIT <= x2 - x1 <= SPAN_LIMIT,
        -SPAN_LIMIT <= y2 - y1 <= SPAN_LIMIT,
    ensures
        r == sq_dist(x1 as int, y1 as int, x2 as int, y2 as int),
        r <= 0x80_0000_0000_0000_0000_0000u128,
        r == 0 <==> (x1 == x2 && y1 == y2),
{
    let dx: i128 = x2 as i128 - x1 as i128;
    let dy: i128 = y2 as i128 - y1 as i128;
    assert(dx * dx <= 0x40_0000_0000_0000_0000_0000i128 && dy * dy <= 0x40_0000_0000_0000_0000_0000i128) by (nonlinear_arith)
        requires
            -0x800_0000_0000i128 <= dx <= 0x800_0000_0000i128,
            -0x800_0000_0000i128 <= dy <= 0x800_0000_0000i128,
    ;
    assert(dx * dx >= 0 && dy * dy >= 0) by (nonlinear_arith);
    assert(dx * dx > 0 <==> dx != 0) by (nonlinear_arith);
    assert(dy * dy > 0 <==> dy != 0) by (nonlinear_arith);
    let s: i128 = dx * dx + dy * dy;
    assert(sq_dist(x1 as int, y1 as int, x2 as int, y2 as int) == dx * dx + dy * dy) by (nonlinear_arith)
        requires
            dx == x2 - x1,
            dy == y2 - y1,
    ;
    s as u128
}

} // verus!
