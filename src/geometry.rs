//! Fixed-point geometry on the unit torus.
//!
//! A coordinate is a `u32`: the torus side has length `TURN` (2^32), so every
//! coordinate lies in `[0, 1)` by construction. An angle is a binary angle:
//! `TURN` units make a full turn. Trigonometric values are fixed-point
//! numbers with `ONE` as unity.
use crate::network::ONE;
use vstd::arithmetic::div_mod::{lemma_add_mod_noop, lemma_mod_add_multiples_vanish, lemma_mod_sub_multiples_vanish, lemma_small_mod};
use vstd::prelude::*;

verus! {

/// Length of the torus side, and the number of binary-angle units in a turn.
pub const TURN: u64 = 4294967296;

/// A quarter turn in binary-angle units.
pub const QUARTER: u64 = 1073741824;

/// A point on the torus.
#[derive(Clone, Copy, Debug, PartialEq, Eq, Structural)]
pub struct Point {
    pub x: u32,
    pub y: u32,
}

/// Reduction of a coordinate onto the torus.
pub open spec fn wrap(v: int) -> int {
    v % (TURN as int)
}

/// Moves a coordinate by a displacement of less than one torus side.
pub fn wrap_add(x: u32, d: i64) -> (r: u32)
    requires
        -(TURN as int) < d < TURN as int,
    ensures
        r as int == wrap(x + d),
{
    let s: i64 = x as i64 + d;
    let ghost t = TURN as int;
    if s < 0 {
        proof {
            lemma_mod_add_multiples_vanish(s as int, t);
            lemma_small_mod((s + t) as nat, t as nat);
        }
        (s + TURN as i64) as u32
    } else if s >= TURN as i64 {
        proof {
            lemma_mod_sub_multiples_vanish(s as int, t);
            lemma_small_mod((s - t) as nat, t as nat);
        }
        (s - TURN as i64) as u32
    } else {
        proof {
            lemma_small_mod(s as nat, t as nat);
        }
        s as u32
    }
}

/// Where a coordinate ends after the displacements `ds`, applied in order.
pub open spec fn moved(x: int, ds: Seq<int>) -> int
    decreases ds.len(),
{
    if ds.len() == 0 {
        x
    } else {
        wrap(moved(x, ds.drop_last()) + ds.last())
    }
}

/// Sum of a sequence of displacements.
pub open spec fn total(ds: Seq<int>) -> int
    decreases ds.len(),
{
    if ds.len() == 0 {
        0
    } else {
        total(ds.drop_last()) + ds.last()
    }
}

/// A coordinate moved step by step ends where one move by the summed
/// displacement would take it.
pub proof fn lemma_moved_is_total(x: int, ds: Seq<int>)
    requires
        0 <= x < TURN,
    ensures
        moved(x, ds) == wrap(x + total(ds)),
        0 <= moved(x, ds) < TURN,
    decreases ds.len(),
{
    let t = TURN as int;
    if ds.len() == 0 {
        lemma_small_mod(x as nat, t as nat);
    } else {
        let pre = ds.drop_last();
        lemma_moved_is_total(x, pre);
        lemma_add_mod_noop(x + total(pre), ds.last(), t);
        lemma_small_mod(moved(x, pre) as nat, t as nat);
        lemma_add_mod_noop(moved(x, pre), ds.last(), t);
    }
}

/// On the torus, moves that add up to whole sides (one side being 1.0)
/// bring a coordinate back to where it started, and every coordinate stays
/// in `[0, 1)` along the way.
pub proof fn lemma_whole_sides_return(x: int, ds: Seq<int>, sides: int)
    requires
        0 <= x < TURN,
        total(ds) == sides * TURN,
    ensures
        moved(x, ds) == x,
        forall|k: int| 0 <= k <= ds.len() ==> 0 <= #[trigger] moved(x, ds.subrange(0, k)) < TURN,
{
    let t = TURN as int;
    lemma_moved_is_total(x, ds);
    vstd::arithmetic::div_mod::lemma_mod_multiples_vanish(sides, x, t);
    assert(t * sides + x == x + total(ds)) by (nonlinear_arith)
        requires
            total(ds) == sides * t,
    ;
    lemma_small_mod(x as nat, t as nat);
    assert forall|k: int| 0 <= k <= ds.len() implies 0 <= #[trigger] moved(x, ds.subrange(0, k)) < TURN by {
        lemma_moved_is_total(x, ds.subrange(0, k));
    }
}

/// Half a turn in the reduced angle scale of `half_sine` (2^15 units).
pub const HALF_STEPS: i64 = 32768;

/// Bhaskara's rational approximation of `sin` on the first half turn, for
/// `t` reduced-angle units out of `HALF_STEPS`, in `ONE` units.
pub open spec fn half_sine(t: int) -> int {
    let h = HALF_STEPS as int;
    let p = t * (h - t);
    (16 * p * (ONE as int)) / (5 * h * h - 4 * p)
}

/// Sine of a binary angle, in `ONE` units.
pub open spec fn sine(a: u32) -> int {
    let t = (a as int / 65536) % (HALF_STEPS as int);
    if a < 0x8000_0000u32 {
        half_sine(t)
    } else {
        -half_sine(t)
    }
}

/// Cosine of a binary angle: the sine a quarter turn further on.
pub open spec fn cosine(a: u32) -> int {
    sine(wrap(a + QUARTER) as u32)
}

fn half_sine_exec(t: i64) -> (r: i64)
    requires
        0 <= t < HALF_STEPS,
    ensures
        r == half_sine(t as int),
        0 <= r <= ONE,
{
    let h = HALF_STEPS;
    assert(0 <= t * (h - t) <= 0x1000_0000) by (nonlinear_arith)
        requires
            0 <= t < h,
            h == 32768,
    ;
    let p = t * (h - t);
    let num = 16 * p * ONE;
    let den = 5 * h * h - 4 * p;
    assert(num / den <= ONE) by (nonlinear_arith)
        requires
            num == 16 * p * 65536,
            den == 5 * 0x4000_0000 - 4 * p,
            0 <= p <= 0x1000_0000,
    {
        assert(16 * p <= den);
        assert(num <= 65536 * den);
        vstd::arithmetic::div_mod::lemma_div_is_ordered(num as int, 65536 * den, den as int);
        vstd::arithmetic::div_mod::lemma_div_by_multiple(65536, den as int);
    }
    assert(num / den >= 0) by (nonlinear_arith)
        requires
            num >= 0,
            den > 0,
    ;
    num / den
}

/// Sine of a binary angle, in `ONE` units.
pub fn sin_of(a: u32) -> (r: i64)
    ensures
        r == sine(a),
        -ONE <= r <= ONE,
{
    let t: i64 = ((a / 65536) % 32768) as i64;
    let v = half_sine_exec(t);
    if a < 0x8000_0000u32 {
        v
    } else {
        -v
    }
}

/// Cosine of a binary angle, in `ONE` units.
pub fn cos_of(a: u32) -> (r: i64)
    ensures
        r == cosine(a),
        -ONE <= r <= ONE,
{
    sin_of(wrap_add(a, QUARTER as i64))
}

/// Integer square root: the largest `r` with `r * r <= n`.
pub fn isqrt(n: u64) -> (r: u64)
    ensures
        r * r <= n < (r + 1) * (r + 1),
{
    let mut lo: u64 = 0;
    let mut hi: u64 = 0x1_0000_0000;
    assert(n < hi * hi) by (nonlinear_arith)
        requires
            hi == 0x1_0000_0000,
            n <= u64::MAX,
    ;
    while hi - lo > 1
        invariant
            lo < hi <= 0x1_0000_0000,
            lo * lo <= n,
            n < hi * hi,
        decreases hi - lo,
    {
        let mid = lo + (hi - lo) / 2;
        assert(mid * mid <= 0x1_0000_0000_0000_0000) by (nonlinear_arith)
            requires
                mid <= 0x1_0000_0000,
        ;
        if (mid as u128) * (mid as u128) <= n as u128 {
            lo = mid;
        } else {
            hi = mid;
        }
    }
    assert(hi == lo + 1);
    lo
}

/// An eighth of a turn in binary-angle units.
pub const EIGHTH: i64 = 536870912;

/// 0.273 radian in binary-angle units, the curvature term of `arc_tangent`.
pub const ATAN_BEND: i64 = 186613320;

/// Approximate arc tangent of `z / ONE` for `0 <= z <= ONE`, in binary-angle
/// units: `z * pi/4 + 0.273 * z * (1 - z)`.
pub open spec fn arc_tangent(z: int) -> int {
    (z * (EIGHTH as int) + (ATAN_BEND as int) * z * ((ONE as int) - z) / (ONE as int)) / (ONE as int)
}

/// Direction of the vector `(x, y)` as a binary angle counted from the
/// positive x axis toward the positive y axis.
pub open spec fn bearing(x: int, y: int) -> int {
    let ax = if x < 0 { -x } else { x };
    let ay = if y < 0 { -y } else { y };
    let base = if ax == 0 && ay == 0 {
        0
    } else if ay <= ax {
        arc_tangent(ay * (ONE as int) / ax)
    } else {
        2 * (EIGHTH as int) - arc_tangent(ax * (ONE as int) / ay)
    };
    if x >= 0 && y >= 0 {
        wrap(base)
    } else if x < 0 && y >= 0 {
        wrap(4 * (EIGHTH as int) - base)
    } else if x < 0 {
        wrap(4 * (EIGHTH as int) + base)
    } else {
        wrap(8 * (EIGHTH as int) - base)
    }
}

fn arc_tangent_exec(z: i64) -> (r: i64)
    requires
        0 <= z <= ONE,
    ensures
        r == arc_tangent(z as int),
        0 <= r <= 2 * EIGHTH,
{
    assert(0 <= z * (ONE - z) <= ONE * ONE) by (nonlinear_arith)
        requires
            0 <= z <= ONE,
    ;
    let q = z * (ONE - z);
    assert(0 <= ATAN_BEND * q <= ATAN_BEND * ONE * ONE) by (nonlinear_arith)
        requires
            0 <= q <= ONE * ONE,
    ;
    let bend = ATAN_BEND * q / ONE;
    assert(bend <= ATAN_BEND * ONE) by (nonlinear_arith)
        requires
            bend as int == (ATAN_BEND as int) * (q as int) / (ONE as int),
            0 <= ATAN_BEND * q <= ATAN_BEND * ONE * ONE,
    ;
    assert(0 <= z * EIGHTH <= ONE * EIGHTH) by (nonlinear_arith)
        requires
            0 <= z <= ONE,
    ;
    let s = z * EIGHTH + bend;
    assert(0 <= s / ONE <= 2 * EIGHTH) by (nonlinear_arith)
        requires
            0 <= s <= ONE * EIGHTH + ATAN_BEND * ONE,
    ;
    assert(ATAN_BEND * z * (ONE - z) == ATAN_BEND * q) by (nonlinear_arith)
        requires
            q == z * (ONE - z),
    ;
    s / ONE
}

/// Direction of the vector `(x, y)` as a binary angle.
pub fn bearing_of(x: i64, y: i64) -> (r: u32)
    requires
        -0x8000_0000 <= x <= 0x8000_0000,
        -0x8000_0000 <= y <= 0x8000_0000,
    ensures
        r as int == bearing(x as int, y as int),
{
    let ax: i64 = if x < 0 { -x } else { x };
    let ay: i64 = if y < 0 { -y } else { y };
    let base: i64 = if ax == 0 && ay == 0 {
        0
    } else if ay <= ax {
        assert(0 <= (ay as int) * (ONE as int) / (ax as int) <= ONE) by (nonlinear_arith)
            requires
                0 <= ay <= ax,
                ax > 0,
        {
            vstd::arithmetic::div_mod::lemma_div_is_ordered((ay as int) * (ONE as int), (ax as int) * (ONE as int), ax as int);
            vstd::arithmetic::div_mod::lemma_div_by_multiple(ONE as int, ax as int);
        }
        arc_tangent_exec(ay * ONE / ax)
    } else {
        assert(0 <= (ax as int) * (ONE as int) / (ay as int) <= ONE) by (nonlinear_arith)
            requires
                0 <= ax < ay,
        {
            vstd::arithmetic::div_mod::lemma_div_is_ordered((ax as int) * (ONE as int), (ay as int) * (ONE as int), ay as int);
            vstd::arithmetic::div_mod::lemma_div_by_multiple(ONE as int, ay as int);
        }
        2 * EIGHTH - arc_tangent_exec(ax * ONE / ay)
    };
    let turned: i64 = if x >= 0 && y >= 0 {
        base
    } else if x < 0 && y >= 0 {
        4 * EIGHTH - base
    } else if x < 0 {
        4 * EIGHTH + base
    } else {
        8 * EIGHTH - base
    };
    if turned == TURN as i64 {
        assert(wrap(TURN as int) == 0);
        0
    } else {
        wrap_add(0, turned)
    }
}

} // verus!
