//! Fixed-point plane geometry: positions and directions are `i64` values in
//! milli-units (one world unit is 1000).  A unit direction vector has
//! squared length close to `UNIT * UNIT`.

use vstd::arithmetic::div_mod::{
    lemma_div_is_ordered, lemma_div_multiples_vanish, lemma_div_pos_is_pos,
    lemma_fundamental_div_mod,
};
use vstd::arithmetic::mul::lemma_mul_inequality;
use vstd::prelude::*;

verus! {

/// One world unit, in milli-units: the fixed-point scale of the library.
pub const UNIT: i64 = 1000;

/// A point or direction in the plane, in milli-units.
#[derive(Clone, Copy, PartialEq, Eq, Structural, Debug)]
pub struct Vec2 {
    pub x: i64,
    pub y: i64,
}

/// Helper for `floor_sqrt`: the least `r >= lo` with `(r+1)*(r+1) > s`.
pub open spec fn fsqrt_from(s: nat, lo: nat) -> nat
    decreases s - lo * lo,
    via fsqrt_from_dec
{
    if (lo + 1) * (lo + 1) <= s {
        fsqrt_from(s, lo + 1)
    } else {
        lo
    }
}

#[via_fn]
proof fn fsqrt_from_dec(s: nat, lo: nat) {
    if (lo + 1) * (lo + 1) <= s {
        assert(lo * lo < (lo + 1) * (lo + 1)) by (nonlinear_arith);
    }
}

/// The integer square root: the greatest `r` with `r*r <= s`.
pub open spec fn floor_sqrt(s: nat) -> nat {
    fsqrt_from(s, 0)
}

proof fn lemma_fsqrt_from(s: nat, lo: nat)
    requires
        lo * lo <= s,
    ensures
        fsqrt_from(s, lo) * fsqrt_from(s, lo) <= s,
        s < (fsqrt_from(s, lo) + 1) * (fsqrt_from(s, lo) + 1),
        lo <= fsqrt_from(s, lo),
    decreases s - lo * lo,
{
    if (lo + 1) * (lo + 1) <= s {
        assert(lo * lo < (lo + 1) * (lo + 1)) by (nonlinear_arith);
        lemma_fsqrt_from(s, lo + 1);
    }
}

/// `floor_sqrt` is what its name says.
pub proof fn lemma_floor_sqrt(s: nat)
    ensures
        floor_sqrt(s) * floor_sqrt(s) <= s,
        s < (floor_sqrt(s) + 1) * (floor_sqrt(s) + 1),
{
    lemma_fsqrt_from(s, 0);
}

/// Runtime integer square root, for squared lengths of direction-sized
/// vectors.
pub fn isqrt(s: u64) -> (r: u64)
    requires
        s <= 200_000_000,
    ensures
        r == floor_sqrt(s as nat),
        r * r <= s < (r + 1) * (r + 1),
        r <= 14_142,
{
    let mut r: u64 = 0;
    loop
        invariant
            s <= 200_000_000,
            r * r <= s,
            r <= 14_142,
            fsqrt_from(s as nat, 0) == fsqrt_from(s as nat, r as nat),
        ensures
            r * r <= s,
            s < (r + 1) * (r + 1),
            r <= 14_142,
            fsqrt_from(s as nat, 0) == fsqrt_from(s as nat, r as nat),
        decreases 14_143 - r,
    {
        proof {
            assert((r as int + 1) * (r as int + 1) <= 14_143 * 14_143) by (nonlinear_arith)
                requires
                    r <= 14_142,
            ;
        }
        let sq: u64 = (r + 1) * (r + 1);
        if sq <= s {
            proof {
                if r >= 14_142 {
                    assert(14_143 * 14_143 > 200_000_000int) by (nonlinear_arith);
                    assert((r as int + 1) * (r as int + 1) >= 14_143 * 14_143)
                        by (nonlinear_arith)
                        requires
                            r >= 14_142,
                    ;
                }
            }
            r = r + 1;
        } else {
            break;
        }
    }
    proof {
        lemma_floor_sqrt(s as nat);
    }
    r
}

/// One component of a vector scaled to unit length `UNIT` by the vector's
/// integer length `l`, truncating toward zero.
pub open spec fn norm_comp(v: int, l: int) -> int {
    if v >= 0 {
        (v * 1000) / l
    } else {
        -(((-v) * 1000) / l)
    }
}

/// The x component of the normalized form of `(x, y)`; the zero vector is
/// left as it is.
pub open spec fn norm_x(x: int, y: int) -> int {
    if x == 0 && y == 0 {
        0
    } else {
        norm_comp(x, floor_sqrt((x * x + y * y) as nat) as int)
    }
}

/// The y component of the normalized form of `(x, y)`.
pub open spec fn norm_y(x: int, y: int) -> int {
    if x == 0 && y == 0 {
        0
    } else {
        norm_comp(y, floor_sqrt((x * x + y * y) as nat) as int)
    }
}

/// Scale `(x, y)` to a vector of length close to `UNIT`; the zero vector
/// stays the zero vector rather than failing on a division by zero.
pub fn normalize(x: i64, y: i64) -> (r: Vec2)
    requires
        -10_000 <= x <= 10_000,
        -10_000 <= y <= 10_000,
    ensures
        r.x == norm_x(x as int, y as int),
        r.y == norm_y(x as int, y as int),
        -1000 <= r.x <= 1000,
        -1000 <= r.y <= 1000,
        (x == 0 && y == 0) ==> r.x == 0 && r.y == 0,
        x >= 0 ==> r.x >= 0,
        x <= 0 ==> r.x <= 0,
        y >= 0 ==> r.y >= 0,
        y <= 0 ==> r.y <= 0,
{
    if x == 0 && y == 0 {
        return Vec2 { x: 0, y: 0 };
    }
    let px: u64 = if x < 0 {
        (-x) as u64
    } else {
        x as u64
    };
    let py: u64 = if y < 0 {
        (-y) as u64
    } else {
        y as u64
    };
    proof {
        assert(px * px <= 100_000_000 && py * py <= 100_000_000) by (nonlinear_arith)
            requires
                px <= 10_000,
                py <= 10_000,
        ;
    }
    proof {
        assert(px * px == x * x && py * py == y * y) by (nonlinear_arith)
            requires
                px == x || px as int == -(x as int),
                py == y || py as int == -(y as int),
        ;
        assert(px * px + py * py >= 1) by (nonlinear_arith)
            requires
                px >= 1 || py >= 1,
        ;
    }
    let s: u64 = px * px + py * py;
    let l: u64 = isqrt(s);
    proof {
        assert(l >= 1) by (nonlinear_arith)
            requires
                s >= 1,
                s < (l + 1) * (l + 1),
        ;
        assert(px <= l && py <= l) by (nonlinear_arith)
            requires
                px * px <= s,
                py * py <= s,
                s < (l + 1) * (l + 1),
        ;
        lemma_div_is_ordered((px * 1000) as int, (l * 1000) as int, l as int);
        lemma_div_is_ordered((py * 1000) as int, (l * 1000) as int, l as int);
        lemma_div_multiples_vanish(1000, l as int);
    }
    let nx: u64 = px * 1000 / l;
    let ny: u64 = py * 1000 / l;
    let rx: i64 = if x < 0 {
        -(nx as i64)
    } else {
        nx as i64
    };
    let ry: i64 = if y < 0 {
        -(ny as i64)
    } else {
        ny as i64
    };
    Vec2 { x: rx, y: ry }
}

/// `v * m * dt / 1000`, truncating toward zero: the displacement over `dt`
/// milliseconds of a direction component `v` (milli-units) at speed `m`
/// (units per second).
pub open spec fn scaled_spec(v: int, m: int, dt: int) -> int {
    if v >= 0 {
        (v * m * dt) / 1000
    } else {
        -((((-v) * m * dt)) / 1000)
    }
}

/// Runtime form of `scaled_spec`, the movement step of one axis.
pub fn scaled(v: i64, m: i64, dt: i64) -> (r: i64)
    requires
        -10_000 <= v <= 10_000,
        0 <= m <= 10_000,
        0 <= dt <= 1_000_000,
    ensures
        r == scaled_spec(v as int, m as int, dt as int),
        -100_000_000_000 <= r <= 100_000_000_000,
{
    let mag: u64 = if v < 0 {
        (-v) as u64
    } else {
        v as u64
    };
    proof {
        assert(mag * (m as u64) <= 100_000_000) by (nonlinear_arith)
            requires
                mag <= 10_000,
                0 <= m <= 10_000,
        ;
        assert(mag * (m as u64) * (dt as u64) <= 100_000_000_000_000) by (nonlinear_arith)
            requires
                mag * (m as u64) <= 100_000_000,
                0 <= dt <= 1_000_000,
        ;
    }
    let prod: u64 = mag * (m as u64) * (dt as u64);
    let q: u64 = prod / 1000;
    if v < 0 {
        -(q as i64)
    } else {
        q as i64
    }
}

/// Normalization yields a vector of near-unit length: for any input at
/// least a tenth of a unit long, the squared length of the normalized
/// vector lies within about two percent of `UNIT * UNIT`.  (The zero
/// vector stays zero by `normalize`'s own contract; a tiny input such as
/// `(1, 1)` is normalized with a coarser rounding error and is outside
/// this statement.)
pub proof fn lemma_normalize_near_unit(x: int, y: int)
    requires
        -10_000 <= x <= 10_000,
        -10_000 <= y <= 10_000,
        x * x + y * y >= 10_000,
    ensures
        996_000 <= norm_x(x, y) * norm_x(x, y) + norm_y(x, y) * norm_y(x, y) <= 1_021_000,
{
    let s = x * x + y * y;
    lemma_floor_sqrt(s as nat);
    let l = floor_sqrt(s as nat) as int;
    assert(l >= 100) by {
        if l <= 99 {
            assert((l + 1) * (l + 1) <= 100 * 100) by (nonlinear_arith)
                requires
                    0 <= l <= 99,
            ;
        }
    }
    let px = if x >= 0 { x } else { -x };
    let py = if y >= 0 { y } else { -y };
    assert(px * px == x * x && py * py == y * y) by (nonlinear_arith)
        requires
            px == x || px == -x,
            py == y || py == -y,
    ;
    let dx = (px * 1000) / l;
    let dy = (py * 1000) / l;
    lemma_fundamental_div_mod(px * 1000, l);
    lemma_fundamental_div_mod(py * 1000, l);
    let rx = (px * 1000) % l;
    let ry = (py * 1000) % l;
    lemma_div_pos_is_pos(px * 1000, l);
    lemma_div_pos_is_pos(py * 1000, l);
    assert(norm_x(x, y) * norm_x(x, y) == dx * dx && norm_y(x, y) * norm_y(x, y) == dy * dy)
        by (nonlinear_arith)
        requires
            norm_x(x, y) == dx || norm_x(x, y) == -dx,
            norm_y(x, y) == dy || norm_y(x, y) == -dy,
    ;
    let t = dx * dx + dy * dy;
    // Ring identities used on both sides of the estimate.
    assert((l * dx) * (l * dx) == (dx * dx) * (l * l)) by (nonlinear_arith);
    assert((l * dy) * (l * dy) == (dy * dy) * (l * l)) by (nonlinear_arith);
    assert((1000 * px) * (1000 * px) == 1_000_000 * (px * px)) by (nonlinear_arith);
    assert((1000 * py) * (1000 * py) == 1_000_000 * (py * py)) by (nonlinear_arith);
    assert((dx * dx + dy * dy) * (l * l) == (dx * dx) * (l * l) + (dy * dy) * (l * l))
        by (nonlinear_arith);
    assert((l + 1) * (l + 1) == l * l + 2 * l + 1) by (nonlinear_arith);
    // Upper bound: truncation only shrinks each component.
    assert(0 <= l * dx && l * dx <= 1000 * px);
    assert(0 <= l * dy && l * dy <= 1000 * py);
    lemma_sq_le(l * dx, 1000 * px);
    lemma_sq_le(l * dy, 1000 * py);
    assert(t * (l * l) <= 1_000_000 * s);
    assert(s <= l * l + 2 * l);
    assert(t * (l * l) <= 1_000_000 * (l * l) + 2_000_000 * l);
    assert(100 * l <= l * l) by {
        lemma_mul_inequality(100, l, l);
    }
    if t > 1_021_000 {
        lemma_mul_inequality(1_021_001, t, l * l);
        assert(1_021_001 * (l * l) <= 1_000_000 * (l * l) + 2_000_000 * l);
        assert(21_001 * (l * l) <= 2_000_000 * l);
        assert(21_001 * (100 * l) <= 21_001 * (l * l));
        assert(2_100_100 * l <= 2_000_000 * l);
        assert(false);
    }
    // Lower bound: each component loses less than one count of l.
    assert((1000 * px - rx) * (1000 * px - rx) == 1_000_000 * (px * px) - 2 * ((1000 * px) * rx)
        + rx * rx) by (nonlinear_arith);
    assert((1000 * py - ry) * (1000 * py - ry) == 1_000_000 * (py * py) - 2 * ((1000 * py) * ry)
        + ry * ry) by (nonlinear_arith);
    assert(rx * rx >= 0 && ry * ry >= 0) by (nonlinear_arith);
    assert((1000 * px) * rx <= (1000 * px) * l) by {
        lemma_mul_inequality(rx, l, 1000 * px);
        assert(rx * (1000 * px) == (1000 * px) * rx) by (nonlinear_arith);
        assert(l * (1000 * px) == (1000 * px) * l) by (nonlinear_arith);
    }
    assert((1000 * py) * ry <= (1000 * py) * l) by {
        lemma_mul_inequality(ry, l, 1000 * py);
        assert(ry * (1000 * py) == (1000 * py) * ry) by (nonlinear_arith);
        assert(l * (1000 * py) == (1000 * py) * l) by (nonlinear_arith);
    }
    assert(l * dx == 1000 * px - rx && l * dy == 1000 * py - ry);
    assert((dx * dx) * (l * l) >= 1_000_000 * (px * px) - 2 * ((1000 * px) * l));
    assert((dy * dy) * (l * l) >= 1_000_000 * (py * py) - 2 * ((1000 * py) * l));
    assert((1000 * px) * l == 1000 * (px * l)) by (nonlinear_arith);
    assert((1000 * py) * l == 1000 * (py * l)) by (nonlinear_arith);
    assert(t * (l * l) >= 1_000_000 * s - 2000 * (px * l) - 2000 * (py * l));
    // Bound px + py by the diagonal of the square of side l + 1.
    assert((px + py) * (px + py) == px * px + 2 * (px * py) + py * py) by (nonlinear_arith);
    assert(2 * (px * py) <= px * px + py * py) by {
        assert((px - py) * (px - py) >= 0) by (nonlinear_arith);
        assert((px - py) * (px - py) == px * px - 2 * (px * py) + py * py) by (nonlinear_arith);
    }
    assert((px + py) * (px + py) <= 2 * s);
    assert(2 * (px + py) <= 3 * l + 4) by {
        if 2 * (px + py) >= 3 * l + 5 {
            assert(px + py >= 0);
            lemma_sq_le(3 * l + 5, 2 * (px + py));
            assert((2 * (px + py)) * (2 * (px + py)) == 4 * ((px + py) * (px + py)))
                by (nonlinear_arith);
            assert((3 * l + 5) * (3 * l + 5) == 9 * (l * l) + 30 * l + 25) by (nonlinear_arith);
            assert(9 * (l * l) + 30 * l + 25 <= 8 * s);
            assert(8 * s <= 8 * (l * l) + 16 * l);
            assert(l * l + 14 * l + 25 <= 0);
            assert(false);
        }
    }
    assert(2000 * (px * l) + 2000 * (py * l) <= 3000 * (l * l) + 4000 * l) by {
        assert(px * l + py * l == (px + py) * l) by (nonlinear_arith);
        lemma_mul_inequality(2 * (px + py), 3 * l + 4, l);
        assert((2 * (px + py)) * l == 2 * ((px + py) * l)) by (nonlinear_arith);
        assert((3 * l + 4) * l == 3 * (l * l) + 4 * l) by (nonlinear_arith);
        assert(2 * ((px + py) * l) <= 3 * (l * l) + 4 * l);
        assert(2000 * (px * l) + 2000 * (py * l) == 1000 * (2 * ((px + py) * l)))
            by (nonlinear_arith);
    }
    assert(1_000_000 * s >= 1_000_000 * (l * l));
    assert(t * (l * l) >= 997_000 * (l * l) - 4000 * l);
    if t < 996_000 {
        lemma_mul_inequality(t, 995_999, l * l);
        assert(995_999 * (l * l) >= 997_000 * (l * l) - 4000 * l);
        assert(1001 * (l * l) <= 4000 * l);
        assert(1001 * (100 * l) <= 1001 * (l * l));
        assert(100_100 * l <= 4000 * l);
        assert(false);
    }
}

/// `0 <= a <= b` gives `a * a <= b * b`.
proof fn lemma_sq_le(a: int, b: int)
    requires
        0 <= a <= b,
    ensures
        a * a <= b * b,
{
    lemma_mul_inequality(a, b, a);
    lemma_mul_inequality(a, b, b);
    assert(a * a == a * a && b * a == a * b) by (nonlinear_arith);
}

/// The defensive zero-direction case yields no movement at all: a zero
/// component moves its axis by nothing, whatever the speed and time.
pub proof fn lemma_zero_direction_no_movement(p: Vec2, speed: int, dt: int)
    ensures
        moved_x(p, Vec2 { x: 0, y: 0 }, speed, dt) == p.x,
        moved_y(p, Vec2 { x: 0, y: 0 }, speed, dt) == p.y,
{
    assert(scaled_spec(0, speed, dt) == 0) by {
        assert(0 * speed * dt == 0) by (nonlinear_arith);
    }
}

/// `v` has near-unit length: its squared length lies within about two
/// percent of `UNIT * UNIT`.
pub open spec fn near_unit(v: Vec2) -> bool {
    996_000 <= v.x * v.x + v.y * v.y <= 1_021_000
}

/// The sine approximation stays within the unit scale on its half-turn.
proof fn lemma_bhaskara_range(x: int)
    requires
        0 <= x <= 180_000,
    ensures
        0 <= bhaskara_spec(x) <= 1000,
{
    let t = x * (180_000 - x);
    assert(x * (180_000 - x) >= 0) by (nonlinear_arith)
        requires
            0 <= x <= 180_000,
    ;
    assert(x * (180_000 - x) <= 8_100_000_000) by (nonlinear_arith)
        requires
            0 <= x <= 180_000,
    ;
    let den = 40_500_000_000 - t;
    lemma_div_pos_is_pos(4000 * t, den);
    lemma_div_is_ordered(4000 * t, 1000 * den, den);
    lemma_div_multiples_vanish(1000, den);
}

/// Within a third of a half-turn of the crest, the sine approximation is
/// at least half the unit.
proof fn lemma_bhaskara_lower(x: int)
    requires
        30_000 <= x <= 150_000,
    ensures
        bhaskara_spec(x) >= 500,
{
    let t = x * (180_000 - x);
    assert((x - 30_000) * (150_000 - x) >= 0) by (nonlinear_arith)
        requires
            30_000 <= x <= 150_000,
    ;
    assert((x - 30_000) * (150_000 - x) == x * (180_000 - x) - 4_500_000_000)
        by (nonlinear_arith);
    assert(x * (180_000 - x) <= 8_100_000_000) by (nonlinear_arith)
        requires
            0 <= x <= 180_000,
    ;
    let den = 40_500_000_000 - t;
    lemma_div_is_ordered(500 * den, 4000 * t, den);
    lemma_div_multiples_vanish(500, den);
}

/// For every heading angle, the vector `(cos a, sin a)` read off the
/// integer trigonometry has magnitude at least half a unit — one of the
/// two components is always at least 500 — so the zero-vector case never
/// arises for a heading, and its normalized form has near-unit length.
pub proof fn lemma_heading_near_unit(a: int)
    requires
        0 <= a < 360_000,
    ensures
        996_000 <= heading_x(a) * heading_x(a) + heading_y(a) * heading_y(a) <= 1_021_000,
{
    let s = sin_mdeg_spec(a);
    let c = cos_mdeg_spec(a);
    let b = if a + 90_000 < 360_000 {
        a + 90_000
    } else {
        a + 90_000 - 360_000
    };
    if a < 180_000 {
        lemma_bhaskara_range(a);
    } else {
        lemma_bhaskara_range(a - 180_000);
    }
    if b < 180_000 {
        lemma_bhaskara_range(b);
    } else {
        lemma_bhaskara_range(b - 180_000);
    }
    assert(-1000 <= s <= 1000 && -1000 <= c <= 1000);
    if 30_000 <= a <= 150_000 {
        lemma_bhaskara_lower(a);
        assert(s >= 500);
    } else if 210_000 <= a <= 330_000 {
        lemma_bhaskara_lower(a - 180_000);
        assert(s <= -500);
    } else if a < 30_000 {
        lemma_bhaskara_lower(b);
        assert(c >= 500);
    } else if a < 210_000 {
        lemma_bhaskara_lower(b - 180_000);
        assert(c <= -500);
    } else {
        lemma_bhaskara_lower(b);
        assert(c >= 500);
    }
    assert(s * s >= 0 && c * c >= 0) by (nonlinear_arith);
    assert(c * c + s * s >= 250_000) by (nonlinear_arith)
        requires
            s >= 500 || s <= -500 || c >= 500 || c <= -500,
            s * s >= 0,
            c * c >= 0,
    ;
    lemma_normalize_near_unit(c, s);
}

/// The x position of `p` after moving along `d` at `speed` units per
/// second for `dt` milliseconds.
pub open spec fn moved_x(p: Vec2, d: Vec2, speed: int, dt: int) -> int {
    p.x + scaled_spec(d.x as int, speed, dt)
}

/// The y position of `p` after the same movement step.
pub open spec fn moved_y(p: Vec2, d: Vec2, speed: int, dt: int) -> int {
    p.y + scaled_spec(d.y as int, speed, dt)
}

/// `v` constrained into `[lo, hi]`.
pub open spec fn clamp_spec(v: int, lo: int, hi: int) -> int {
    if v < lo {
        lo
    } else if v > hi {
        hi
    } else {
        v
    }
}

/// Runtime form of `clamp_spec`.
pub fn clamp(v: i64, lo: i64, hi: i64) -> (r: i64)
    requires
        lo <= hi,
    ensures
        r == clamp_spec(v as int, lo as int, hi as int),
        lo <= r <= hi,
{
    if v < lo {
        lo
    } else if v > hi {
        hi
    } else {
        v
    }
}

/// Circle overlap: the centres are strictly closer than the sum of the
/// radii, stated over squared distances so no square root is needed.
pub open spec fn circles_collide_spec(a: Vec2, b: Vec2, ra: int, rb: int) -> bool {
    (a.x - b.x) * (a.x - b.x) + (a.y - b.y) * (a.y - b.y) < (ra + rb) * (ra + rb)
}

/// Runtime circle-overlap test.
pub fn circles_collide(a: Vec2, b: Vec2, ra: i64, rb: i64) -> (r: bool)
    requires
        -100_000_000_000_000 <= a.x <= 100_000_000_000_000,
        -100_000_000_000_000 <= a.y <= 100_000_000_000_000,
        -100_000_000_000_000 <= b.x <= 100_000_000_000_000,
        -100_000_000_000_000 <= b.y <= 100_000_000_000_000,
        0 <= ra <= 1_000_000,
        0 <= rb <= 1_000_000,
    ensures
        r == circles_collide_spec(a, b, ra as int, rb as int),
{
    let dx: i128 = a.x as i128 - b.x as i128;
    let dy: i128 = a.y as i128 - b.y as i128;
    let rr: i128 = ra as i128 + rb as i128;
    proof {
        assert(dx * dx <= 40_000_000_000_000_000_000_000_000_000 && dx * dx >= 0)
            by (nonlinear_arith)
            requires
                -200_000_000_000_000 <= dx <= 200_000_000_000_000,
        ;
        assert(dy * dy <= 40_000_000_000_000_000_000_000_000_000 && dy * dy >= 0)
            by (nonlinear_arith)
            requires
                -200_000_000_000_000 <= dy <= 200_000_000_000_000,
        ;
        assert(rr * rr <= 4_000_000_000_000 && rr * rr >= 0) by (nonlinear_arith)
            requires
                0 <= rr <= 2_000_000,
        ;
    }
    dx * dx + dy * dy < rr * rr
}

/// Bhaskara's rational sine approximation on `[0, 180]` degrees, carried in
/// milli-degrees and scaled so that a right angle gives exactly `UNIT`.
pub open spec fn bhaskara_spec(x: int) -> int {
    let t = x * (180_000 - x);
    (4000 * t) / (40_500_000_000 - t)
}

/// Sine of an angle in `[0, 360)` degrees, in milli-degrees, scaled by
/// `UNIT`.
pub open spec fn sin_mdeg_spec(a: int) -> int {
    if a < 180_000 {
        bhaskara_spec(a)
    } else {
        -bhaskara_spec(a - 180_000)
    }
}

/// Cosine, as the sine shifted by a right angle.
pub open spec fn cos_mdeg_spec(a: int) -> int {
    sin_mdeg_spec(
        if a + 90_000 < 360_000 {
            a + 90_000
        } else {
            a + 90_000 - 360_000
        },
    )
}

fn bhaskara(x: u64) -> (r: u64)
    requires
        x <= 180_000,
    ensures
        r == bhaskara_spec(x as int),
        r <= 1000,
{
    proof {
        assert(x * (180_000 - x) <= 8_100_000_000) by (nonlinear_arith)
            requires
                x <= 180_000,
        ;
    }
    let t: u64 = x * (180_000 - x);
    let num: u64 = 4000 * t;
    let den: u64 = 40_500_000_000 - t;
    proof {
        lemma_div_is_ordered(num as int, (1000 * den) as int, den as int);
        lemma_div_multiples_vanish(1000, den as int);
    }
    num / den
}

/// Runtime sine in milli-degrees; the result is a fixed-point scalar in
/// `[-UNIT, UNIT]`.
pub fn sin_mdeg(a: i64) -> (r: i64)
    requires
        0 <= a < 360_000,
    ensures
        r == sin_mdeg_spec(a as int),
        -1000 <= r <= 1000,
{
    if a < 180_000 {
        bhaskara(a as u64) as i64
    } else {
        -(bhaskara((a - 180_000) as u64) as i64)
    }
}

/// Runtime cosine in milli-degrees.
pub fn cos_mdeg(a: i64) -> (r: i64)
    requires
        0 <= a < 360_000,
    ensures
        r == cos_mdeg_spec(a as int),
        -1000 <= r <= 1000,
{
    let b: i64 = if a + 90_000 < 360_000 {
        a + 90_000
    } else {
        a + 90_000 - 360_000
    };
    sin_mdeg(b)
}

/// The x component of the near-unit heading vector `(cos a, sin a)` after
/// normalization.
pub open spec fn heading_x(a: int) -> int {
    norm_x(cos_mdeg_spec(a), sin_mdeg_spec(a))
}

/// The y component of the near-unit heading vector `(cos a, sin a)` after
/// normalization.
pub open spec fn heading_y(a: int) -> int {
    norm_y(cos_mdeg_spec(a), sin_mdeg_spec(a))
}

/// The movement direction read off a heading angle: `(cos a, sin a)`,
/// normalized, as the thrust and laser directions are formed.
pub fn heading_dir(a: i64) -> (r: Vec2)
    requires
        0 <= a < 360_000,
    ensures
        r.x == heading_x(a as int),
        r.y == heading_y(a as int),
        -1000 <= r.x <= 1000,
        -1000 <= r.y <= 1000,
{
    let c: i64 = cos_mdeg(a);
    let s: i64 = sin_mdeg(a);
    normalize(c, s)
}

/// An angle folded into `[0, 360)` degrees after a rotation step `d` is
/// added, in milli-degrees.
pub fn wrap_add(a: i64, d: i64) -> (r: i64)
    requires
        0 <= a < 360_000,
        -100_000_000 <= d <= 100_000_000,
    ensures
        r == (a + d) % 360_000,
        0 <= r < 360_000,
{
    proof {
        vstd::arithmetic::div_mod::lemma_mod_multiples_vanish(279, (a + d) as int, 360_000);
    }
    let mut r: i64 = a + d + 100_440_000;
    while r >= 360_000
        invariant
            0 <= r <= 200_800_000,
            r % 360_000 == (a + d) % 360_000,
        decreases r,
    {
        proof {
            vstd::arithmetic::div_mod::lemma_mod_sub_multiples_vanish(r as int, 360_000);
        }
        r = r - 360_000;
    }
    proof {
        vstd::arithmetic::div_mod::lemma_small_mod(r as nat, 360_000);
    }
    r
}

} // verus!
