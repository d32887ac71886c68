//! Points, the interpolation factor, and the per-point lerp primitives.

use vstd::prelude::*;

verus! {

/// A 2D point with fixed-point integer coordinates.
///
/// The host picks the scale (how many integer sub-units make one drawing
/// unit) and converts at its edge; everything in this crate is exact
/// integer arithmetic on these coordinates.
#[derive(Clone, Copy, Debug, PartialEq, Eq, Structural)]
pub struct Point {
    pub x: i32,
    pub y: i32,
}

/// The interpolation factor `t`, a rational `num / den` in `[0, 1]`.
#[derive(Clone, Copy, Debug, PartialEq, Eq, Structural)]
pub struct Fraction {
    pub num: u32,
    pub den: u32,
}

impl Fraction {
    /// `num / den` names a factor in `[0, 1]`.
    pub open spec fn valid(self) -> bool {
        1 <= self.den && self.num <= self.den
    }

    /// Builds a factor, rejecting a zero denominator and anything above 1.
    pub fn new(num: u32, den: u32) -> (r: Option<Fraction>)
        ensures
            r is Some <==> (1 <= den && num <= den),
            r is Some ==> r->0 == (Fraction { num, den }),
    {
        if 1 <= den && num <= den {
            Some(Fraction { num, den })
        } else {
            None
        }
    }
}

/// Linear interpolation of one coordinate: `a + (b - a) * num / den`,
/// with the division truncating toward `a` so the result never leaves
/// the closed interval between `a` and `b`.
pub open spec fn lerp_val(a: int, b: int, num: int, den: int) -> int {
    if b >= a {
        a + (b - a) * num / den
    } else {
        a - (a - b) * num / den
    }
}

/// The interpolated value lies between the endpoints; at `num == 0` it is
/// the source and at `num == den` it is exactly the target.
pub proof fn lemma_lerp_val_bounds(a: int, b: int, num: int, den: int)
    requires
        1 <= den,
        0 <= num <= den,
    ensures
        b >= a ==> a <= lerp_val(a, b, num, den) <= b,
        b < a ==> b <= lerp_val(a, b, num, den) <= a,
        num == 0 ==> lerp_val(a, b, num, den) == a,
        num == den ==> lerp_val(a, b, num, den) == b,
{
    if b >= a {
        let d = b - a;
        assert(0 <= d * num / den <= d) by (nonlinear_arith)
            requires
                0 <= d,
                0 <= num <= den,
                1 <= den,
        ;
        assert(num == 0 ==> d * num / den == 0) by (nonlinear_arith)
            requires
                1 <= den,
        ;
        assert(num == den ==> d * num / den == d) by (nonlinear_arith)
            requires
                0 <= d,
                1 <= den,
        ;
    } else {
        let d = a - b;
        assert(0 <= d * num / den <= d) by (nonlinear_arith)
            requires
                0 <= d,
                0 <= num <= den,
                1 <= den,
        ;
        assert(num == 0 ==> d * num / den == 0) by (nonlinear_arith)
            requires
                1 <= den,
        ;
        assert(num == den ==> d * num / den == d) by (nonlinear_arith)
            requires
                0 <= d,
                1 <= den,
        ;
    }
}

/// One coordinate of the executable lerp.
fn lerp_i32(a: i32, b: i32, t: Fraction) -> (r: i32)
    requires
        t.valid(),
    ensures
        r as int == lerp_val(a as int, b as int, t.num as int, t.den as int),
{
    proof {
        lemma_lerp_val_bounds(a as int, b as int, t.num as int, t.den as int);
    }
    if b >= a {
        let diff: u64 = (b as i64 - a as i64) as u64;
        proof {
            assert(diff as int * t.num as int <= 0xffffffffffffffff) by (nonlinear_arith)
                requires
                    diff <= 0xffffffffu64,
                    t.num <= 0xffffffffu32,
            ;
        }
        let step: u64 = ((diff as u128 * t.num as u128) / (t.den as u128)) as u64;
        (a as i64 + step as i64) as i32
    } else {
        let diff: u64 = (a as i64 - b as i64) as u64;
        proof {
            assert(diff as int * t.num as int <= 0xffffffffffffffff) by (nonlinear_arith)
                requires
                    diff <= 0xffffffffu64,
                    t.num <= 0xffffffffu32,
            ;
        }
        let step: u64 = ((diff as u128 * t.num as u128) / (t.den as u128)) as u64;
        (a as i64 - step as i64) as i32
    }
}

/// The interpolated point, coordinate by coordinate.
pub open spec fn lerp_pt(p: Point, q: Point, num: int, den: int) -> Point {
    Point {
        x: lerp_val(p.x as int, q.x as int, num, den) as i32,
        y: lerp_val(p.y as int, q.y as int, num, den) as i32,
    }
}

/// Squared Euclidean distance between two points.
pub open spec fn dist_sq(p: Point, q: Point) -> int {
    (p.x - q.x) * (p.x - q.x) + (p.y - q.y) * (p.y - q.y)
}

/// A point has arrived when its Euclidean distance to the target is at
/// most the margin; stated over squares, which keeps it exact.
pub open spec fn within_margin(p: Point, q: Point, margin: int) -> bool {
    dist_sq(p, q) <= margin * margin
}

/// A point is within margin of itself, for any margin.
pub proof fn lemma_within_margin_self(p: Point, margin: int)
    requires
        0 <= margin,
    ensures
        within_margin(p, p, margin),
{
    assert(0 <= margin * margin) by (nonlinear_arith)
        requires
            0 <= margin,
    ;
}

/// Widening the margin never loses convergence of a point.
pub proof fn lemma_within_margin_monotone(p: Point, q: Point, m1: int, m2: int)
    requires
        0 <= m1 <= m2,
        within_margin(p, q, m1),
    ensures
        within_margin(p, q, m2),
{
    assert(m1 * m1 <= m2 * m2) by (nonlinear_arith)
        requires
            0 <= m1 <= m2,
    ;
}

/// Whether the raw lerp of `p` toward `q` lands within `margin` of `q`.
pub open spec fn point_snaps(p: Point, q: Point, num: int, den: int, margin: int) -> bool {
    within_margin(lerp_pt(p, q, num, den), q, margin)
}

/// The checked lerp: the exact target once within margin, else the raw lerp.
pub open spec fn checked_lerp_pt(p: Point, q: Point, num: int, den: int, margin: int) -> Point {
    if point_snaps(p, q, num, den, margin) {
        q
    } else {
        lerp_pt(p, q, num, den)
    }
}

/// Lerping a point onto itself stays put and counts as arrived, whatever
/// the factor and margin.
pub proof fn lemma_point_snaps_self(p: Point, num: int, den: int, margin: int)
    requires
        1 <= den,
        0 <= num <= den,
        0 <= margin,
    ensures
        lerp_pt(p, p, num, den) == p,
        point_snaps(p, p, num, den, margin),
        checked_lerp_pt(p, p, num, den, margin) == p,
{
    lemma_lerp_val_bounds(p.x as int, p.x as int, num, den);
    lemma_lerp_val_bounds(p.y as int, p.y as int, num, den);
    lemma_within_margin_self(p, margin);
}

/// At factor 1 the lerp lands exactly on the target, so it always snaps.
pub proof fn lemma_point_snaps_at_one(p: Point, q: Point, den: int, margin: int)
    requires
        1 <= den,
        0 <= margin,
    ensures
        lerp_pt(p, q, den, den) == q,
        point_snaps(p, q, den, den, margin),
        checked_lerp_pt(p, q, den, den, margin) == q,
{
    lemma_lerp_val_bounds(p.x as int, q.x as int, den, den);
    lemma_lerp_val_bounds(p.y as int, q.y as int, den, den);
    lemma_within_margin_self(q, margin);
}

/// At factor 0 the raw lerp is the source point, so the checked lerp
/// keeps the source wherever it has not yet arrived.
pub proof fn lemma_point_at_zero(p: Point, q: Point, den: int, margin: int)
    requires
        1 <= den,
    ensures
        lerp_pt(p, q, 0, den) == p,
        point_snaps(p, q, 0, den, margin) == within_margin(p, q, margin),
        !within_margin(p, q, margin) ==> checked_lerp_pt(p, q, 0, den, margin) == p,
{
    lemma_lerp_val_bounds(p.x as int, q.x as int, 0, den);
    lemma_lerp_val_bounds(p.y as int, q.y as int, 0, den);
}

/// Widening the margin never loses the snap of a point.
pub proof fn lemma_point_snaps_monotone(p: Point, q: Point, num: int, den: int, m1: int, m2: int)
    requires
        0 <= m1 <= m2,
        point_snaps(p, q, num, den, m1),
    ensures
        point_snaps(p, q, num, den, m2),
{
    lemma_within_margin_monotone(lerp_pt(p, q, num, den), q, m1, m2);
}

/// Interpolates `p` toward `q` by the factor `t`.  Pure and total; the
/// result lies in the rectangle spanned by the two points.
pub fn lerp_point(p: Point, q: Point, t: Fraction) -> (r: Point)
    requires
        t.valid(),
    ensures
        r == lerp_pt(p, q, t.num as int, t.den as int),
{
    proof {
        lemma_lerp_val_bounds(p.x as int, q.x as int, t.num as int, t.den as int);
        lemma_lerp_val_bounds(p.y as int, q.y as int, t.num as int, t.den as int);
    }
    Point { x: lerp_i32(p.x, q.x, t), y: lerp_i32(p.y, q.y, t) }
}

/// Decides convergence of one point against its target.
pub fn points_within_margin(p: Point, q: Point, margin: u32) -> (r: bool)
    ensures
        r == within_margin(p, q, margin as int),
{
    let dx: i64 = p.x as i64 - q.x as i64;
    let dy: i64 = p.y as i64 - q.y as i64;
    proof {
        assert(dx * dx <= 0x10000000000000000i128 && dx * dx >= 0) by (nonlinear_arith)
            requires
                -0x100000000i64 <= dx <= 0x100000000i64,
        ;
        assert(dy * dy <= 0x10000000000000000i128 && dy * dy >= 0) by (nonlinear_arith)
            requires
                -0x100000000i64 <= dy <= 0x100000000i64,
        ;
    }
    let d2: i128 = (dx as i128) * (dx as i128) + (dy as i128) * (dy as i128);
    proof {
        assert(margin as int * margin as int <= 0xffffffffffffffff) by (nonlinear_arith)
            requires
                margin <= 0xffffffffu32,
        ;
    }
    let m2: i128 = (margin as i128) * (margin as i128);
    d2 <= m2
}

/// Interpolates `p` toward `q` and snaps exactly onto `q` once the lerped
/// point is within `margin` of it; the flag reports the snap.  Snapping
/// to the exact target prevents the asymptotic drift of naive repeated
/// lerping, which approaches but never reaches the target.
pub fn lerp_point_checked(p: Point, q: Point, t: Fraction, margin: u32) -> (r: (Point, bool))
    requires
        t.valid(),
    ensures
        r.0 == checked_lerp_pt(p, q, t.num as int, t.den as int, margin as int),
        r.1 == point_snaps(p, q, t.num as int, t.den as int, margin as int),
        r.1 ==> r.0 == q,
{
    let raw = lerp_point(p, q, t);
    if points_within_margin(raw, q, margin) {
        (q, true)
    } else {
        (raw, false)
    }
}

} // verus!
