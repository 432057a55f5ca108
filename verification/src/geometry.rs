//! Exact geometric primitives on fixed-point (integer) coordinates.
//!
//! Input coordinates are `i64` values bounded by `COORD_LIMIT`, which keeps
//! every predicate below within `i64`/`i128` range. Circumcenters are
//! rational; they are returned on a grid refined by `VOR_SCALE`.

use vstd::prelude::*;

verus! {

/// Largest magnitude allowed for a coordinate of a triangulation vertex.
pub const COORD_LIMIT: i64 = 1048576;

/// Sub-grid refinement factor for Voronoi (circumcenter) coordinates: one
/// input unit is `VOR_SCALE` Voronoi units.
pub const VOR_SCALE: i64 = 1024;

/// Largest magnitude allowed for a Voronoi vertex coordinate (in Voronoi
/// units); circumcenters further out are reported as errors.
pub const CC_LIMIT: i64 = 4294967296;

/// A simple point in 2D space, on the fixed-point grid.
#[derive(Debug, Clone, Copy, PartialEq, Eq, Structural)]
pub struct Vertex2D {
    pub x: i64,
    pub y: i64,
}

impl Vertex2D {
    pub fn new(x: i64, y: i64) -> (r: Vertex2D)
        ensures
            r.x == x,
            r.y == y,
    {
        Vertex2D { x, y }
    }

    pub fn x(&self) -> (r: i64)
        ensures
            r == self.x,
    {
        self.x
    }

    pub fn y(&self) -> (r: i64)
        ensures
            r == self.y,
    {
        self.y
    }

    /// Both coordinates within `b`.
    pub open spec fn in_bounds(self, b: int) -> bool {
        -b <= self.x <= b && -b <= self.y <= b
    }
}

/// Twice the signed area of triangle (a, b, c); positive iff (a, b, c) is
/// counter-clockwise.
pub open spec fn orient2d(ax: int, ay: int, bx: int, by: int, cx: int, cy: int) -> int {
    (ax - cx) * (by - cy) - (ay - cy) * (bx - cx)
}

/// The in-circle determinant: negative when (dx, dy) lies strictly inside the
/// circle through a, b, c, provided (a, b, c) is positively oriented.
pub open spec fn in_circle(
    ax: int, ay: int, bx: int, by: int, cx: int, cy: int, dx: int, dy: int,
) -> int {
    let s1x = bx - ax;
    let s1y = by - ay;
    let s2x = cx - ax;
    let s2y = cy - ay;
    let s3x = dx - ax;
    let s3y = dy - ay;
    s1x * (s2y * (s3x * s3x + s3y * s3y) - s3y * (s2x * s2x + s2y * s2y))
        - s2x * (s1y * (s3x * s3x + s3y * s3y) - s3y * (s1x * s1x + s1y * s1y))
        + s3x * (s1y * (s2x * s2x + s2y * s2y) - s2y * (s1x * s1x + s1y * s1y))
}

/// |a * b| <= ba * bb when |a| <= ba and |b| <= bb.
pub proof fn lemma_mul_abs_bound(a: int, b: int, ba: int, bb: int)
    requires
        -ba <= a <= ba,
        -bb <= b <= bb,
    ensures
        -(ba * bb) <= a * b <= ba * bb,
{
    assert(-(ba * bb) <= a * b <= ba * bb) by (nonlinear_arith)
        requires
            -ba <= a <= ba,
            -bb <= b <= bb,
    ;
}

/// For d > 0, the Euclidean quotient is the unique q with d*q <= n < d*(q+1).
pub proof fn lemma_div_unique(n: int, d: int, q: int)
    requires
        d > 0,
        d * q <= n < d * (q + 1),
    ensures
        n / d == q,
{
    vstd::arithmetic::div_mod::lemma_fundamental_div_mod(n, d);
    assert(q == n / d) by (nonlinear_arith)
        requires
            d > 0,
            d * q <= n < d * (q + 1),
            n == d * (n / d) + n % d,
            0 <= n % d < d,
    ;
}

/// Floor division of n by a positive divisor d, exact against the Euclidean
/// quotient of the mathematical integers.
pub fn floor_div_i128(n: i128, d: i128) -> (r: i128)
    requires
        0 < d <= 0x40000000000000000000000000000000,
        -0x40000000000000000000000000000000 <= n <= 0x40000000000000000000000000000000,
    ensures
        r == n as int / d as int,
{
    let du = d as u128;
    if n >= 0 {
        let q = (n as u128) / du;
        proof {
            vstd::arithmetic::div_mod::lemma_div_nonincreasing(n as int, d as int);
        }
        q as i128
    } else {
        let m = (-n) as u128;
        let q = (m + du - 1) / du;
        proof {
            let mi = m as int;
            let di = d as int;
            let qi = q as int;
            // q is the ceiling of m / d
            vstd::arithmetic::div_mod::lemma_fundamental_div_mod(mi + di - 1, di);
            assert(di * (-qi) <= n as int && (n as int) < di * (-qi + 1)) by (nonlinear_arith)
                requires
                    di > 0,
                    mi > 0,
                    n as int == -mi,
                    mi + di - 1 == di * qi + (mi + di - 1) % di,
                    0 <= (mi + di - 1) % di < di,
            ;
            lemma_div_unique(n as int, di, -qi);
        }
        -(q as i128)
    }
}

/// Integer square root: the unique r with r*r <= n < (r+1)*(r+1).
pub fn isqrt_u128(n: u128) -> (r: u128)
    ensures
        r * r <= n,
        n < (r + 1) * (r + 1),
        r < 0x10000000000000000,
{
    let mut lo: u128 = 0;
    let mut hi: u128 = 0x10000000000000000;
    proof {
        assert(hi * hi > n) by (nonlinear_arith)
            requires
                hi == 0x10000000000000000,
                n <= u128::MAX,
        ;
    }
    while hi - lo > 1
        invariant
            lo < hi <= 0x10000000000000000,
            lo * lo <= n,
            n < hi * hi,
        decreases hi - lo,
    {
        let mid = lo + (hi - lo) / 2;
        proof {
            assert(lo < mid < hi);
            assert(mid * mid <= u128::MAX) by (nonlinear_arith)
                requires
                    0 < mid < 0x10000000000000000,
            ;
        }
        if mid * mid <= n {
            lo = mid;
        } else {
            hi = mid;
        }
    }
    lo
}

/// Returns a positive value when the triangle formed by (ax, ay), (bx, by)
/// and (cx, cy) is positively oriented (counter-clockwise).
pub fn orient_2d(ax: i64, ay: i64, bx: i64, by: i64, cx: i64, cy: i64) -> (r: i64)
    requires
        -COORD_LIMIT <= ax <= COORD_LIMIT,
        -COORD_LIMIT <= ay <= COORD_LIMIT,
        -COORD_LIMIT <= bx <= COORD_LIMIT,
        -COORD_LIMIT <= by <= COORD_LIMIT,
        -COORD_LIMIT <= cx <= COORD_LIMIT,
        -COORD_LIMIT <= cy <= COORD_LIMIT,
    ensures
        r == orient2d(ax as int, ay as int, bx as int, by as int, cx as int, cy as int),
{
    let s1x = ax - cx;
    let s1y = ay - cy;
    let s2x = bx - cx;
    let s2y = by - cy;
    proof {
        lemma_mul_abs_bound(s1x as int, s2y as int, 2 * COORD_LIMIT as int, 2 * COORD_LIMIT as int);
        lemma_mul_abs_bound(s1y as int, s2x as int, 2 * COORD_LIMIT as int, 2 * COORD_LIMIT as int);
    }
    s1x * s2y - s1y * s2x
}

/// The orientation predicate is invariant under cyclic rotation of its
/// arguments.
pub proof fn lemma_orient_cyclic(ax: int, ay: int, bx: int, by: int, cx: int, cy: int)
    ensures
        orient2d(ax, ay, bx, by, cx, cy) == orient2d(bx, by, cx, cy, ax, ay),
{
    assert((ax - cx) * (by - cy) - (ay - cy) * (bx - cx) == (bx - ax) * (cy - ay) - (by - ay) * (cx
        - ax)) by (nonlinear_arith);
}

/// Returns a negative value when (dx, dy) lies strictly inside the
/// circumscribed circle of the positively oriented triangle (a, b, c), a
/// positive value outside, and zero on the circle.
pub fn in_circle_2d(
    ax: i64, ay: i64, bx: i64, by: i64, cx: i64, cy: i64, dx: i64, dy: i64,
) -> (r: i128)
    requires
        -COORD_LIMIT <= ax <= COORD_LIMIT,
        -COORD_LIMIT <= ay <= COORD_LIMIT,
        -COORD_LIMIT <= bx <= COORD_LIMIT,
        -COORD_LIMIT <= by <= COORD_LIMIT,
        -COORD_LIMIT <= cx <= COORD_LIMIT,
        -COORD_LIMIT <= cy <= COORD_LIMIT,
        -COORD_LIMIT <= dx <= COORD_LIMIT,
        -COORD_LIMIT <= dy <= COORD_LIMIT,
    ensures
        r == in_circle(
            ax as int, ay as int, bx as int, by as int,
            cx as int, cy as int, dx as int, dy as int,
        ),
{
    let s1x = (bx - ax) as i128;
    let s1y = (by - ay) as i128;
    let s2x = (cx - ax) as i128;
    let s2y = (cy - ay) as i128;
    let s3x = (dx - ax) as i128;
    let s3y = (dy - ay) as i128;
    proof {
        let s: int = 2097152;
        lemma_mul_abs_bound(s1x as int, s1x as int, s, s);
        lemma_mul_abs_bound(s1y as int, s1y as int, s, s);
        lemma_mul_abs_bound(s2x as int, s2x as int, s, s);
        lemma_mul_abs_bound(s2y as int, s2y as int, s, s);
        lemma_mul_abs_bound(s3x as int, s3x as int, s, s);
        lemma_mul_abs_bound(s3y as int, s3y as int, s, s);
    }
    let q0 = s1x * s1x + s1y * s1y;
    let q1 = s2x * s2x + s2y * s2y;
    let q2 = s3x * s3x + s3y * s3y;
    proof {
        let s: int = 2097152;
        let t: int = 2 * s * s;
        lemma_mul_abs_bound(s2y as int, q2 as int, s, t);
        lemma_mul_abs_bound(s3y as int, q1 as int, s, t);
        lemma_mul_abs_bound(s1y as int, q2 as int, s, t);
        lemma_mul_abs_bound(s3y as int, q0 as int, s, t);
        lemma_mul_abs_bound(s1y as int, q1 as int, s, t);
        lemma_mul_abs_bound(s2y as int, q0 as int, s, t);
    }
    let t1 = s2y * q2 - s3y * q1;
    let t2 = s1y * q2 - s3y * q0;
    let t3 = s1y * q1 - s2y * q0;
    proof {
        let s: int = 2097152;
        let u: int = 4 * s * s * s;
        lemma_mul_abs_bound(s1x as int, t1 as int, s, u);
        lemma_mul_abs_bound(s2x as int, t2 as int, s, u);
        lemma_mul_abs_bound(s3x as int, t3 as int, s, u);
    }
    s1x * t1 - s2x * t2 + s3x * t3
}

/// Denominator of the exact (rational) circumcenter of triangle (a, b, c):
/// twice the doubled signed area.
pub open spec fn cc_den(ax: int, ay: int, bx: int, by: int, cx: int, cy: int) -> int {
    2 * orient2d(bx, by, cx, cy, ax, ay)
}

/// Numerator of the x offset (relative to a) of the exact circumcenter.
pub open spec fn cc_num_x(ax: int, ay: int, bx: int, by: int, cx: int, cy: int) -> int {
    (cy - ay) * ((bx - ax) * (bx - ax) + (by - ay) * (by - ay)) - (by - ay) * ((cx - ax) * (cx - ax)
        + (cy - ay) * (cy - ay))
}

/// Numerator of the y offset (relative to a) of the exact circumcenter.
pub open spec fn cc_num_y(ax: int, ay: int, bx: int, by: int, cx: int, cy: int) -> int {
    (bx - ax) * ((cx - ax) * (cx - ax) + (cy - ay) * (cy - ay)) - (cx - ax) * ((bx - ax) * (bx - ax)
        + (by - ay) * (by - ay))
}

/// x coordinate of the circumcenter on the `VOR_SCALE` grid (floor of the
/// exact rational value times `VOR_SCALE`).
pub open spec fn cc_scaled_x(ax: int, ay: int, bx: int, by: int, cx: int, cy: int) -> int {
    ((ax * cc_den(ax, ay, bx, by, cx, cy) + cc_num_x(ax, ay, bx, by, cx, cy)) * VOR_SCALE) / cc_den(
        ax, ay, bx, by, cx, cy,
    )
}

/// y coordinate of the circumcenter on the `VOR_SCALE` grid.
pub open spec fn cc_scaled_y(ax: int, ay: int, bx: int, by: int, cx: int, cy: int) -> int {
    ((ay * cc_den(ax, ay, bx, by, cx, cy) + cc_num_y(ax, ay, bx, by, cx, cy)) * VOR_SCALE) / cc_den(
        ax, ay, bx, by, cx, cy,
    )
}

/// Circumcenter of the positively oriented triangle (a, b, c), on the
/// `VOR_SCALE` grid; `None` when it falls outside the `CC_LIMIT` box.
pub fn circumcenter_2d(ax: i64, ay: i64, bx: i64, by: i64, cx: i64, cy: i64) -> (r: Option<
    Vertex2D,
>)
    requires
        -COORD_LIMIT <= ax <= COORD_LIMIT,
        -COORD_LIMIT <= ay <= COORD_LIMIT,
        -COORD_LIMIT <= bx <= COORD_LIMIT,
        -COORD_LIMIT <= by <= COORD_LIMIT,
        -COORD_LIMIT <= cx <= COORD_LIMIT,
        -COORD_LIMIT <= cy <= COORD_LIMIT,
        orient2d(ax as int, ay as int, bx as int, by as int, cx as int, cy as int) > 0,
    ensures
        ({
            let sx = cc_scaled_x(ax as int, ay as int, bx as int, by as int, cx as int, cy as int);
            let sy = cc_scaled_y(ax as int, ay as int, bx as int, by as int, cx as int, cy as int);
            &&& (r matches Some(v) ==> v.x == sx && v.y == sy && v.in_bounds(CC_LIMIT as int))
            &&& (r is None ==> !(-CC_LIMIT <= sx <= CC_LIMIT && -CC_LIMIT <= sy <= CC_LIMIT))
        }),
{
    proof {
        lemma_orient_cyclic(ax as int, ay as int, bx as int, by as int, cx as int, cy as int);
    }
    let den = 2 * (orient_2d(bx, by, cx, cy, ax, ay) as i128);
    let s1x = (bx - ax) as i128;
    let s1y = (by - ay) as i128;
    let s2x = (cx - ax) as i128;
    let s2y = (cy - ay) as i128;
    proof {
        let s: int = 2097152;
        lemma_mul_abs_bound(s1x as int, s1x as int, s, s);
        lemma_mul_abs_bound(s1y as int, s1y as int, s, s);
        lemma_mul_abs_bound(s2x as int, s2x as int, s, s);
        lemma_mul_abs_bound(s2y as int, s2y as int, s, s);
    }
    let m1 = s1x * s1x + s1y * s1y;
    let m2 = s2x * s2x + s2y * s2y;
    proof {
        let s: int = 2097152;
        let t: int = 2 * s * s;
        lemma_mul_abs_bound(s2y as int, m1 as int, s, t);
        lemma_mul_abs_bound(s1y as int, m2 as int, s, t);
        lemma_mul_abs_bound(s1x as int, m2 as int, s, t);
        lemma_mul_abs_bound(s2x as int, m1 as int, s, t);
        lemma_mul_abs_bound(bx as int - ax as int, cy as int - ay as int, s, s);
        lemma_mul_abs_bound(by as int - ay as int, cx as int - ax as int, s, s);
        lemma_mul_abs_bound(ax as int, den as int, COORD_LIMIT as int, 4 * s * s);
        lemma_mul_abs_bound(ay as int, den as int, COORD_LIMIT as int, 4 * s * s);
    }
    let nx = s2y * m1 - s1y * m2;
    let ny = s1x * m2 - s2x * m1;
    let wx = ax as i128 * den + nx;
    let wy = ay as i128 * den + ny;
    proof {
        let w: int = 0x80000000000000000;
        lemma_mul_abs_bound(wx as int, VOR_SCALE as int, w, VOR_SCALE as int);
        lemma_mul_abs_bound(wy as int, VOR_SCALE as int, w, VOR_SCALE as int);
    }
    let px = floor_div_i128(wx * (VOR_SCALE as i128), den);
    let py = floor_div_i128(wy * (VOR_SCALE as i128), den);
    if -(CC_LIMIT as i128) <= px && px <= CC_LIMIT as i128 && -(CC_LIMIT as i128) <= py && py
        <= CC_LIMIT as i128 {
        Some(Vertex2D { x: px as i64, y: py as i64 })
    } else {
        None
    }
}

/// A triangle over points of the Voronoi grid.
#[derive(Debug, Clone, Copy)]
pub struct Triangle2D {
    pub a: Vertex2D,
    pub b: Vertex2D,
    pub c: Vertex2D,
}

impl Triangle2D {
    pub fn new(a: Vertex2D, b: Vertex2D, c: Vertex2D) -> (r: Triangle2D)
        ensures
            r.a == a,
            r.b == b,
            r.c == c,
    {
        Triangle2D { a, b, c }
    }

    /// Twice the signed area; positive iff (a, b, c) is counter-clockwise.
    pub fn area_x2(&self) -> (r: i128)
        requires
            self.a.in_bounds(CC_LIMIT as int),
            self.b.in_bounds(CC_LIMIT as int),
            self.c.in_bounds(CC_LIMIT as int),
        ensures
            r == orient2d(
                self.a.x as int, self.a.y as int, self.b.x as int,
                self.b.y as int, self.c.x as int, self.c.y as int,
            ),
    {
        let s1x = self.a.x as i128 - self.c.x as i128;
        let s1y = self.a.y as i128 - self.c.y as i128;
        let s2x = self.b.x as i128 - self.c.x as i128;
        let s2y = self.b.y as i128 - self.c.y as i128;
        proof {
            let s: int = 2 * CC_LIMIT as int;
            lemma_mul_abs_bound(s1x as int, s2y as int, s, s);
            lemma_mul_abs_bound(s1y as int, s2x as int, s, s);
        }
        s1x * s2y - s1y * s2x
    }

    /// Three times the centroid (the plain sum of the three corners).
    pub fn centroid_x3(&self) -> (r: (i64, i64))
        requires
            self.a.in_bounds(CC_LIMIT as int),
            self.b.in_bounds(CC_LIMIT as int),
            self.c.in_bounds(CC_LIMIT as int),
        ensures
            r.0 == self.a.x + self.b.x + self.c.x,
            r.1 == self.a.y + self.b.y + self.c.y,
    {
        (self.a.x + self.b.x + self.c.x, self.a.y + self.b.y + self.c.y)
    }
}

} // verus!
