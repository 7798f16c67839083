//! Integer geometry: vectors, rotations and affine transforms in fixed
//! point. Every operation is exact integer arithmetic, rounded toward zero
//! where it divides and clamped to `[-BOUND, BOUND]`, so no input can give
//! an undefined or non-finite result.

use vstd::prelude::*;

verus! {

/// Fixed-point scale of unit vectors, rotations, matrix entries and UVs.
pub const ONE: i64 = 65536;

/// Sub-pixel units per pixel: geometry inside the tessellator is measured in
/// 1/256 of a pixel.
pub const SUB: i64 = 256;

/// Largest magnitude of a coordinate handled by the geometry (2^40 sub-pixel units).
pub const BOUND: i64 = 1099511627776;

/// Clamps a value to the representable coordinate range.
pub open spec fn clamp_spec(v: int) -> int {
    if v > BOUND {
        BOUND as int
    } else if v < -BOUND {
        -BOUND
    } else {
        v
    }
}

/// Division rounding toward zero, as integer division in Rust does.
pub open spec fn tdiv(a: int, d: int) -> int {
    if a >= 0 {
        a / d
    } else {
        -((-a) / d)
    }
}

/// Absolute value.
pub open spec fn abs(a: int) -> int {
    if a >= 0 {
        a
    } else {
        -a
    }
}

/// `r` is the smallest natural number whose square is at least `s`.
pub open spec fn is_ceil_sqrt(r: int, s: int) -> bool {
    r >= 0 && r * r >= s && (r == 0 || (r - 1) * (r - 1) < s)
}

/// A wide intermediate value clamped to the coordinate range.
pub fn clamp_wide(v: i128) -> (r: i64)
    ensures
        r == clamp_spec(v as int),
{
    if v > BOUND as i128 {
        BOUND
    } else if v < -(BOUND as i128) {
        -BOUND
    } else {
        v as i64
    }
}

/// `a / d` rounded toward zero, for a positive divisor.
pub fn div_trunc(a: i128, d: i128) -> (r: i128)
    requires
        d > 0,
        a > i128::MIN,
    ensures
        r == tdiv(a as int, d as int),
        abs(r as int) <= abs(a as int),
{
    if a >= 0 {
        let q = (a as u128) / (d as u128);
        assert(q <= a) by (nonlinear_arith)
            requires q == (a as u128) / (d as u128), d > 0, a >= 0;
        q as i128
    } else {
        let q = ((-a) as u128) / (d as u128);
        assert(q <= -a) by (nonlinear_arith)
            requires q == ((-a) as u128) / (d as u128), d > 0, a < 0;
        -(q as i128)
    }
}

/// Rounding toward zero never grows a quotient's magnitude.
pub proof fn lemma_tdiv_mul_le(a: int, d: int)
    requires
        d > 0,
    ensures
        abs(tdiv(a, d)) * d <= abs(a),
        abs(tdiv(a, d)) <= abs(a),
{
    let q = abs(a) / d;
    assert(q * d <= abs(a)) by (nonlinear_arith)
        requires q == abs(a) / d, d > 0, abs(a) >= 0;
    assert(q <= abs(a)) by (nonlinear_arith)
        requires q * d <= abs(a), d > 0, q >= 0;
}

/// The smallest natural number whose square is at least `s`.
pub fn ceil_sqrt(s: u128) -> (r: u64)
    requires
        s <= 4835703278458516698824704u128,
    ensures
        is_ceil_sqrt(r as int, s as int),
{
    // 2^41 squared is 2^82, above the bound on `s`.
    let mut lo: u128 = 0;
    let mut hi: u128 = 2199023255552;
    assert(hi * hi >= s) by (nonlinear_arith)
        requires hi == 2199023255552u128, s <= 4835703278458516698824704u128;
    while lo < hi
        invariant
            lo <= hi <= 2199023255552,
            hi * hi >= s,
            lo == 0 || (lo - 1) * (lo - 1) < s,
        decreases hi - lo,
    {
        let mid = lo + (hi - lo) / 2;
        assert(mid * mid <= 2199023255552 * 2199023255552) by (nonlinear_arith)
            requires mid <= 2199023255552u128;
        if mid * mid >= s {
            hi = mid;
        } else {
            lo = mid + 1;
        }
    }
    lo as u64
}

/// A 2D vector, in sub-pixel units for positions or in `ONE` units for
/// directions.
#[derive(Clone, Copy, Debug, PartialEq, Eq, Structural)]
pub struct Vec2 {
    pub x: i64,
    pub y: i64,
}

impl Vec2 {
    /// Both components lie within the coordinate range.
    pub open spec fn wf(self) -> bool {
        -BOUND <= self.x <= BOUND && -BOUND <= self.y <= BOUND
    }

    /// The squared length.
    pub open spec fn len_sq(self) -> int {
        self.x * self.x + self.y * self.y
    }

    /// The vector `(x, y)`.
    pub fn new(x: i64, y: i64) -> (r: Vec2)
        ensures
            r.x == x,
            r.y == y,
    {
        Vec2 { x, y }
    }

    /// Component-wise sum, clamped to the coordinate range.
    pub fn add(self, o: Vec2) -> (r: Vec2)
        requires
            self.wf(),
            o.wf(),
        ensures
            r.wf(),
            r.x == clamp_spec(self.x + o.x),
            r.y == clamp_spec(self.y + o.y),
    {
        Vec2 {
            x: clamp_wide(self.x as i128 + o.x as i128),
            y: clamp_wide(self.y as i128 + o.y as i128),
        }
    }

    /// Component-wise difference, clamped to the coordinate range.
    pub fn sub(self, o: Vec2) -> (r: Vec2)
        requires
            self.wf(),
            o.wf(),
        ensures
            r.wf(),
            r.x == clamp_spec(self.x - o.x),
            r.y == clamp_spec(self.y - o.y),
    {
        Vec2 {
            x: clamp_wide(self.x as i128 - o.x as i128),
            y: clamp_wide(self.y as i128 - o.y as i128),
        }
    }

    /// This vector turned by 90 degrees clockwise.
    pub fn tangent(&self) -> (r: Vec2)
        requires
            self.wf(),
        ensures
            r.wf(),
            r.x == self.y,
            r.y == -self.x,
    {
        Vec2 { x: self.y, y: -self.x }
    }

    /// Each component times `num / den`, rounded toward zero and clamped.
    pub fn scaled(&self, num: i64, den: i64) -> (r: Vec2)
        requires
            self.wf(),
            -BOUND <= num <= BOUND,
            0 < den,
        ensures
            r.wf(),
            r.x == clamp_spec(tdiv(self.x * num, den as int)),
            r.y == clamp_spec(tdiv(self.y * num, den as int)),
    {
        proof {
            lemma_product_bound(self.x as int, num as int);
            lemma_product_bound(self.y as int, num as int);
        }
        let px = self.x as i128 * num as i128;
        let py = self.y as i128 * num as i128;
        Vec2 { x: clamp_wide(div_trunc(px, den as i128)), y: clamp_wide(div_trunc(py, den as i128)) }
    }

    /// Euclidean length, rounded up to a whole unit.
    pub fn length(&self) -> (r: i64)
        requires
            self.wf(),
        ensures
            is_ceil_sqrt(r as int, self.len_sq()),
            0 <= r <= 2 * BOUND,
    {
        proof {
            lemma_product_bound(self.x as int, self.x as int);
            lemma_product_bound(self.y as int, self.y as int);
            assert(self.x * self.x >= 0) by (nonlinear_arith);
            assert(self.y * self.y >= 0) by (nonlinear_arith);
        }
        let s = (self.x as i128 * self.x as i128 + self.y as i128 * self.y as i128) as u128;
        assert(s as int == self.len_sq());
        assert(self.len_sq() <= 2 * BOUND * BOUND);
        let r = ceil_sqrt(s);
        proof {
            if r > 2 * BOUND {
                assert((r - 1) * (r - 1) >= (2 * BOUND) * (2 * BOUND)) by (nonlinear_arith)
                    requires r > 2 * BOUND;
            }
        }
        r as i64
    }

    /// This vector scaled to length `ONE`, or `other` where it has length zero.
    pub fn normalize_or(&self, other: Vec2) -> (r: Vec2)
        requires
            self.wf(),
        ensures
            self.len_sq() == 0 ==> r == other,
            self.len_sq() != 0 ==> r == unit_of(*self),
            self.len_sq() != 0 ==> r.len_sq() <= ONE * ONE,
            self.len_sq() != 0 ==> abs(r.x as int) <= ONE && abs(r.y as int) <= ONE,
    {
        let len = self.length();
        if len == 0 {
            proof {
                assert(self.x * self.x >= 0) by (nonlinear_arith);
                assert(self.y * self.y >= 0) by (nonlinear_arith);
                assert(self.x * self.x == 0 && self.y * self.y == 0);
            }
            other
        } else {
            proof {
                assert(self.len_sq() != 0);
                lemma_unit_len(*self, len as int);
            }
            self.scaled(ONE, len)
        }
    }

    /// This vector scaled to length `ONE`; the zero vector stays zero.
    pub fn normalize(&self) -> (r: Vec2)
        requires
            self.wf(),
        ensures
            self.len_sq() == 0 ==> r == *self,
            self.len_sq() != 0 ==> r == unit_of(*self),
    {
        self.normalize_or(*self)
    }
}

/// The ceiling of the length of `v`.
pub open spec fn ceil_len(v: Vec2) -> int {
    choose|r: int| is_ceil_sqrt(r, v.len_sq())
}

/// `v` scaled to length `ONE`: each component times `ONE` over the length
/// rounded up, rounded toward zero.
pub open spec fn unit_of(v: Vec2) -> Vec2 {
    Vec2 {
        x: clamp_spec(tdiv(v.x * ONE, ceil_len(v))) as i64,
        y: clamp_spec(tdiv(v.y * ONE, ceil_len(v))) as i64,
    }
}

pub proof fn lemma_ceil_sqrt_unique(r1: int, r2: int, s: int)
    requires
        is_ceil_sqrt(r1, s),
        is_ceil_sqrt(r2, s),
    ensures
        r1 == r2,
{
    if r1 < r2 {
        assert(r1 * r1 <= (r2 - 1) * (r2 - 1)) by (nonlinear_arith)
            requires 0 <= r1 <= r2 - 1;
    } else if r2 < r1 {
        assert(r2 * r2 <= (r1 - 1) * (r1 - 1)) by (nonlinear_arith)
            requires 0 <= r2 <= r1 - 1;
    }
}

pub proof fn lemma_product_bound(a: int, b: int)
    requires
        -BOUND <= a <= BOUND,
        -BOUND <= b <= BOUND,
    ensures
        -BOUND * BOUND <= a * b <= BOUND * BOUND,
{
    assert(-BOUND * BOUND <= a * b <= BOUND * BOUND) by (nonlinear_arith)
        requires -BOUND <= a <= BOUND, -BOUND <= b <= BOUND;
}

pub proof fn lemma_ceil_len(v: Vec2, len: int)
    requires
        is_ceil_sqrt(len, v.len_sq()),
    ensures
        ceil_len(v) == len,
{
    assert(is_ceil_sqrt(len, v.len_sq()));
    let c = choose|r: int| is_ceil_sqrt(r, v.len_sq());
    lemma_ceil_sqrt_unique(c, len, v.len_sq());
}

/// `a * b / d`, rounded toward zero and clamped.
pub fn mul_frac(a: i64, b: i64, d: i64) -> (r: i64)
    requires
        -BOUND <= a <= BOUND,
        -BOUND <= b <= BOUND,
        d > 0,
    ensures
        r == clamp_spec(tdiv(a * b, d as int)),
{
    proof {
        lemma_product_bound(a as int, b as int);
    }
    clamp_wide(div_trunc(a as i128 * b as i128, d as i128))
}

/// Scaling by the rounded-up length gives a vector no longer than `ONE`.
pub proof fn lemma_unit_len(v: Vec2, len: int)
    requires
        v.wf(),
        is_ceil_sqrt(len, v.len_sq()),
        len > 0,
    ensures
        ceil_len(v) == len,
        unit_of(v).len_sq() <= ONE * ONE,
        abs(unit_of(v).x as int) <= ONE,
        abs(unit_of(v).y as int) <= ONE,
{
    let c = choose|r: int| is_ceil_sqrt(r, v.len_sq());
    lemma_ceil_sqrt_unique(c, len, v.len_sq());
    let qx = tdiv(v.x * ONE, len);
    let qy = tdiv(v.y * ONE, len);
    lemma_tdiv_mul_le(v.x * ONE, len);
    lemma_tdiv_mul_le(v.y * ONE, len);
    let ax = abs(qx);
    let ay = abs(qy);
    assert(abs(v.x as int) * abs(v.x as int) == v.x * v.x) by (nonlinear_arith);
    assert(abs(v.y as int) * abs(v.y as int) == v.y * v.y) by (nonlinear_arith);
    assert(abs(v.x * ONE) == abs(v.x as int) * ONE);
    assert(abs(v.y * ONE) == abs(v.y as int) * ONE);
    assert(ax * ax + ay * ay <= ONE * ONE) by (nonlinear_arith)
        requires
            ax * len <= abs(v.x as int) * ONE,
            ay * len <= abs(v.y as int) * ONE,
            ax >= 0, ay >= 0, len > 0,
            len * len >= v.x * v.x + v.y * v.y,
            abs(v.x as int) * abs(v.x as int) == v.x * v.x,
            abs(v.y as int) * abs(v.y as int) == v.y * v.y,
    {
        assert(ax * len * (ax * len) <= abs(v.x as int) * ONE * (abs(v.x as int) * ONE));
        assert(ay * len * (ay * len) <= abs(v.y as int) * ONE * (abs(v.y as int) * ONE));
    }
    assert(ax <= ONE) by (nonlinear_arith)
        requires ax * ax + ay * ay <= ONE * ONE, ax >= 0, ay >= 0;
    assert(ay <= ONE) by (nonlinear_arith)
        requires ax * ax + ay * ay <= ONE * ONE, ax >= 0, ay >= 0;
    assert(qx * qx == ax * ax) by (nonlinear_arith) requires ax == abs(qx);
    assert(qy * qy == ay * ay) by (nonlinear_arith) requires ay == abs(qy);
    assert(unit_of(v).x == qx);
    assert(unit_of(v).y == qy);
}

/// A rotation, given by its cosine and sine in `ONE` units.
#[derive(Clone, Copy, Debug, PartialEq, Eq, Structural)]
pub struct Rotation {
    pub cos: i64,
    pub sin: i64,
}

impl Rotation {
    pub open spec fn wf(self) -> bool {
        -ONE <= self.cos <= ONE && -ONE <= self.sin <= ONE
    }

    /// The rotation by zero radians.
    pub fn none() -> (r: Rotation)
        ensures
            r.wf(),
            r.cos == ONE,
            r.sin == 0,
    {
        Rotation { cos: ONE, sin: 0 }
    }
}

/// `v` rotated clockwise by `rot`, rounded toward zero and clamped.
pub open spec fn rotated_spec(v: Vec2, rot: Rotation) -> Vec2 {
    Vec2 {
        x: clamp_spec(tdiv(v.x * rot.cos + v.y * rot.sin, ONE as int)) as i64,
        y: clamp_spec(tdiv(v.y * rot.cos - v.x * rot.sin, ONE as int)) as i64,
    }
}

impl Vec2 {
    /// This vector rotated clockwise by `rot`.
    pub fn rotated(&self, rot: Rotation) -> (r: Vec2)
        requires
            self.wf(),
            rot.wf(),
        ensures
            r.wf(),
            r == rotated_spec(*self, rot),
    {
        proof {
            lemma_product_bound(self.x as int, rot.cos as int);
            lemma_product_bound(self.y as int, rot.sin as int);
            lemma_product_bound(self.y as int, rot.cos as int);
            lemma_product_bound(self.x as int, rot.sin as int);
        }
        let a = self.x as i128 * rot.cos as i128 + self.y as i128 * rot.sin as i128;
        let b = self.y as i128 * rot.cos as i128 - self.x as i128 * rot.sin as i128;
        Vec2 { x: clamp_wide(div_trunc(a, ONE as i128)), y: clamp_wide(div_trunc(b, ONE as i128)) }
    }
}

/// An affine transform of the plane: a linear part in `ONE` units followed by a
/// translation in sub-pixel units.
#[derive(Clone, Copy, Debug, PartialEq, Eq, Structural)]
pub struct Mat3 {
    pub xx: i64,
    pub xy: i64,
    pub yx: i64,
    pub yy: i64,
    pub tx: i64,
    pub ty: i64,
}

/// The image of `v` under the affine transform `m`.
pub open spec fn mat3_apply_spec(m: Mat3, v: Vec2) -> Vec2 {
    Vec2 {
        x: clamp_spec(tdiv(m.xx * v.x + m.xy * v.y, ONE as int) + m.tx) as i64,
        y: clamp_spec(tdiv(m.yx * v.x + m.yy * v.y, ONE as int) + m.ty) as i64,
    }
}

impl Mat3 {
    pub open spec fn wf(self) -> bool {
        &&& -BOUND <= self.xx <= BOUND
        &&& -BOUND <= self.xy <= BOUND
        &&& -BOUND <= self.yx <= BOUND
        &&& -BOUND <= self.yy <= BOUND
        &&& -BOUND <= self.tx <= BOUND
        &&& -BOUND <= self.ty <= BOUND
    }

    pub open spec fn is_ident(self) -> bool {
        self == Mat3 { xx: ONE, xy: 0, yx: 0, yy: ONE, tx: 0, ty: 0 }
    }

    /// The identity transform.
    pub fn ident() -> (r: Mat3)
        ensures
            r.wf(),
            r.is_ident(),
    {
        Mat3 { xx: ONE, xy: 0, yx: 0, yy: ONE, tx: 0, ty: 0 }
    }

    /// The image of `v` under this transform.
    pub fn apply(&self, v: Vec2) -> (r: Vec2)
        requires
            self.wf(),
            v.wf(),
        ensures
            r.wf(),
            r == mat3_apply_spec(*self, v),
    {
        proof {
            lemma_product_bound(self.xx as int, v.x as int);
            lemma_product_bound(self.xy as int, v.y as int);
            lemma_product_bound(self.yx as int, v.x as int);
            lemma_product_bound(self.yy as int, v.y as int);
        }
        let a = div_trunc(self.xx as i128 * v.x as i128 + self.xy as i128 * v.y as i128, ONE as i128);
        let b = div_trunc(self.yx as i128 * v.x as i128 + self.yy as i128 * v.y as i128, ONE as i128);
        Vec2 { x: clamp_wide(a + self.tx as i128), y: clamp_wide(b + self.ty as i128) }
    }
}

/// A 2x2 matrix in `ONE` units, entries named by row and column.
#[derive(Clone, Copy, Debug, PartialEq, Eq, Structural)]
pub struct Mat2 {
    pub m11: i64,
    pub m12: i64,
    pub m21: i64,
    pub m22: i64,
}

/// The product of `m` and `v`.
pub open spec fn mat2_apply_spec(m: Mat2, v: Vec2) -> Vec2 {
    Vec2 {
        x: clamp_spec(tdiv(m.m11 * v.x + m.m12 * v.y, ONE as int)) as i64,
        y: clamp_spec(tdiv(m.m21 * v.x + m.m22 * v.y, ONE as int)) as i64,
    }
}

impl Mat2 {
    pub open spec fn wf(self) -> bool {
        &&& -BOUND <= self.m11 <= BOUND
        &&& -BOUND <= self.m12 <= BOUND
        &&& -BOUND <= self.m21 <= BOUND
        &&& -BOUND <= self.m22 <= BOUND
    }

    /// The identity matrix.
    pub fn ident() -> (r: Mat2)
        ensures
            r.wf(),
            r == (Mat2 { m11: ONE, m12: 0, m21: 0, m22: ONE }),
    {
        Mat2 { m11: ONE, m12: 0, m21: 0, m22: ONE }
    }

    /// A matrix from its four entries, given row by row.
    pub fn new(m11: i64, m12: i64, m21: i64, m22: i64) -> (r: Mat2)
        ensures
            r == (Mat2 { m11, m12, m21, m22 }),
    {
        Mat2 { m11, m12, m21, m22 }
    }

    /// The product of this matrix and `v`.
    pub fn apply(&self, v: Vec2) -> (r: Vec2)
        requires
            self.wf(),
            v.wf(),
        ensures
            r.wf(),
            r == mat2_apply_spec(*self, v),
    {
        proof {
            lemma_product_bound(self.m11 as int, v.x as int);
            lemma_product_bound(self.m12 as int, v.y as int);
            lemma_product_bound(self.m21 as int, v.x as int);
            lemma_product_bound(self.m22 as int, v.y as int);
        }
        let a = div_trunc(self.m11 as i128 * v.x as i128 + self.m12 as i128 * v.y as i128, ONE as i128);
        let b = div_trunc(self.m21 as i128 * v.x as i128 + self.m22 as i128 * v.y as i128, ONE as i128);
        Vec2 { x: clamp_wide(a), y: clamp_wide(b) }
    }
}

/// Squared distance between two points.
pub open spec fn dist_sq(a: Vec2, b: Vec2) -> int {
    (a.x - b.x) * (a.x - b.x) + (a.y - b.y) * (a.y - b.y)
}

/// Determinants at or below this magnitude count as parallel lines.
pub const PARALLEL_EPS: i64 = 64;

/// Division by a nonzero divisor of either sign, rounding toward zero.
pub open spec fn sdiv(a: int, d: int) -> int {
    if d > 0 {
        tdiv(a, d)
    } else {
        tdiv(-a, -d)
    }
}

/// The cross product of two points taken as vectors.
pub open spec fn cross(a: Vec2, b: Vec2) -> int {
    a.x * b.y - a.y * b.x
}

/// The determinant of the two lines through `l1` and through `l2`.
pub open spec fn intersect_det(l1: (Vec2, Vec2), l2: (Vec2, Vec2)) -> int {
    (l1.0.x - l1.1.x) * (l2.0.y - l2.1.y) - (l2.0.x - l2.1.x) * (l1.0.y - l1.1.y)
}

/// Where the line through the points of `l1` meets the line through the
/// points of `l2`; `None` where they are (close to) parallel.
pub open spec fn intersect_spec(l1: (Vec2, Vec2), l2: (Vec2, Vec2)) -> Option<Vec2> {
    let d = intersect_det(l1, l2);
    if abs(d) <= PARALLEL_EPS {
        None
    } else {
        let c1 = cross(l1.0, l1.1);
        let c2 = cross(l2.0, l2.1);
        Some(
            Vec2 {
                x: clamp_spec(sdiv(c1 * (l2.0.x - l2.1.x) - (l1.0.x - l1.1.x) * c2, d)) as i64,
                y: clamp_spec(sdiv(c1 * (l2.0.y - l2.1.y) - (l1.0.y - l1.1.y) * c2, d)) as i64,
            },
        )
    }
}

proof fn lemma_wide_bounds(a: int, b: int, c: int, e: int)
    requires
        -2 * BOUND <= a <= 2 * BOUND,
        -2 * BOUND <= b <= 2 * BOUND,
        -2 * BOUND * BOUND <= c <= 2 * BOUND * BOUND,
        -2 * BOUND * BOUND <= e <= 2 * BOUND * BOUND,
    ensures
        -4 * BOUND * BOUND <= a * b <= 4 * BOUND * BOUND,
        -4 * BOUND * BOUND * BOUND <= c * a <= 4 * BOUND * BOUND * BOUND,
        -4 * BOUND * BOUND * BOUND <= b * e <= 4 * BOUND * BOUND * BOUND,
{
    assert(-4 * BOUND * BOUND <= a * b <= 4 * BOUND * BOUND) by (nonlinear_arith)
        requires -2 * BOUND <= a <= 2 * BOUND, -2 * BOUND <= b <= 2 * BOUND;
    assert(-4 * BOUND * BOUND * BOUND <= c * a <= 4 * BOUND * BOUND * BOUND) by (nonlinear_arith)
        requires -2 * BOUND <= a <= 2 * BOUND, -2 * BOUND * BOUND <= c <= 2 * BOUND * BOUND;
    assert(-4 * BOUND * BOUND * BOUND <= b * e <= 4 * BOUND * BOUND * BOUND) by (nonlinear_arith)
        requires -2 * BOUND <= b <= 2 * BOUND, -2 * BOUND * BOUND <= e <= 2 * BOUND * BOUND;
}

fn cross_exec(a: Vec2, b: Vec2) -> (r: i128)
    requires
        a.wf(),
        b.wf(),
    ensures
        r == cross(a, b),
        -2 * BOUND * BOUND <= r <= 2 * BOUND * BOUND,
{
    proof {
        lemma_product_bound(a.x as int, b.y as int);
        lemma_product_bound(a.y as int, b.x as int);
    }
    a.x as i128 * b.y as i128 - a.y as i128 * b.x as i128
}

fn signed_div(a: i128, d: i128) -> (r: i128)
    requires
        d != 0,
        d > i128::MIN,
        a > i128::MIN,
    ensures
        r == sdiv(a as int, d as int),
{
    if d > 0 {
        div_trunc(a, d)
    } else {
        div_trunc(-a, -d)
    }
}

/// Intersection of the line through `l1.0`, `l1.1` with the line through
/// `l2.0`, `l2.1`, by the determinant formula.
pub fn line_line_intersect(l1: (Vec2, Vec2), l2: (Vec2, Vec2)) -> (r: Option<Vec2>)
    requires
        l1.0.wf(),
        l1.1.wf(),
        l2.0.wf(),
        l2.1.wf(),
    ensures
        r == intersect_spec(l1, l2),
        r matches Some(p) ==> p.wf(),
{
    let dx1 = l1.0.x as i128 - l1.1.x as i128;
    let dy1 = l1.0.y as i128 - l1.1.y as i128;
    let dx2 = l2.0.x as i128 - l2.1.x as i128;
    let dy2 = l2.0.y as i128 - l2.1.y as i128;
    let c1 = cross_exec(l1.0, l1.1);
    let c2 = cross_exec(l2.0, l2.1);
    proof {
        lemma_wide_bounds(dx1 as int, dy2 as int, c1 as int, c2 as int);
        lemma_wide_bounds(dx2 as int, dy1 as int, c1 as int, c2 as int);
        lemma_wide_bounds(dx2 as int, dx1 as int, c1 as int, c2 as int);
        lemma_wide_bounds(dy2 as int, dy1 as int, c1 as int, c2 as int);
    }
    let d = dx1 * dy2 - dx2 * dy1;
    if -(PARALLEL_EPS as i128) <= d && d <= PARALLEL_EPS as i128 {
        return None;
    }
    let nx = c1 * dx2 - dx1 * c2;
    let ny = c1 * dy2 - dy1 * c2;
    Some(Vec2 { x: clamp_wide(signed_div(nx, d)), y: clamp_wide(signed_div(ny, d)) })
}

/// `dest`, or where it lies further than `max` from `source`, the point at
/// distance `max` from `source` toward `dest`.
pub open spec fn limit_dist_spec(source: Vec2, dest: Vec2, max: int) -> Vec2 {
    if dist_sq(dest, source) <= max * max {
        dest
    } else {
        let diff = Vec2 {
            x: clamp_spec(dest.x - source.x) as i64,
            y: clamp_spec(dest.y - source.y) as i64,
        };
        let step = if diff.len_sq() == 0 {
            Vec2 { x: 0, y: 0 }
        } else {
            let u = unit_of(diff);
            Vec2 {
                x: clamp_spec(tdiv(u.x * max, ONE as int)) as i64,
                y: clamp_spec(tdiv(u.y * max, ONE as int)) as i64,
            }
        };
        Vec2 {
            x: clamp_spec(source.x + step.x) as i64,
            y: clamp_spec(source.y + step.y) as i64,
        }
    }
}

proof fn lemma_step_bound(u: Vec2, max: int, mx: int, my: int)
    requires
        u.len_sq() <= ONE * ONE,
        abs(u.x as int) <= ONE,
        abs(u.y as int) <= ONE,
        0 <= max <= BOUND,
        mx == tdiv(u.x * max, ONE as int),
        my == tdiv(u.y * max, ONE as int),
    ensures
        mx * mx + my * my <= max * max,
        abs(mx) <= max,
        abs(my) <= max,
{
    lemma_tdiv_mul_le(u.x * max, ONE as int);
    lemma_tdiv_mul_le(u.y * max, ONE as int);
    let ax = abs(mx);
    let ay = abs(my);
    let ux = abs(u.x as int);
    let uy = abs(u.y as int);
    assert(abs(u.x * max) == ux * max) by (nonlinear_arith) requires ux == abs(u.x as int), max >= 0;
    assert(abs(u.y * max) == uy * max) by (nonlinear_arith) requires uy == abs(u.y as int), max >= 0;
    assert(ux * ux == u.x * u.x) by (nonlinear_arith) requires ux == abs(u.x as int);
    assert(uy * uy == u.y * u.y) by (nonlinear_arith) requires uy == abs(u.y as int);
    assert(ax * ax + ay * ay <= max * max) by (nonlinear_arith)
        requires
            ax * ONE <= ux * max,
            ay * ONE <= uy * max,
            ax >= 0, ay >= 0, ux >= 0, uy >= 0, max >= 0,
            ux * ux + uy * uy <= ONE * ONE,
    {
        assert(ax * ONE * (ax * ONE) <= ux * max * (ux * max));
        assert(ay * ONE * (ay * ONE) <= uy * max * (uy * max));
        assert((ux * ux + uy * uy) * (max * max) <= ONE * ONE * (max * max));
    }
    assert(ax <= max) by (nonlinear_arith)
        requires ax * ax + ay * ay <= max * max, ax >= 0, ay >= 0, max >= 0;
    assert(ay <= max) by (nonlinear_arith)
        requires ax * ax + ay * ay <= max * max, ax >= 0, ay >= 0, max >= 0;
    assert(mx * mx == ax * ax) by (nonlinear_arith) requires ax == abs(mx);
    assert(my * my == ay * ay) by (nonlinear_arith) requires ay == abs(my);
}

proof fn lemma_clamped_step(s: int, m: int)
    requires
        -BOUND <= s <= BOUND,
    ensures
        abs(clamp_spec(s + m) - s) <= abs(m),
{
}

proof fn lemma_sq_le(a: int, b: int)
    requires
        abs(a) <= abs(b),
    ensures
        a * a <= b * b,
{
    assert(abs(a) * abs(a) <= abs(b) * abs(b)) by (nonlinear_arith)
        requires abs(a) <= abs(b), abs(a) >= 0;
    assert(a * a == abs(a) * abs(a)) by (nonlinear_arith);
    assert(b * b == abs(b) * abs(b)) by (nonlinear_arith);
}

pub proof fn lemma_ceil_sqrt_exists(s: int)
    requires
        s >= 0,
    ensures
        exists|r: int| #[trigger] is_ceil_sqrt(r, s),
    decreases s,
{
    if s == 0 {
        assert(is_ceil_sqrt(0, 0));
    } else {
        lemma_ceil_sqrt_exists(s - 1);
        let r = choose|r: int| #[trigger] is_ceil_sqrt(r, s - 1);
        if r * r >= s {
            assert(is_ceil_sqrt(r, s));
        } else {
            assert((r + 1) * (r + 1) >= s) by (nonlinear_arith)
                requires r * r >= s - 1, r >= 0;
            assert(is_ceil_sqrt(r + 1, s));
        }
    }
}

/// Every vector of nonzero length scales to one no longer than `ONE`.
pub proof fn lemma_unit_bounds(v: Vec2)
    requires
        v.wf(),
        v.len_sq() != 0,
    ensures
        unit_of(v).len_sq() <= ONE * ONE,
        abs(unit_of(v).x as int) <= ONE,
        abs(unit_of(v).y as int) <= ONE,
{
    assert(v.x * v.x >= 0) by (nonlinear_arith);
    assert(v.y * v.y >= 0) by (nonlinear_arith);
    lemma_ceil_sqrt_exists(v.len_sq());
    let len = choose|r: int| #[trigger] is_ceil_sqrt(r, v.len_sq());
    assert(is_ceil_sqrt(len, v.len_sq()));
    assert(len != 0);
    lemma_unit_len(v, len);
}

/// A clamped point lies no further than `max` from the point it was clamped
/// toward.
pub proof fn lemma_limit_dist_bound(source: Vec2, dest: Vec2, max: int)
    requires
        source.wf(),
        dest.wf(),
        0 <= max <= BOUND,
    ensures
        dist_sq(limit_dist_spec(source, dest, max), source) <= max * max,
        limit_dist_spec(source, dest, max).wf(),
{
    if dist_sq(dest, source) > max * max {
        let diff = Vec2 { x: clamp_spec(dest.x - source.x) as i64, y: clamp_spec(dest.y - source.y) as i64 };
        let r = limit_dist_spec(source, dest, max);
        if diff.len_sq() == 0 {
            assert(r == source);
            assert(max * max >= 0) by (nonlinear_arith);
            assert(dist_sq(source, source) == 0);
        } else {
            lemma_unit_bounds(diff);
            let u = unit_of(diff);
            lemma_step_bound(u, max, tdiv(u.x * max, ONE as int), tdiv(u.y * max, ONE as int));
            let sx = clamp_spec(tdiv(u.x * max, ONE as int));
            let sy = clamp_spec(tdiv(u.y * max, ONE as int));
            lemma_clamped_step(source.x as int, sx);
            lemma_clamped_step(source.y as int, sy);
            assert(sx == tdiv(u.x * max, ONE as int));
            assert(sy == tdiv(u.y * max, ONE as int));
            assert(r.x == clamp_spec(source.x + sx));
            assert(r.y == clamp_spec(source.y + sy));
            lemma_sq_le(r.x - source.x, sx);
            lemma_sq_le(r.y - source.y, sy);
            assert(sx * sx + sy * sy <= max * max);
            assert(dist_sq(r, source) == (r.x - source.x) * (r.x - source.x) + (r.y - source.y) * (r.y - source.y));
        }
    }
}

/// Moves `dest` toward `source` until it lies at most `max` from it.
pub fn limit_dist(source: Vec2, dest: Vec2, max: i64) -> (r: Vec2)
    requires
        source.wf(),
        dest.wf(),
        0 <= max <= BOUND,
    ensures
        r.wf(),
        r == limit_dist_spec(source, dest, max as int),
        dist_sq(r, source) <= max * max,
{
    proof {
        lemma_limit_dist_bound(source, dest, max as int);
    }
    let dx = dest.x as i128 - source.x as i128;
    let dy = dest.y as i128 - source.y as i128;
    proof {
        lemma_wide_bounds(dx as int, dx as int, 0, 0);
        lemma_wide_bounds(dy as int, dy as int, 0, 0);
        lemma_product_bound(max as int, max as int);
    }
    if dx * dx + dy * dy <= max as i128 * max as i128 {
        return dest;
    }
    let diff = dest.sub(source);
    let unit = diff.normalize_or(Vec2 { x: 0, y: 0 });
    proof {
        if diff.len_sq() == 0 {
            assert(unit.len_sq() == 0);
        }
    }
    let step = unit.scaled(max, ONE);
    source.add(step)
}

} // verus!
