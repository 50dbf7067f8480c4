use vstd::prelude::*;

verus! {

/// A point of the plane in exact arithmetic: the point `(x / den, y / den)`.
pub struct PointModel {
    pub x: int,
    pub y: int,
    pub den: int,
}

impl PointModel {
    /// A model denotes a point when its denominator is positive.
    pub open spec fn wf(self) -> bool {
        self.den > 0
    }

    /// Two models denote the same point of the plane.
    pub open spec fn same_place(self, other: PointModel) -> bool {
        &&& self.x * other.den == other.x * self.den
        &&& self.y * other.den == other.y * self.den
    }
}

/// A point with rational coordinates `(x / den, y / den)`.
#[derive(Clone, Copy, Debug)]
pub struct Point {
    pub x: i64,
    pub y: i64,
    pub den: u64,
}

impl View for Point {
    type V = PointModel;

    open spec fn view(&self) -> PointModel {
        PointModel { x: self.x as int, y: self.y as int, den: self.den as int }
    }
}

impl Point {
    pub open spec fn wf(self) -> bool {
        self@.wf()
    }

    /// The point `(x / den, y / den)`.
    pub fn new(x: i64, y: i64, den: u64) -> (r: Point)
        requires
            den > 0,
        ensures
            r.wf(),
            r@ == (PointModel { x: x as int, y: y as int, den: den as int }),
    {
        Point { x, y, den }
    }

    /// Whether the two points coincide in the plane, whatever their
    /// denominators.
    pub fn same_place(&self, other: &Point) -> (r: bool)
        ensures
            r == self@.same_place(other@),
    {
        proof {
            lemma_scaled_bound(self.x, other.den);
            lemma_scaled_bound(other.x, self.den);
            lemma_scaled_bound(self.y, other.den);
            lemma_scaled_bound(other.y, self.den);
        }
        (self.x as i128) * (other.den as i128) == (other.x as i128) * (self.den as i128) && (
        self.y as i128) * (other.den as i128) == (other.y as i128) * (self.den as i128)
    }

    /// The coordinates as fractions: `((x, den), (y, den))`.
    pub fn to_primitive(self) -> (r: ((i64, u64), (i64, u64)))
        ensures
            r == ((self.x, self.den), (self.y, self.den)),
    {
        ((self.x, self.den), (self.y, self.den))
    }
}

/// A curve parameter `t = num / den`.
#[derive(Clone, Copy, Debug, PartialEq, Eq, Structural)]
pub struct Parameter {
    pub num: i64,
    pub den: u64,
}

impl Parameter {
    pub open spec fn wf(self) -> bool {
        self.den > 0
    }

    /// The parameter `num / den`.
    pub fn new(num: i64, den: u64) -> (r: Parameter)
        requires
            den > 0,
        ensures
            r.wf(),
            r.num == num,
            r.den == den,
    {
        Parameter { num, den }
    }
}

pub open spec fn in_i64(v: int) -> bool {
    i64::MIN <= v <= i64::MAX
}

/// Factors that bring `a` and `b` to a common denominator: none where they
/// already share one, else each other's denominator.
pub open spec fn common_scales(a: PointModel, b: PointModel) -> (int, int) {
    if a.den == b.den {
        (1, 1)
    } else {
        (b.den, a.den)
    }
}

/// `a * (1 - t) + b * t` for `t = n / m`, written over the common
/// denominator of `a` and `b` times `m`.
pub open spec fn lerp_model(a: PointModel, b: PointModel, n: int, m: int) -> PointModel {
    let (ka, kb) = common_scales(a, b);
    PointModel {
        x: a.x * ka * (m - n) + b.x * kb * n,
        y: a.y * ka * (m - n) + b.y * kb * n,
        den: a.den * ka * m,
    }
}

/// The terms of `lerp_model(a, b, n, m)` and its coordinates fit in `i64`,
/// its denominator in `u64`.
pub open spec fn lerp_fits(a: PointModel, b: PointModel, n: int, m: int) -> bool {
    let (ka, kb) = common_scales(a, b);
    let r = lerp_model(a, b, n, m);
    &&& in_i64(a.x * ka * (m - n))
    &&& in_i64(b.x * kb * n)
    &&& in_i64(a.y * ka * (m - n))
    &&& in_i64(b.y * kb * n)
    &&& in_i64(r.x)
    &&& in_i64(r.y)
    &&& r.den <= u64::MAX
}

proof fn lemma_scaled_bound(v: i64, k: u64)
    ensures
        i128::MIN <= v * k <= i128::MAX,
{
    assert(-0x8000_0000_0000_0000 * 0xffff_ffff_ffff_ffffint <= v * k <= 0x7fff_ffff_ffff_ffff
        * 0xffff_ffff_ffff_ffffint) by (nonlinear_arith);
}

proof fn lemma_den_bound(d: int, k: int, m: int)
    requires
        d > 0,
        k > 0,
        m > 0,
    ensures
        0 < d * k <= d * k * m,
{
    assert(0 < d * k <= d * k * m) by (nonlinear_arith)
        requires
            d > 0,
            k > 0,
            m > 0,
    ;
}

/// Denoting the same point is transitive among models that denote points.
pub proof fn lemma_same_place_trans(p: PointModel, q: PointModel, r: PointModel)
    requires
        p.wf(),
        q.wf(),
        r.wf(),
        p.same_place(q),
        q.same_place(r),
    ensures
        p.same_place(r),
{
    assert(p.x * r.den * q.den == r.x * p.den * q.den) by (nonlinear_arith)
        requires
            p.x * q.den == q.x * p.den,
            q.x * r.den == r.x * q.den,
    ;
    assert(p.y * r.den * q.den == r.y * p.den * q.den) by (nonlinear_arith)
        requires
            p.y * q.den == q.y * p.den,
            q.y * r.den == r.y * q.den,
    ;
    assert(p.x * r.den == r.x * p.den) by (nonlinear_arith)
        requires
            p.x * r.den * q.den == r.x * p.den * q.den,
            q.den > 0,
    ;
    assert(p.y * r.den == r.y * p.den) by (nonlinear_arith)
        requires
            p.y * r.den * q.den == r.y * p.den * q.den,
            q.den > 0,
    ;
}

/// Interpolation between two points, at a parameter with a positive
/// denominator, denotes a point, and its coordinates are the weighted means
/// `(a * (m - n) + b * n) / m` of theirs.
pub proof fn lemma_lerp_value(a: PointModel, b: PointModel, n: int, m: int)
    requires
        a.wf(),
        b.wf(),
        m > 0,
    ensures
        lerp_model(a, b, n, m).wf(),
        lerp_model(a, b, n, m).x * (a.den * b.den * m) == (a.x * b.den * (m - n) + b.x * a.den
            * n) * lerp_model(a, b, n, m).den,
        lerp_model(a, b, n, m).y * (a.den * b.den * m) == (a.y * b.den * (m - n) + b.y * a.den
            * n) * lerp_model(a, b, n, m).den,
{
    let r = lerp_model(a, b, n, m);
    let (ka, kb) = common_scales(a, b);
    assert(r.den > 0) by (nonlinear_arith)
        requires
            r.den == a.den * ka * m,
            a.den > 0,
            ka > 0,
            m > 0,
    ;
    if a.den == b.den {
        let d = a.den;
        lemma_factor_common(a.x, b.x, d, m - n, n, m);
        lemma_factor_common(a.y, b.y, d, m - n, n, m);
    } else {
        assert(r.den == a.den * b.den * m);
    }
}

proof fn lemma_factor_common(u: int, v: int, d: int, w: int, n: int, m: int)
    ensures
        (u * 1 * w + v * 1 * n) * (d * d * m) == (u * d * w + v * d * n) * (d * 1 * m),
{
    assert(u * 1 * w == u * w);
    assert(v * 1 * n == v * n);
    assert(d * 1 * m == d * m);
    assert(u * d * w == (u * w) * d) by (nonlinear_arith);
    assert(v * d * n == (v * n) * d) by (nonlinear_arith);
    let p = u * w;
    let q = v * n;
    assert((p + q) * (d * d * m) == (p * d + q * d) * (d * m)) by (nonlinear_arith);
}

/// Interpolating at `t = 0` gives the first point and at `t = 1` the
/// second; interpolating between a point and itself gives that point for
/// every `t`.
pub proof fn lemma_lerp_ends(a: PointModel, b: PointModel, n: int, m: int)
    requires
        a.wf(),
        b.wf(),
        m > 0,
    ensures
        lerp_model(a, b, 0, m).same_place(a),
        lerp_model(a, b, m, m).same_place(b),
        lerp_model(a, a, n, m).same_place(a),
{
    let (ka, kb) = common_scales(a, b);
    assert(a.den * ka == b.den * kb) by (nonlinear_arith)
        requires
            (ka, kb) == common_scales(a, b),
    ;
    assert((a.x * ka * (m - 0) + b.x * kb * 0) * a.den == a.x * (a.den * ka * m)) by (
    nonlinear_arith);
    assert((a.y * ka * (m - 0) + b.y * kb * 0) * a.den == a.y * (a.den * ka * m)) by (
    nonlinear_arith);
    assert((a.x * ka * (m - m) + b.x * kb * m) * b.den == b.x * (a.den * ka * m)) by (
    nonlinear_arith)
        requires
            a.den * ka == b.den * kb,
    ;
    assert((a.y * ka * (m - m) + b.y * kb * m) * b.den == b.y * (a.den * ka * m)) by (
    nonlinear_arith)
        requires
            a.den * ka == b.den * kb,
    ;
    assert((a.x * 1 * (m - n) + a.x * 1 * n) * a.den == a.x * (a.den * 1 * m)) by (
    nonlinear_arith);
    assert((a.y * 1 * (m - n) + a.y * 1 * n) * a.den == a.y * (a.den * 1 * m)) by (
    nonlinear_arith);
}

/// Interpolating from `b` to `a` at `t` is interpolating from `a` to `b` at
/// `1 - t`, term for term.
pub proof fn lemma_lerp_swap(a: PointModel, b: PointModel, n: int, m: int)
    ensures
        lerp_model(b, a, n, m) == lerp_model(a, b, m - n, m),
        lerp_fits(b, a, n, m) == lerp_fits(a, b, m - n, m),
{
    assert(b.den * a.den * m == a.den * b.den * m) by (nonlinear_arith);
    assert(m - (m - n) == n);
}

/// `v * k * w` where it fits in `i64`.
fn checked_term(v: i64, k: u64, w: i128) -> (r: Option<i64>)
    ensures
        r is Some <==> in_i64(v * k * w),
        r matches Some(t) ==> t == v * k * w,
{
    proof {
        lemma_scaled_bound(v, k);
    }
    let vk = (v as i128) * (k as i128);
    match vk.checked_mul(w) {
        Some(t) => {
            if i64::MIN as i128 <= t && t <= i64::MAX as i128 {
                Some(t as i64)
            } else {
                None
            }
        },
        None => None,
    }
}

/// Linear interpolation `a * (1 - t) + b * t`, exactly.
pub fn lerp(point_a: &Point, point_b: &Point, parameter: Parameter) -> (r: Point)
    requires
        point_a.wf(),
        point_b.wf(),
        parameter.wf(),
        lerp_fits(point_a@, point_b@, parameter.num as int, parameter.den as int),
    ensures
        r.wf(),
        r@ == lerp_model(point_a@, point_b@, parameter.num as int, parameter.den as int),
{
    let (ka, kb): (u64, u64) = if point_a.den == point_b.den {
        (1, 1)
    } else {
        (point_b.den, point_a.den)
    };
    proof {
        lemma_scaled_bound(point_a.x, ka);
        lemma_scaled_bound(point_b.x, kb);
        lemma_scaled_bound(point_a.y, ka);
        lemma_scaled_bound(point_b.y, kb);
        lemma_den_bound(point_a.den as int, ka as int, parameter.den as int);
    }
    let n = parameter.num as i128;
    let rest = parameter.den as i128 - n;
    let x = (point_a.x as i128) * (ka as i128) * rest + (point_b.x as i128) * (kb as i128) * n;
    let y = (point_a.y as i128) * (ka as i128) * rest + (point_b.y as i128) * (kb as i128) * n;
    let den = point_a.den * ka * parameter.den;
    Point { x: x as i64, y: y as i64, den }
}

/// Linear interpolation `a * (1 - t) + b * t`, or `None` where
/// `lerp_fits` does not hold.
pub fn checked_lerp(point_a: &Point, point_b: &Point, parameter: Parameter) -> (r: Option<Point>)
    requires
        point_a.wf(),
        point_b.wf(),
        parameter.wf(),
    ensures
        r is Some <==> lerp_fits(point_a@, point_b@, parameter.num as int, parameter.den as int),
        r matches Some(p) ==> p.wf() && p@ == lerp_model(
            point_a@,
            point_b@,
            parameter.num as int,
            parameter.den as int,
        ),
{
    let (ka, kb): (u64, u64) = if point_a.den == point_b.den {
        (1, 1)
    } else {
        (point_b.den, point_a.den)
    };
    let rest = parameter.den as i128 - parameter.num as i128;
    let n = parameter.num as i128;
    let terms = (
        checked_term(point_a.x, ka, rest),
        checked_term(point_b.x, kb, n),
        checked_term(point_a.y, ka, rest),
        checked_term(point_b.y, kb, n),
    );
    let (ax, bx, ay, by) = match terms {
        (Some(ax), Some(bx), Some(ay), Some(by)) => (ax, bx, ay, by),
        _ => {
            return None;
        },
    };
    proof {
        lemma_den_bound(point_a.den as int, ka as int, parameter.den as int);
    }
    let coords = (ax.checked_add(bx), ay.checked_add(by), point_a.den.checked_mul(ka));
    match coords {
        (Some(x), Some(y), Some(dk)) => match dk.checked_mul(parameter.den) {
            Some(den) => Some(Point { x, y, den }),
            None => None,
        },
        _ => None,
    }
}

} // verus!
