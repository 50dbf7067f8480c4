use vstd::arithmetic::mul::{
    lemma_mul_is_associative, lemma_mul_is_commutative, lemma_mul_is_distributive_add_other_way,
};
use vstd::prelude::*;
use crate::point::{
    checked_lerp, common_scales, lemma_lerp_ends, lemma_lerp_swap, lemma_lerp_value, lemma_same_place_trans,
    lerp, lerp_fits, lerp_model, Parameter, Point, PointModel,
};

verus! {

/// De Casteljau's construction of the cubic Bézier curve with control points
/// `p0, p1, p2, p3` at `t = n / m`: three rounds of interpolation.
pub open spec fn casteljau(
    p0: PointModel,
    p1: PointModel,
    p2: PointModel,
    p3: PointModel,
    n: int,
    m: int,
) -> PointModel {
    let a = lerp_model(p0, p1, n, m);
    let b = lerp_model(p1, p2, n, m);
    let c = lerp_model(p2, p3, n, m);
    lerp_model(lerp_model(a, b, n, m), lerp_model(b, c, n, m), n, m)
}

/// Each of the six interpolations of `casteljau(p0, p1, p2, p3, n, m)` fits
/// the machine types of a `Point`.
pub open spec fn casteljau_fits(
    p0: PointModel,
    p1: PointModel,
    p2: PointModel,
    p3: PointModel,
    n: int,
    m: int,
) -> bool {
    let a = lerp_model(p0, p1, n, m);
    let b = lerp_model(p1, p2, n, m);
    let c = lerp_model(p2, p3, n, m);
    &&& lerp_fits(p0, p1, n, m)
    &&& lerp_fits(p1, p2, n, m)
    &&& lerp_fits(p2, p3, n, m)
    &&& lerp_fits(a, b, n, m)
    &&& lerp_fits(b, c, n, m)
    &&& lerp_fits(lerp_model(a, b, n, m), lerp_model(b, c, n, m), n, m)
}

/// The cubic Bernstein combination of `c0, c1, c2, c3` at `t = n / m`,
/// scaled by `m^3`: `(m-n)^3 c0 + 3 (m-n)^2 n c1 + 3 (m-n) n^2 c2 + n^3 c3`.
pub open spec fn bernstein(c0: int, c1: int, c2: int, c3: int, n: int, m: int) -> int {
    let w = m - n;
    w * w * w * c0 + 3 * (w * w * n) * c1 + 3 * (w * n * n) * c2 + n * n * n * c3
}

/// A cubic Bézier curve: start point, two control points, end point.
#[derive(Clone, Copy, Debug)]
pub struct BezierCurve {
    pub points: (Point, Point, Point, Point),
}

impl BezierCurve {
    pub open spec fn wf(self) -> bool {
        &&& self.points.0.wf()
        &&& self.points.1.wf()
        &&& self.points.2.wf()
        &&& self.points.3.wf()
    }

    /// The point of the curve at `t = n / m`.
    pub open spec fn at(self, n: int, m: int) -> PointModel {
        casteljau(self.points.0@, self.points.1@, self.points.2@, self.points.3@, n, m)
    }

    /// The construction of `self.at(n, m)` fits the machine types.
    pub open spec fn fits_at(self, n: int, m: int) -> bool {
        casteljau_fits(self.points.0@, self.points.1@, self.points.2@, self.points.3@, n, m)
    }

    /// The curve with control points `p0, p1, p2, p3`, in that order.
    pub fn new(p0: Point, p1: Point, p2: Point, p3: Point) -> (r: BezierCurve)
        ensures
            r.points == (p0, p1, p2, p3),
    {
        BezierCurve { points: (p0, p1, p2, p3) }
    }

    /// The point of the curve at `parameter`, by De Casteljau's construction.
    pub fn evaluate(&self, parameter: Parameter) -> (r: Point)
        requires
            self.wf(),
            parameter.wf(),
            self.fits_at(parameter.num as int, parameter.den as int),
        ensures
            r.wf(),
            r@ == self.at(parameter.num as int, parameter.den as int),
    {
        let (p0, p1, p2, p3) = self.points;
        let a = lerp(&p0, &p1, parameter);
        let b = lerp(&p1, &p2, parameter);
        let c = lerp(&p2, &p3, parameter);
        let ab = lerp(&a, &b, parameter);
        let bc = lerp(&b, &c, parameter);
        lerp(&ab, &bc, parameter)
    }

    /// The point of the curve at `parameter`, or `None` where its
    /// construction does not fit the machine types.
    pub fn checked_evaluate(&self, parameter: Parameter) -> (r: Option<Point>)
        requires
            self.wf(),
            parameter.wf(),
        ensures
            r is Some <==> self.fits_at(parameter.num as int, parameter.den as int),
            r matches Some(p) ==> p.wf() && p@ == self.at(
                parameter.num as int,
                parameter.den as int,
            ),
    {
        let (p0, p1, p2, p3) = self.points;
        let first = (
            checked_lerp(&p0, &p1, parameter),
            checked_lerp(&p1, &p2, parameter),
            checked_lerp(&p2, &p3, parameter),
        );
        let (a, b, c) = match first {
            (Some(a), Some(b), Some(c)) => (a, b, c),
            _ => {
                return None;
            },
        };
        let second = (checked_lerp(&a, &b, parameter), checked_lerp(&b, &c, parameter));
        match second {
            (Some(ab), Some(bc)) => checked_lerp(&ab, &bc, parameter),
            _ => None,
        }
    }
}

/// The curve starts at its first control point (`t = 0`) and ends at its
/// last (`t = 1`).
pub proof fn lemma_evaluate_endpoints(
    p0: PointModel,
    p1: PointModel,
    p2: PointModel,
    p3: PointModel,
    m: int,
)
    requires
        p0.wf(),
        p1.wf(),
        p2.wf(),
        p3.wf(),
        m > 0,
    ensures
        casteljau(p0, p1, p2, p3, 0, m).same_place(p0),
        casteljau(p0, p1, p2, p3, m, m).same_place(p3),
{
    let a = lerp_model(p0, p1, 0, m);
    let b = lerp_model(p1, p2, 0, m);
    let ab = lerp_model(a, b, 0, m);
    lemma_lerp_value(p0, p1, 0, m);
    lemma_lerp_value(p1, p2, 0, m);
    lemma_lerp_value(a, b, 0, m);
    lemma_lerp_ends(p0, p1, 0, m);
    lemma_lerp_ends(a, b, 0, m);
    lemma_lerp_value(p2, p3, 0, m);
    let c = lerp_model(p2, p3, 0, m);
    lemma_lerp_value(b, c, 0, m);
    lemma_lerp_ends(ab, lerp_model(b, c, 0, m), 0, m);
    lemma_lerp_value(ab, lerp_model(b, c, 0, m), 0, m);
    lemma_same_place_trans(casteljau(p0, p1, p2, p3, 0, m), ab, a);
    lemma_same_place_trans(casteljau(p0, p1, p2, p3, 0, m), a, p0);

    let b1 = lerp_model(p1, p2, m, m);
    let c1 = lerp_model(p2, p3, m, m);
    let bc1 = lerp_model(b1, c1, m, m);
    lemma_lerp_value(p1, p2, m, m);
    lemma_lerp_value(p2, p3, m, m);
    lemma_lerp_value(b1, c1, m, m);
    let a1 = lerp_model(p0, p1, m, m);
    lemma_lerp_value(p0, p1, m, m);
    lemma_lerp_value(a1, b1, m, m);
    lemma_lerp_ends(p2, p3, m, m);
    lemma_lerp_ends(b1, c1, m, m);
    lemma_lerp_ends(lerp_model(a1, b1, m, m), bc1, m, m);
    lemma_lerp_value(lerp_model(a1, b1, m, m), bc1, m, m);
    lemma_same_place_trans(casteljau(p0, p1, p2, p3, m, m), bc1, c1);
    lemma_same_place_trans(casteljau(p0, p1, p2, p3, m, m), c1, p3);
}

/// One round of interpolation, scaled: the weights `w` and `n` applied to
/// consecutive terms of a combination with coefficients `c0, c1, c2`.
proof fn lemma_quadratic_expansion(c0: int, c1: int, c2: int, w: int, n: int)
    ensures
        (c0 * w + c1 * n) * w + (c1 * w + c2 * n) * n == c0 * (w * w) + 2 * (c1 * (w * n)) + c2
            * (n * n),
{
    lemma_mul_is_distributive_add_other_way(w, c0 * w, c1 * n);
    lemma_mul_is_distributive_add_other_way(n, c1 * w, c2 * n);
    lemma_mul_is_associative(c0, w, w);
    lemma_mul_is_associative(c1, n, w);
    lemma_mul_is_associative(c1, w, n);
    lemma_mul_is_associative(c2, n, n);
    lemma_mul_is_commutative(n, w);
}

proof fn lemma_cubic_expansion(c0: int, c1: int, c2: int, c3: int, w: int, n: int)
    ensures
        ((c0 * w + c1 * n) * w + (c1 * w + c2 * n) * n) * w + ((c1 * w + c2 * n) * w + (c2 * w
            + c3 * n) * n) * n == w * w * w * c0 + 3 * (w * w * n) * c1 + 3 * (w * n * n) * c2 + n
            * n * n * c3,
{
    lemma_quadratic_expansion(c0, c1, c2, w, n);
    lemma_quadratic_expansion(c1, c2, c3, w, n);
    let ww = w * w;
    let wn = w * n;
    let nn = n * n;
    // (c0 ww + 2 c1 wn + c2 nn) w + (c1 ww + 2 c2 wn + c3 nn) n
    lemma_mul_is_distributive_add_other_way(w, c0 * ww + 2 * (c1 * wn), c2 * nn);
    lemma_mul_is_distributive_add_other_way(w, c0 * ww, 2 * (c1 * wn));
    lemma_mul_is_distributive_add_other_way(n, c1 * ww + 2 * (c2 * wn), c3 * nn);
    lemma_mul_is_distributive_add_other_way(n, c1 * ww, 2 * (c2 * wn));
    lemma_mul_is_associative(2, c1 * wn, w);
    lemma_mul_is_associative(2, c2 * wn, n);
    lemma_mul_is_associative(c0, ww, w);
    lemma_mul_is_associative(c1, wn, w);
    lemma_mul_is_associative(c2, nn, w);
    lemma_mul_is_associative(c1, ww, n);
    lemma_mul_is_associative(c2, wn, n);
    lemma_mul_is_associative(c3, nn, n);
    lemma_mul_is_associative(w, w, n);
    lemma_mul_is_associative(w, n, n);
    lemma_mul_is_commutative(c0, ww * w);
    lemma_mul_is_commutative(c1, wn * w);
    lemma_mul_is_commutative(c1, ww * n);
    lemma_mul_is_commutative(c2, nn * w);
    lemma_mul_is_commutative(c2, wn * n);
    lemma_mul_is_commutative(c3, nn * n);
    lemma_mul_is_commutative(wn, w);
    lemma_mul_is_commutative(nn, w);
    lemma_mul_is_commutative(w * w, n);
    lemma_mul_is_associative(n, w, w);
    lemma_mul_is_associative(w, n, w);
    lemma_mul_is_commutative(n, w);
    lemma_mul_is_associative(n, n, w);
    lemma_mul_is_associative(w, w, n);
    lemma_mul_is_distributive_add_other_way(c1, w * w * n, 2 * (w * w * n));
    lemma_mul_is_distributive_add_other_way(c2, w * n * n, 2 * (w * n * n));
    lemma_mul_is_associative(2, w * w * n, c1);
    lemma_mul_is_associative(2, w * n * n, c2);
    lemma_mul_is_commutative(w * w * n, c1);
    lemma_mul_is_commutative(w * n * n, c2);
}

/// Where the four control points share the denominator `d`, the curve at
/// `t = n / m` is the cubic Bernstein combination of their coordinates,
/// over the denominator `d * m^3`.
pub proof fn lemma_evaluate_bernstein(
    p0: PointModel,
    p1: PointModel,
    p2: PointModel,
    p3: PointModel,
    n: int,
    m: int,
)
    requires
        p0.den == p1.den == p2.den == p3.den,
    ensures
        casteljau(p0, p1, p2, p3, n, m) == (PointModel {
            x: bernstein(p0.x, p1.x, p2.x, p3.x, n, m),
            y: bernstein(p0.y, p1.y, p2.y, p3.y, n, m),
            den: p0.den * m * m * m,
        }),
{
    let w = m - n;
    let a = lerp_model(p0, p1, n, m);
    let b = lerp_model(p1, p2, n, m);
    let c = lerp_model(p2, p3, n, m);
    assert(common_scales(p0, p1) == (1int, 1int));
    assert(p0.x * 1 == p0.x && p1.x * 1 == p1.x && p0.y * 1 == p0.y && p1.y * 1 == p1.y);
    assert(p0.den * 1 == p0.den);
    assert(a == (PointModel { x: p0.x * w + p1.x * n, y: p0.y * w + p1.y * n, den: p0.den * m }));
    assert(b == (PointModel { x: p1.x * w + p2.x * n, y: p1.y * w + p2.y * n, den: p0.den * m }));
    assert(c == (PointModel { x: p2.x * w + p3.x * n, y: p2.y * w + p3.y * n, den: p0.den * m }));
    let ab = lerp_model(a, b, n, m);
    let bc = lerp_model(b, c, n, m);
    assert(ab == (PointModel { x: a.x * w + b.x * n, y: a.y * w + b.y * n, den: p0.den * m * m }));
    assert(bc == (PointModel { x: b.x * w + c.x * n, y: b.y * w + c.y * n, den: p0.den * m * m }));
    assert(lerp_model(ab, bc, n, m) == (PointModel {
        x: ab.x * w + bc.x * n,
        y: ab.y * w + bc.y * n,
        den: p0.den * m * m * m,
    }));
    lemma_cubic_expansion(p0.x, p1.x, p2.x, p3.x, w, n);
    lemma_cubic_expansion(p0.y, p1.y, p2.y, p3.y, w, n);
}

/// The curve with its control points reversed, at `t`, is the curve at
/// `1 - t`: the same point, built from the same terms.
pub proof fn lemma_evaluate_reversed(
    p0: PointModel,
    p1: PointModel,
    p2: PointModel,
    p3: PointModel,
    n: int,
    m: int,
)
    ensures
        casteljau(p3, p2, p1, p0, n, m) == casteljau(p0, p1, p2, p3, m - n, m),
        casteljau_fits(p3, p2, p1, p0, n, m) == casteljau_fits(p0, p1, p2, p3, m - n, m),
{
    let k = m - n;
    let a = lerp_model(p0, p1, k, m);
    let b = lerp_model(p1, p2, k, m);
    let c = lerp_model(p2, p3, k, m);
    lemma_lerp_swap(p0, p1, n, m);
    lemma_lerp_swap(p1, p2, n, m);
    lemma_lerp_swap(p2, p3, n, m);
    lemma_lerp_swap(a, b, n, m);
    lemma_lerp_swap(b, c, n, m);
    let ab = lerp_model(a, b, k, m);
    let bc = lerp_model(b, c, k, m);
    lemma_lerp_swap(ab, bc, n, m);
}

/// A curve whose four control points denote one point stays at that point
/// for every `t`.
pub proof fn lemma_evaluate_constant(p: PointModel, n: int, m: int)
    requires
        p.wf(),
        m > 0,
    ensures
        casteljau(p, p, p, p, n, m).same_place(p),
{
    let a = lerp_model(p, p, n, m);
    let aa = lerp_model(a, a, n, m);
    lemma_lerp_value(p, p, n, m);
    lemma_lerp_value(a, a, n, m);
    lemma_lerp_value(aa, aa, n, m);
    lemma_lerp_ends(p, p, n, m);
    lemma_lerp_ends(a, a, n, m);
    lemma_lerp_ends(aa, aa, n, m);
    lemma_same_place_trans(lerp_model(aa, aa, n, m), aa, a);
    lemma_same_place_trans(lerp_model(aa, aa, n, m), a, p);
}

} // verus!
