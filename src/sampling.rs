use vstd::prelude::*;
use crate::curve::{lemma_evaluate_endpoints, BezierCurve};
use crate::point::{Parameter, Point};

verus! {

/// `count` parameters evenly spaced over `[0, 1]`, both ends included:
/// `t_i = i / (count - 1)`.
pub open spec fn even_parameters(count: nat) -> Seq<Parameter> {
    Seq::new(count, |i: int| Parameter { num: i as i64, den: (count - 1) as u64 })
}

/// The parameters `t_i = i / (count - 1)` for `i` in `0..count`, in order.
pub fn sample_parameters(count: u32) -> (r: Vec<Parameter>)
    requires
        count >= 2,
    ensures
        r@ == even_parameters(count as nat),
        r.len() == count,
        r[0].num == 0,
        r[count - 1].num == r[count - 1].den,
        forall|i: int| 0 <= i < r.len() ==> r[i].wf(),
        forall|i: int, j: int|
            0 <= i < j < r.len() ==> r[i].den == r[j].den && r[i].num < r[j].num,
{
    let den = (count - 1) as u64;
    let mut r: Vec<Parameter> = Vec::new();
    let mut i: u32 = 0;
    while i < count
        invariant
            i <= count,
            den == count - 1,
            r.len() == i,
            forall|j: int| 0 <= j < i ==> r[j] == (Parameter { num: j as i64, den }),
        decreases count - i,
    {
        r.push(Parameter { num: i as i64, den });
        i = i + 1;
    }
    assert(r@ =~= even_parameters(count as nat));
    r
}

/// The points of `curve` at `count` parameters evenly spaced over `[0, 1]`,
/// in order of the parameter; `None` where one of them does not fit the
/// machine types.
pub fn sample_curve(curve: &BezierCurve, count: u32) -> (r: Option<Vec<Point>>)
    requires
        curve.wf(),
        count >= 2,
    ensures
        r is None <==> exists|i: int| 0 <= i < count && !#[trigger] curve.fits_at(i, count - 1),
        r matches Some(v) ==> {
            &&& v.len() == count
            &&& forall|i: int|
                0 <= i < count ==> v[i].wf() && v[i]@ == curve.at(i, count - 1)
            &&& v[0]@.same_place(curve.points.0@)
            &&& v[count - 1]@.same_place(curve.points.3@)
        },
{
    let parameters = sample_parameters(count);
    let mut v: Vec<Point> = Vec::new();
    let mut i: usize = 0;
    while i < parameters.len()
        invariant
            curve.wf(),
            count >= 2,
            parameters@ == even_parameters(count as nat),
            parameters.len() == count,
            i <= count,
            v.len() == i,
            forall|j: int| 0 <= j < i ==> v[j].wf() && v[j]@ == curve.at(j, count - 1),
            forall|j: int| 0 <= j < i ==> #[trigger] curve.fits_at(j, count - 1),
        decreases count - i,
    {
        let parameter = parameters[i];
        assert(parameter == even_parameters(count as nat)[i as int]);
        match curve.checked_evaluate(parameter) {
            Some(p) => v.push(p),
            None => {
                return None;
            },
        }
        i = i + 1;
    }
    proof {
        lemma_evaluate_endpoints(
            curve.points.0@,
            curve.points.1@,
            curve.points.2@,
            curve.points.3@,
            count - 1,
        );
    }
    Some(v)
}

} // verus!
