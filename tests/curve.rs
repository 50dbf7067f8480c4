use bezier_plot::{
    checked_lerp, lerp, sample_curve, sample_parameters, BezierCurve, Parameter, Point,
};

fn scenario_curve() -> BezierCurve {
    BezierCurve::new(
        Point::new(-1, 0, 2),
        Point::new(-1, 1, 2),
        Point::new(1, 1, 2),
        Point::new(1, 0, 2),
    )
}

#[test]
fn point_new_and_to_primitive() {
    let p = Point::new(-3, 7, 4);
    assert_eq!(p.to_primitive(), ((-3, 4), (7, 4)));
}

#[test]
fn same_place_ignores_denominator() {
    assert!(Point::new(1, 3, 2).same_place(&Point::new(4, 12, 8)));
    assert!(!Point::new(1, 3, 2).same_place(&Point::new(1, 3, 4)));
    assert!(!Point::new(1, 3, 2).same_place(&Point::new(2, 5, 4)));
}

#[test]
fn lerp_at_zero_and_one() {
    let a = Point::new(3, -5, 7);
    let b = Point::new(-2, 9, 5);
    assert!(lerp(&a, &b, Parameter::new(0, 1)).same_place(&a));
    assert!(lerp(&a, &b, Parameter::new(1, 1)).same_place(&b));
    assert!(lerp(&a, &b, Parameter::new(0, 9)).same_place(&a));
    assert!(lerp(&a, &b, Parameter::new(9, 9)).same_place(&b));
}

#[test]
fn lerp_of_a_point_with_itself() {
    let a = Point::new(3, -5, 7);
    for num in [-4i64, 0, 1, 3, 11] {
        assert!(lerp(&a, &a, Parameter::new(num, 3)).same_place(&a));
    }
}

#[test]
fn lerp_exact_value_shared_denominator() {
    let a = Point::new(0, 0, 1);
    let b = Point::new(10, 4, 1);
    let r = lerp(&a, &b, Parameter::new(1, 4));
    assert_eq!(r.to_primitive(), ((10, 4), (4, 4)));
    assert!(r.same_place(&Point::new(5, 2, 2)));
}

#[test]
fn lerp_exact_value_distinct_denominators() {
    let a = Point::new(1, 0, 2);
    let b = Point::new(1, 1, 3);
    let r = lerp(&a, &b, Parameter::new(1, 2));
    assert_eq!(r.to_primitive(), ((5, 12), (2, 12)));
}

#[test]
fn lerp_extrapolates() {
    let a = Point::new(1, 1, 1);
    let b = Point::new(3, 2, 1);
    assert!(lerp(&a, &b, Parameter::new(2, 1)).same_place(&Point::new(5, 3, 1)));
    assert!(lerp(&a, &b, Parameter::new(-1, 1)).same_place(&Point::new(-1, 0, 1)));
}

#[test]
fn checked_lerp_agrees_with_lerp() {
    let a = Point::new(1, 0, 2);
    let b = Point::new(1, 1, 3);
    let t = Parameter::new(1, 2);
    let r = checked_lerp(&a, &b, t).unwrap();
    assert_eq!(r.to_primitive(), lerp(&a, &b, t).to_primitive());
}

#[test]
fn checked_lerp_overflow() {
    let a = Point::new(i64::MAX, 0, 1);
    assert!(checked_lerp(&a, &a, Parameter::new(2, 1)).is_none());
    let b = Point::new(0, 0, u64::MAX);
    assert!(checked_lerp(&a, &b, Parameter::new(1, 2)).is_none());
    assert!(checked_lerp(&b, &b, Parameter::new(1, 2)).is_none());
}

#[test]
fn evaluate_scenario_points() {
    let curve = scenario_curve();
    assert!(curve.evaluate(Parameter::new(0, 1)).same_place(&Point::new(-1, 0, 2)));
    assert!(curve.evaluate(Parameter::new(1, 1)).same_place(&Point::new(1, 0, 2)));
    let mid = curve.evaluate(Parameter::new(1, 2));
    assert!(mid.same_place(&Point::new(0, 3, 8)));
    assert_eq!(mid.to_primitive(), ((0, 16), (6, 16)));
}

#[test]
fn evaluate_endpoints_any_control_points() {
    let curve = BezierCurve::new(
        Point::new(7, -2, 3),
        Point::new(-4, 5, 2),
        Point::new(9, 9, 7),
        Point::new(-1, 6, 5),
    );
    assert!(curve.evaluate(Parameter::new(0, 10)).same_place(&Point::new(7, -2, 3)));
    assert!(curve.evaluate(Parameter::new(10, 10)).same_place(&Point::new(-1, 6, 5)));
}

#[test]
fn evaluate_reversed_is_one_minus_t() {
    let curve = BezierCurve::new(
        Point::new(7, -2, 3),
        Point::new(-4, 5, 3),
        Point::new(9, 9, 7),
        Point::new(-1, 6, 5),
    );
    let (p0, p1, p2, p3) = curve.points;
    let reversed = BezierCurve::new(p3, p2, p1, p0);
    for (num, den) in [(0i64, 10u64), (3, 10), (7, 10), (10, 10), (-2, 10), (13, 10)] {
        let back = reversed.evaluate(Parameter::new(num, den));
        let forth = curve.evaluate(Parameter::new(den as i64 - num, den));
        assert_eq!(back.to_primitive(), forth.to_primitive());
    }
}

#[test]
fn evaluate_degenerate_curve() {
    let p = Point::new(-5, 8, 3);
    let curve = BezierCurve::new(p, p, p, p);
    for num in [-3i64, 0, 1, 2, 3, 8] {
        assert!(curve.evaluate(Parameter::new(num, 3)).same_place(&p));
    }
}

#[test]
fn evaluate_cubic_formula() {
    // B(t) = (1-t)^3 p0 + 3 (1-t)^2 t p1 + 3 (1-t) t^2 p2 + t^3 p3 at t = 1/3.
    let curve = BezierCurve::new(
        Point::new(0, 0, 1),
        Point::new(3, 9, 1),
        Point::new(6, 0, 1),
        Point::new(9, 3, 1),
    );
    // x: (12*3 + 6*6 + 9) / 27 = 81 / 27; y: (12*9 + 1*3) / 27 = 111 / 27.
    let r = curve.evaluate(Parameter::new(1, 3));
    assert!(r.same_place(&Point::new(81, 111, 27)));
    assert_eq!(r.to_primitive(), ((81, 27), (111, 27)));
}

#[test]
fn checked_evaluate_matches_and_overflows() {
    let curve = scenario_curve();
    let t = Parameter::new(37, 100);
    let r = curve.checked_evaluate(t).unwrap();
    assert_eq!(r.to_primitive(), curve.evaluate(t).to_primitive());
    let far = BezierCurve::new(
        Point::new(i64::MAX / 2, 0, 1),
        Point::new(0, 0, 1),
        Point::new(0, 0, 1),
        Point::new(0, 0, 1),
    );
    assert!(far.checked_evaluate(Parameter::new(-3, 1)).is_none());
}

#[test]
fn sample_parameters_even_spacing() {
    let ts = sample_parameters(101);
    assert_eq!(ts.len(), 101);
    assert_eq!(ts[0], Parameter::new(0, 100));
    assert_eq!(ts[100], Parameter::new(100, 100));
    assert_eq!(ts[37], Parameter::new(37, 100));
    for w in ts.windows(2) {
        assert_eq!(w[0].den, w[1].den);
        assert!(w[0].num < w[1].num);
    }
    assert_eq!(ts, sample_parameters(101));
}

#[test]
fn sample_parameters_two() {
    assert_eq!(sample_parameters(2), vec![Parameter::new(0, 1), Parameter::new(1, 1)]);
}

#[test]
fn sample_scenario_curve() {
    let curve = scenario_curve();
    let points = sample_curve(&curve, 101).unwrap();
    assert_eq!(points.len(), 101);
    assert!(points[0].same_place(&Point::new(-1, 0, 2)));
    assert!(points[100].same_place(&Point::new(1, 0, 2)));
    assert!(points[50].same_place(&Point::new(0, 3, 8)));
    for (i, p) in points.iter().enumerate() {
        let expected = curve.evaluate(Parameter::new(i as i64, 100));
        assert_eq!(p.to_primitive(), expected.to_primitive());
    }
    let again = sample_curve(&curve, 101).unwrap();
    for (p, q) in points.iter().zip(again.iter()) {
        assert_eq!(p.to_primitive(), q.to_primitive());
    }
}

#[test]
fn sample_overflow_is_none() {
    let curve = BezierCurve::new(
        Point::new(i64::MAX, 0, 1),
        Point::new(0, 0, 1),
        Point::new(0, 0, 1),
        Point::new(0, 0, 1),
    );
    assert!(sample_curve(&curve, 101).is_none());
}
