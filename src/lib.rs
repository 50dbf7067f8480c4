//! Exact evaluation and sampling of cubic Bézier curves.
//!
//! Coordinates and curve parameters are exact fractions, so De Casteljau's
//! construction is carried out without rounding and its laws hold exactly.
mod curve;
mod point;
mod sampling;

pub use point::{
    checked_lerp, common_scales, in_i64, lemma_lerp_ends, lemma_lerp_swap, lemma_lerp_value,
    lemma_same_place_trans, lerp, lerp_fits, lerp_model, Parameter, Point, PointModel,
};
pub use curve::{
    bernstein, casteljau, casteljau_fits, lemma_evaluate_bernstein, lemma_evaluate_constant,
    lemma_evaluate_endpoints,
    lemma_evaluate_reversed, BezierCurve,
};
pub use sampling::{even_parameters, sample_curve, sample_parameters};
