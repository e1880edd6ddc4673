//! Tests of the summary statistics: means, raw and central moments,
//! skewness and kurtosis, with a plain floating-point scalar.
use binned_stats::scalar::Scalar;
use binned_stats::summary_statistics::{
    binomial_coefficient, central_moment, central_moment_coefficients, central_moments,
    geometric_mean, harmonic_mean, horner_method, kurtosis, mean, moments, skewness,
};
use noisy_float::types::{n64, N64};
use num_traits::Float;
use rand::RngExt;

#[derive(Clone, Copy, Debug, PartialEq)]
struct Val(f64);

impl Scalar for Val {
    fn sp_zero() -> Val {
        unreachable!()
    }
    fn sp_one() -> Val {
        unreachable!()
    }
    fn sp_from_usize(_n: usize) -> Val {
        unreachable!()
    }
    fn sp_add(self, _other: Val) -> Val {
        unreachable!()
    }
    fn sp_sub(self, _other: Val) -> Val {
        unreachable!()
    }
    fn sp_mul(self, _other: Val) -> Val {
        unreachable!()
    }
    fn sp_div(self, _other: Val) -> Val {
        unreachable!()
    }
    fn sp_rem(self, _other: Val) -> Val {
        unreachable!()
    }
    fn sp_neg(self) -> Val {
        unreachable!()
    }
    fn sp_sqrt(self) -> Val {
        unreachable!()
    }
    fn sp_ln(self) -> Val {
        unreachable!()
    }
    fn sp_exp(self) -> Val {
        unreachable!()
    }
    fn sp_recip(self) -> Val {
        unreachable!()
    }
    fn sp_powi(self, _n: u32) -> Val {
        unreachable!()
    }
    fn sp_min(self, _other: Val) -> Val {
        unreachable!()
    }
    fn sp_max(self, _other: Val) -> Val {
        unreachable!()
    }
    fn sp_eq(self, _other: Val) -> bool {
        unreachable!()
    }
    fn sp_infinity() -> Val {
        unreachable!()
    }
    fn sp_neg_infinity() -> Val {
        unreachable!()
    }
    fn zero() -> Val {
        Val(0.0)
    }
    fn one() -> Val {
        Val(1.0)
    }
    fn from_usize(n: usize) -> Val {
        Val(n as f64)
    }
    fn add(self, other: Val) -> Val {
        Val(self.0 + other.0)
    }
    fn sub(self, other: Val) -> Val {
        Val(self.0 - other.0)
    }
    fn mul(self, other: Val) -> Val {
        Val(self.0 * other.0)
    }
    fn div(self, other: Val) -> Val {
        Val(self.0 / other.0)
    }
    fn rem(self, other: Val) -> Val {
        Val(self.0 % other.0)
    }
    fn neg(self) -> Val {
        Val(-self.0)
    }
    fn sqrt(self) -> Val {
        Val(self.0.sqrt())
    }
    fn ln(self) -> Val {
        Val(self.0.ln())
    }
    fn exp(self) -> Val {
        Val(self.0.exp())
    }
    fn recip(self) -> Val {
        Val(self.0.recip())
    }
    fn powi(self, n: u32) -> Val {
        Val(self.0.powi(n as i32))
    }
    fn min_val(self, other: Val) -> Val {
        Val(self.0.min(other.0))
    }
    fn max_val(self, other: Val) -> Val {
        Val(self.0.max(other.0))
    }
    fn eq_val(&self, other: &Val) -> bool {
        self.0 == other.0
    }
    fn infinity() -> Val {
        Val(f64::INFINITY)
    }
    fn neg_infinity() -> Val {
        Val(f64::NEG_INFINITY)
    }
}

#[derive(Clone, Copy, Debug, PartialEq)]
struct NVal(N64);

impl Scalar for NVal {
    fn sp_zero() -> NVal {
        unreachable!()
    }
    fn sp_one() -> NVal {
        unreachable!()
    }
    fn sp_from_usize(_n: usize) -> NVal {
        unreachable!()
    }
    fn sp_add(self, _other: NVal) -> NVal {
        unreachable!()
    }
    fn sp_sub(self, _other: NVal) -> NVal {
        unreachable!()
    }
    fn sp_mul(self, _other: NVal) -> NVal {
        unreachable!()
    }
    fn sp_div(self, _other: NVal) -> NVal {
        unreachable!()
    }
    fn sp_rem(self, _other: NVal) -> NVal {
        unreachable!()
    }
    fn sp_neg(self) -> NVal {
        unreachable!()
    }
    fn sp_sqrt(self) -> NVal {
        unreachable!()
    }
    fn sp_ln(self) -> NVal {
        unreachable!()
    }
    fn sp_exp(self) -> NVal {
        unreachable!()
    }
    fn sp_recip(self) -> NVal {
        unreachable!()
    }
    fn sp_powi(self, _n: u32) -> NVal {
        unreachable!()
    }
    fn sp_min(self, _other: NVal) -> NVal {
        unreachable!()
    }
    fn sp_max(self, _other: NVal) -> NVal {
        unreachable!()
    }
    fn sp_eq(self, _other: NVal) -> bool {
        unreachable!()
    }
    fn sp_infinity() -> NVal {
        unreachable!()
    }
    fn sp_neg_infinity() -> NVal {
        unreachable!()
    }
    fn zero() -> NVal {
        NVal(n64(0.0))
    }
    fn one() -> NVal {
        NVal(n64(1.0))
    }
    fn from_usize(n: usize) -> NVal {
        NVal(n64(n as f64))
    }
    fn add(self, other: NVal) -> NVal {
        NVal(self.0 + other.0)
    }
    fn sub(self, other: NVal) -> NVal {
        NVal(self.0 - other.0)
    }
    fn mul(self, other: NVal) -> NVal {
        NVal(self.0 * other.0)
    }
    fn div(self, other: NVal) -> NVal {
        NVal(self.0 / other.0)
    }
    fn rem(self, other: NVal) -> NVal {
        NVal(self.0 % other.0)
    }
    fn neg(self) -> NVal {
        NVal(-self.0)
    }
    fn sqrt(self) -> NVal {
        NVal(Float::sqrt(self.0))
    }
    fn ln(self) -> NVal {
        NVal(Float::ln(self.0))
    }
    fn exp(self) -> NVal {
        NVal(Float::exp(self.0))
    }
    fn recip(self) -> NVal {
        NVal(Float::recip(self.0))
    }
    fn powi(self, n: u32) -> NVal {
        NVal(Float::powi(self.0, n as i32))
    }
    fn min_val(self, other: NVal) -> NVal {
        NVal(Float::min(self.0, other.0))
    }
    fn max_val(self, other: NVal) -> NVal {
        NVal(Float::max(self.0, other.0))
    }
    fn eq_val(&self, other: &NVal) -> bool {
        self.0 == other.0
    }
    fn infinity() -> NVal {
        NVal(n64(f64::INFINITY))
    }
    fn neg_infinity() -> NVal {
        NVal(n64(f64::NEG_INFINITY))
    }
}

fn vals(xs: &[f64]) -> Vec<Val> {
    let mut out = Vec::new();
    for x in xs {
        out.push(Val(*x));
    }
    out
}

fn random_vals(n: usize, bound: f64) -> Vec<Val> {
    let mut rng = rand::rng();
    let mut out = Vec::new();
    for _ in 0..n {
        out.push(Val(rng.random_range(-bound.abs()..bound.abs())));
    }
    out
}

#[test]
fn test_means_with_nan_values() {
    let a = vals(&[f64::NAN, 1.]);
    assert!(mean(&a).unwrap().0.is_nan());
    assert!(harmonic_mean(&a).unwrap().0.is_nan());
    assert!(geometric_mean(&a).unwrap().0.is_nan());
}

#[test]
fn test_means_with_empty_array_of_floats() {
    let a: Vec<Val> = vec![];
    assert!(mean(&a).is_none());
    assert!(harmonic_mean(&a).is_none());
    assert!(geometric_mean(&a).is_none());
}

#[test]
fn test_means_with_empty_array_of_noisy_floats() {
    let a: Vec<NVal> = vec![];
    assert!(mean(&a).is_none());
    assert!(harmonic_mean(&a).is_none());
    assert!(geometric_mean(&a).is_none());
}

#[test]
fn test_means_with_array_of_floats() {
    let a: Vec<Val> = vals(&[
        0.99889651, 0.0150731, 0.28492482, 0.83819218, 0.48413156, 0.80710412, 0.41762936,
        0.22879429, 0.43997224, 0.23831807, 0.02416466, 0.6269962, 0.47420614, 0.56275487,
        0.78995021, 0.16060581, 0.64635041, 0.34876609, 0.78543249, 0.19938356, 0.34429457,
        0.88072369, 0.17638164, 0.60819363, 0.250392, 0.69912532, 0.78855523, 0.79140914,
        0.85084218, 0.31839879, 0.63381769, 0.22421048, 0.70760302, 0.99216018, 0.80199153,
        0.19239188, 0.61356023, 0.31505352, 0.06120481, 0.66417377, 0.63608897, 0.84959691,
        0.43599069, 0.77867775, 0.88267754, 0.83003623, 0.67016118, 0.67547638, 0.65220036,
        0.68043427,
    ]);
    // Computed using NumPy
    let expected_mean = 0.5475494059146699;
    // Computed using SciPy
    let expected_harmonic_mean = 0.21790094950226022;
    // Computed using SciPy
    let expected_geometric_mean = 0.4345897639796527;

    assert!((mean(&a).unwrap().0 - expected_mean).abs() < 1e-9);
    assert!((harmonic_mean(&a).unwrap().0 - expected_harmonic_mean).abs() < 1e-7);
    assert!((geometric_mean(&a).unwrap().0 - expected_geometric_mean).abs() < 1e-12);
}

#[test]
fn test_central_order_moment_with_empty_array_of_floats() {
    let a: Vec<Val> = vec![];
    assert!(central_moment(&a, 1).is_none());
    assert!(central_moments(&a, 1).is_none());
}

#[test]
fn test_zeroth_central_order_moment_is_one() {
    let n = 50;
    let bound: f64 = 200.;
    let a = random_vals(n, bound);
    assert_eq!(central_moment(&a, 0).unwrap(), Val(1.));
}

#[test]
fn test_first_central_order_moment_is_zero() {
    let n = 50;
    let bound: f64 = 200.;
    let a = random_vals(n, bound);
    assert_eq!(central_moment(&a, 1).unwrap(), Val(0.));
}

#[test]
fn test_central_order_moments() {
    let a: Vec<Val> = vals(&[
        0.07820559, 0.5026185, 0.80935324, 0.39384033, 0.9483038, 0.62516215, 0.90772261,
        0.87329831, 0.60267392, 0.2960298, 0.02810356, 0.31911966, 0.86705506, 0.96884832,
        0.2222465, 0.42162446, 0.99909868, 0.47619762, 0.91696979, 0.9972741, 0.09891734,
        0.76934818, 0.77566862, 0.7692585, 0.2235759, 0.44821286, 0.79732186, 0.04804275,
        0.87863238, 0.1111003, 0.6653943, 0.44386445, 0.2133176, 0.39397086, 0.4374617,
        0.95896624, 0.57850146, 0.29301706, 0.02329879, 0.2123203, 0.62005503, 0.996492,
        0.5342986, 0.97822099, 0.5028445, 0.6693834, 0.14256682, 0.52724704, 0.73482372,
        0.1809703,
    ]);
    // Computed using scipy.stats.moment
    let expected_moments = vec![
        1.,
        0.,
        0.09339920262960291,
        -0.0026849636727735186,
        0.015403769257729755,
        -0.001204176487006564,
        0.002976822584939186,
    ];
    for (order, expected_moment) in expected_moments.iter().enumerate() {
        let computed = central_moment(&a, order).unwrap().0;
        assert!((computed - expected_moment).abs() < 1e-8);
    }
}

#[test]
fn test_bulk_central_order_moments() {
    // Test that the bulk method is coherent with the non-bulk method
    let n = 50;
    let bound: f64 = 200.;
    let a = random_vals(n, bound);
    let order = 10;
    let central_moments_bulk = central_moments(&a, order).unwrap();
    for i in 0..=order {
        assert_eq!(central_moment(&a, i).unwrap(), central_moments_bulk[i]);
    }
}

#[test]
fn test_kurtosis_and_skewness_is_none_with_empty_array_of_floats() {
    let a: Vec<Val> = vec![];
    assert!(skewness(&a).is_none());
    assert!(kurtosis(&a).is_none());
}

#[test]
fn test_kurtosis_and_skewness() {
    let a: Vec<Val> = vals(&[
        0.33310096, 0.98757449, 0.9789796, 0.96738114, 0.43545674, 0.06746873, 0.23706562,
        0.04241815, 0.38961714, 0.52421271, 0.93430327, 0.33911604, 0.05112372, 0.5013455,
        0.05291507, 0.62511183, 0.20749633, 0.22132433, 0.14734804, 0.51960608, 0.00449208,
        0.4093339, 0.2237519, 0.28070469, 0.7887231, 0.92224523, 0.43454188, 0.18335111,
        0.08646856, 0.87979847, 0.25483457, 0.99975627, 0.52712442, 0.41163279, 0.85162594,
        0.52618733, 0.75815023, 0.30640695, 0.14205781, 0.59695813, 0.851331, 0.39524328,
        0.73965373, 0.4007615, 0.02133069, 0.92899207, 0.79878191, 0.38947334, 0.22042183,
        0.77768353,
    ]);
    // Computed using scipy.stats.kurtosis(a, fisher=False)
    let expected_kurtosis = 1.821933711687523;
    // Computed using scipy.stats.skew
    let expected_skewness = 0.2604785422878771;

    let kurtosis_computed = kurtosis(&a).unwrap().0;
    let skewness_computed = skewness(&a).unwrap().0;

    assert!((kurtosis_computed - expected_kurtosis).abs() < 1e-12);
    assert!((skewness_computed - expected_skewness).abs() < 1e-8);
}

#[test]
fn binomial_coefficient_known_values() {
    assert_eq!(binomial_coefficient(0, 0), 1);
    assert_eq!(binomial_coefficient(5, 0), 1);
    assert_eq!(binomial_coefficient(5, 5), 1);
    assert_eq!(binomial_coefficient(5, 2), 10);
    assert_eq!(binomial_coefficient(10, 5), 252);
    assert_eq!(binomial_coefficient(10, 7), 120);
}

#[test]
fn horner_method_evaluates_polynomial() {
    // 1 + 2x + 3x^2 at x = 2 is 17.
    let coefficients = vec![Val(1.0), Val(2.0), Val(3.0)];
    assert_eq!(horner_method(coefficients, Val(2.0)), Val(17.0));
    // An empty polynomial evaluates to zero.
    let no_coefficients: Vec<Val> = vec![];
    assert_eq!(horner_method(no_coefficients, Val(2.0)), Val(0.0));
}

#[test]
fn central_moment_coefficients_scale_by_binomials() {
    // For moments [m0, m1, m2] of highest order 2, the coefficients are
    // C(2,0)*m2, C(2,1)*m1, C(2,2)*m0.
    let ms = vec![Val(7.0), Val(5.0), Val(3.0)];
    let coefficients = central_moment_coefficients(&ms);
    assert_eq!(coefficients, vec![Val(3.0), Val(10.0), Val(7.0)]);
}

#[test]
fn raw_moments_of_known_collection() {
    let a = vals(&[1.0, 2.0, 3.0]);
    let ms = moments(&a, 3);
    assert_eq!(ms.len(), 4);
    assert_eq!(ms[0], Val(1.0));
    assert_eq!(ms[1], Val(2.0));
    assert_eq!(ms[2], Val((1.0 + 4.0 + 9.0) / 3.0));
    assert_eq!(ms[3], Val((1.0 + 8.0 + 27.0) / 3.0));
}

#[test]
fn variance_of_two_points_via_central_moment() {
    let a = vals(&[1.0, 2.0]);
    assert_eq!(central_moment(&a, 2).unwrap(), Val(0.25));
}
