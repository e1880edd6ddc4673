//! Tests of the empty-aware value algebra and of the error types.
use binned_stats::bin_content::BinContent;
use binned_stats::errors::{EmptyInput, MinMaxError, MultiInputError, ShapeMismatch};
use binned_stats::scalar::Scalar;

#[derive(Clone, Copy, Debug, PartialEq)]
struct Val(f64);

impl Scalar for Val {
    fn sp_zero() -> Val {
        unreachable!()
    }
    fn sp_one() -> Val {
        unreachable!()
    }
    fn sp_from_usize(_n: usize) -> Val {
        unreachable!()
    }
    fn sp_add(self, _other: Val) -> Val {
        unreachable!()
    }
    fn sp_sub(self, _other: Val) -> Val {
        unreachable!()
    }
    fn sp_mul(self, _other: Val) -> Val {
        unreachable!()
    }
    fn sp_div(self, _other: Val) -> Val {
        unreachable!()
    }
    fn sp_rem(self, _other: Val) -> Val {
        unreachable!()
    }
    fn sp_neg(self) -> Val {
        unreachable!()
    }
    fn sp_sqrt(self) -> Val {
        unreachable!()
    }
    fn sp_ln(self) -> Val {
        unreachable!()
    }
    fn sp_exp(self) -> Val {
        unreachable!()
    }
    fn sp_recip(self) -> Val {
        unreachable!()
    }
    fn sp_powi(self, _n: u32) -> Val {
        unreachable!()
    }
    fn sp_min(self, _other: Val) -> Val {
        unreachable!()
    }
    fn sp_max(self, _other: Val) -> Val {
        unreachable!()
    }
    fn sp_eq(self, _other: Val) -> bool {
        unreachable!()
    }
    fn sp_infinity() -> Val {
        unreachable!()
    }
    fn sp_neg_infinity() -> Val {
        unreachable!()
    }
    fn zero() -> Val {
        Val(0.0)
    }
    fn one() -> Val {
        Val(1.0)
    }
    fn from_usize(n: usize) -> Val {
        Val(n as f64)
    }
    fn add(self, other: Val) -> Val {
        Val(self.0 + other.0)
    }
    fn sub(self, other: Val) -> Val {
        Val(self.0 - other.0)
    }
    fn mul(self, other: Val) -> Val {
        Val(self.0 * other.0)
    }
    fn div(self, other: Val) -> Val {
        Val(self.0 / other.0)
    }
    fn rem(self, other: Val) -> Val {
        Val(self.0 % other.0)
    }
    fn neg(self) -> Val {
        Val(-self.0)
    }
    fn sqrt(self) -> Val {
        Val(self.0.sqrt())
    }
    fn ln(self) -> Val {
        Val(self.0.ln())
    }
    fn exp(self) -> Val {
        Val(self.0.exp())
    }
    fn recip(self) -> Val {
        Val(self.0.recip())
    }
    fn powi(self, n: u32) -> Val {
        Val(self.0.powi(n as i32))
    }
    fn min_val(self, other: Val) -> Val {
        Val(self.0.min(other.0))
    }
    fn max_val(self, other: Val) -> Val {
        Val(self.0.max(other.0))
    }
    fn eq_val(&self, other: &Val) -> bool {
        self.0 == other.0
    }
    fn infinity() -> Val {
        Val(f64::INFINITY)
    }
    fn neg_infinity() -> Val {
        Val(f64::NEG_INFINITY)
    }
}

const EMPTY: BinContent<Val> = BinContent::Empty;

#[test]
fn addition_treats_empty_as_identity() {
    assert_eq!(EMPTY.add(EMPTY), EMPTY);
    assert_eq!(BinContent::Value(Val(2.0)).add(EMPTY), BinContent::Value(Val(2.0)));
    assert_eq!(EMPTY.add(BinContent::Value(Val(2.0))), BinContent::Value(Val(2.0)));
    assert_eq!(
        BinContent::Value(Val(2.0)).add(BinContent::Value(Val(2.0))),
        BinContent::Value(Val(4.0))
    );
}

#[test]
fn subtraction_treats_empty_as_identity() {
    let bin = BinContent::Value(Val(2.0));
    assert_eq!(bin.sub(bin), BinContent::Value(Val(0.0)));
    assert_eq!(bin.sub(EMPTY), BinContent::Value(Val(2.0)));
    assert_eq!(EMPTY.sub(bin), BinContent::Value(Val(-2.0)));
    assert_eq!(EMPTY.sub(EMPTY), EMPTY);
}

#[test]
fn multiplication_treats_empty_as_absorbing() {
    let bin = BinContent::Value(Val(2.0));
    assert_eq!(bin.mul(bin), BinContent::Value(Val(4.0)));
    assert_eq!(bin.mul(EMPTY), EMPTY);
    assert_eq!(EMPTY.mul(bin), EMPTY);
    assert_eq!(EMPTY.mul(EMPTY), EMPTY);
}

#[test]
fn division_treats_empty_as_absorbing() {
    let bin = BinContent::Value(Val(2.0));
    assert_eq!(bin.div(bin), BinContent::Value(Val(1.0)));
    assert_eq!(bin.div(EMPTY), EMPTY);
    assert_eq!(EMPTY.div(bin), EMPTY);
    assert_eq!(EMPTY.div(EMPTY), EMPTY);
}

#[test]
fn remainder_treats_empty_as_absorbing() {
    let bin = BinContent::Value(Val(3.0));
    let den = BinContent::Value(Val(2.0));
    assert_eq!(bin.rem(den), BinContent::Value(Val(1.0)));
    assert_eq!(bin.rem(EMPTY), EMPTY);
    assert_eq!(EMPTY.rem(bin), EMPTY);
    assert_eq!(EMPTY.rem(EMPTY), EMPTY);
}

#[test]
fn negation_maps_over_the_payload() {
    assert_eq!(BinContent::Value(Val(2.0)).neg(), BinContent::Value(Val(-2.0)));
    assert_eq!(EMPTY.neg(), EMPTY);
}

#[test]
fn assignment_operators_match_the_plain_ones() {
    let mut bin = BinContent::Value(Val(2.0));
    bin.add_assign(BinContent::Value(Val(3.0)));
    assert_eq!(bin, BinContent::Value(Val(5.0)));
    bin.sub_assign(BinContent::Value(Val(1.0)));
    assert_eq!(bin, BinContent::Value(Val(4.0)));
    bin.mul_assign(BinContent::Value(Val(2.0)));
    assert_eq!(bin, BinContent::Value(Val(8.0)));
    bin.div_assign(BinContent::Value(Val(4.0)));
    assert_eq!(bin, BinContent::Value(Val(2.0)));
    bin.rem_assign(BinContent::Value(Val(1.5)));
    assert_eq!(bin, BinContent::Value(Val(0.5)));
    bin.mul_assign(EMPTY);
    assert_eq!(bin, EMPTY);
}

#[test]
fn zero_and_one_of_the_lifted_algebra() {
    assert_eq!(BinContent::<Val>::zero(), EMPTY);
    assert!(BinContent::<Val>::zero().is_zero());
    assert!(!BinContent::Value(Val(0.0)).is_zero());
    assert_eq!(BinContent::<Val>::one(), BinContent::Value(Val(1.0)));
    assert!(BinContent::<Val>::one().is_one());
    assert!(!BinContent::Value(Val(2.0)).is_one());
    assert!(!BinContent::<Val>::zero().is_one());
}

#[test]
fn tag_queries_and_contains() {
    let x: BinContent<u32> = BinContent::Value(2);
    assert_eq!(x.is_value(), true);
    assert_eq!(x.is_empty(), false);
    assert_eq!(x.contains(&2), true);

    let y: BinContent<u32> = BinContent::Value(3);
    assert_eq!(y.contains(&2), false);

    let z: BinContent<u32> = BinContent::Empty;
    assert_eq!(z.is_value(), false);
    assert_eq!(z.is_empty(), true);
    assert_eq!(z.contains(&2), false);
}

#[test]
fn unwrap_and_fallbacks() {
    let x: BinContent<u32> = BinContent::Value(2);
    assert_eq!(x.unwrap(), 2);
    assert_eq!(BinContent::Value(2).unwrap_or(5), 2);
    assert_eq!(BinContent::<u32>::Empty.unwrap_or(2), 2);

    let k = 10;
    assert_eq!(BinContent::Value(4).unwrap_or_else(|| 2 * k), 4);
    assert_eq!(BinContent::<u32>::Empty.unwrap_or_else(|| 2 * k), 20);
}

#[test]
fn multi_input_error_reports_its_variant() {
    let empty = MultiInputError::EmptyInput;
    assert!(empty.is_empty_input());
    assert!(!empty.is_shape_mismatch());

    let mismatch = MultiInputError::ShapeMismatch(ShapeMismatch {
        first_shape: vec![2, 2],
        second_shape: vec![3],
    });
    assert!(!mismatch.is_empty_input());
    assert!(mismatch.is_shape_mismatch());
}

#[test]
fn error_conversions_keep_the_variant() {
    assert_eq!(MinMaxError::from(EmptyInput), MinMaxError::EmptyInput);
    assert!(MultiInputError::from(EmptyInput).is_empty_input());
    let mismatch = ShapeMismatch {
        first_shape: vec![1],
        second_shape: vec![2],
    };
    assert!(MultiInputError::from(mismatch).is_shape_mismatch());
}
