//! The numeric capability that the statistic type of an aggregation must
//! offer: arithmetic, comparison-based minimum and maximum, square root,
//! natural logarithm, exponential, reciprocal, raising to an integer power,
//! and conversion from element counts.
//!
//! The trait is implemented by the caller for the floating-point type the
//! statistics are kept in. Each implementation supplies, besides the
//! executable operations, a family of interpretation functions (`sp_*`) that
//! say what those operations denote; every executable operation must return
//! exactly the value its interpretation function denotes. The contracts of
//! this crate are stated over those interpretation functions, so they pin
//! each result down to the exact expression, over the implementation's
//! algebra, that the algorithms build.
use vstd::prelude::*;

verus! {

pub trait Scalar: Sized + Copy {
    /// The interpretation of the additive identity.
    spec fn sp_zero() -> Self;

    /// The interpretation of the multiplicative identity.
    spec fn sp_one() -> Self;

    /// The interpretation of converting an element count.
    spec fn sp_from_usize(n: usize) -> Self;

    /// The interpretation of addition.
    spec fn sp_add(self, other: Self) -> Self;

    /// The interpretation of subtraction.
    spec fn sp_sub(self, other: Self) -> Self;

    /// The interpretation of multiplication.
    spec fn sp_mul(self, other: Self) -> Self;

    /// The interpretation of division.
    spec fn sp_div(self, other: Self) -> Self;

    /// The interpretation of the remainder operation.
    spec fn sp_rem(self, other: Self) -> Self;

    /// The interpretation of negation.
    spec fn sp_neg(self) -> Self;

    /// The interpretation of the square root.
    spec fn sp_sqrt(self) -> Self;

    /// The interpretation of the natural logarithm.
    spec fn sp_ln(self) -> Self;

    /// The interpretation of the exponential function.
    spec fn sp_exp(self) -> Self;

    /// The interpretation of the reciprocal.
    spec fn sp_recip(self) -> Self;

    /// The interpretation of raising to a non-negative integer power.
    spec fn sp_powi(self, n: u32) -> Self;

    /// The interpretation of the minimum of two values.
    spec fn sp_min(self, other: Self) -> Self;

    /// The interpretation of the maximum of two values.
    spec fn sp_max(self, other: Self) -> Self;

    /// The interpretation of the equality test.
    spec fn sp_eq(self, other: Self) -> bool;

    /// The interpretation of the positive infinite sentinel.
    spec fn sp_infinity() -> Self;

    /// The interpretation of the negative infinite sentinel.
    spec fn sp_neg_infinity() -> Self;

    fn zero() -> (r: Self)
        ensures
            r == Self::sp_zero(),
    ;

    fn one() -> (r: Self)
        ensures
            r == Self::sp_one(),
    ;

    fn from_usize(n: usize) -> (r: Self)
        ensures
            r == Self::sp_from_usize(n),
    ;

    fn add(self, other: Self) -> (r: Self)
        ensures
            r == self.sp_add(other),
    ;

    fn sub(self, other: Self) -> (r: Self)
        ensures
            r == self.sp_sub(other),
    ;

    fn mul(self, other: Self) -> (r: Self)
        ensures
            r == self.sp_mul(other),
    ;

    fn div(self, other: Self) -> (r: Self)
        ensures
            r == self.sp_div(other),
    ;

    fn rem(self, other: Self) -> (r: Self)
        ensures
            r == self.sp_rem(other),
    ;

    fn neg(self) -> (r: Self)
        ensures
            r == self.sp_neg(),
    ;

    fn sqrt(self) -> (r: Self)
        ensures
            r == self.sp_sqrt(),
    ;

    fn ln(self) -> (r: Self)
        ensures
            r == self.sp_ln(),
    ;

    fn exp(self) -> (r: Self)
        ensures
            r == self.sp_exp(),
    ;

    fn recip(self) -> (r: Self)
        ensures
            r == self.sp_recip(),
    ;

    fn powi(self, n: u32) -> (r: Self)
        ensures
            r == self.sp_powi(n),
    ;

    fn min_val(self, other: Self) -> (r: Self)
        ensures
            r == self.sp_min(other),
    ;

    fn max_val(self, other: Self) -> (r: Self)
        ensures
            r == self.sp_max(other),
    ;

    fn eq_val(&self, other: &Self) -> (r: bool)
        ensures
            r == self.sp_eq(*other),
    ;

    fn infinity() -> (r: Self)
        ensures
            r == Self::sp_infinity(),
    ;

    fn neg_infinity() -> (r: Self)
        ensures
            r == Self::sp_neg_infinity(),
    ;
}

/// The value that counting `n` samples one by one leaves in a cell of the
/// `number` array: `n` additions of one on top of zero.
pub open spec fn sp_count_value<T: Scalar>(n: nat) -> T
    decreases n,
{
    if n == 0 {
        T::sp_zero()
    } else {
        sp_count_value::<T>((n - 1) as nat).sp_add(T::sp_one())
    }
}

} // verus!
