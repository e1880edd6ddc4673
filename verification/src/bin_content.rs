//! Indicator for empty fields or values of a binned statistic: a bin that
//! received no samples is `Empty`, one that did carries a `Value`.
//!
//! All binary operators are total over the two tags. The additive operators
//! treat `Empty` as the additive identity, because missing data contributes
//! nothing to a sum; the multiplicative operators treat `Empty` as absorbing,
//! because a product, ratio or remainder with an undefined operand is itself
//! undefined. The asymmetry is intentional and must be preserved.
use crate::scalar::Scalar;
use vstd::prelude::*;
use vstd::std_specs::cmp::PartialEqSpec;

verus! {

/// Indicator for empty fields or values for binned statistic.
#[derive(Clone, Copy, Debug, PartialEq)]
pub enum BinContent<T> {
    /// Empty bin.
    Empty,
    /// Non-empty bin with some value `T`.
    Value(T),
}

impl<T> BinContent<T> {
    /// Returns `true` if the bin contains a `Value`.
    pub fn is_value(&self) -> (r: bool)
        ensures
            r == (self is Value),
    {
        match *self {
            Self::Value(_) => true,
            Self::Empty => false,
        }
    }

    /// Returns `true` if the bin is `Empty`.
    pub fn is_empty(&self) -> (r: bool)
        ensures
            r == (self is Empty),
    {
        !self.is_value()
    }

    /// Returns `true` if the bin is a `Value` whose payload the probe `x`
    /// compares equal to.
    pub fn contains<U: PartialEq<T>>(&self, x: &U) -> (r: bool)
        ensures
            self is Empty ==> !r,
            U::obeys_eq_spec() ==> r == (self matches BinContent::Value(y) && x.eq_spec(&y)),
    {
        match self {
            Self::Value(y) => x.eq(y),
            Self::Empty => false,
        }
    }

    /// Moves the payload out of the bin. The bin must hold a `Value`; use
    /// pattern matching, `unwrap_or` or `unwrap_or_else` where it may not.
    pub fn unwrap(self) -> (r: T)
        requires
            self is Value,
        ensures
            r == self->0,
    {
        match self {
            Self::Value(val) => val,
            Self::Empty => unreached(),
        }
    }

    /// Returns the payload of a `Value`, or the given default on `Empty`.
    pub fn unwrap_or(self, default: T) -> (r: T)
        ensures
            self is Value ==> r == self->0,
            self is Empty ==> r == default,
    {
        match self {
            Self::Value(x) => x,
            Self::Empty => default,
        }
    }

    /// Returns the payload of a `Value`, or computes the result from the
    /// given closure on `Empty`.
    pub fn unwrap_or_else<F: FnOnce() -> T>(self, f: F) -> (r: T)
        requires
            self is Empty ==> call_requires(f, ()),
        ensures
            self is Value ==> r == self->0,
            self is Empty ==> call_ensures(f, (), r),
    {
        match self {
            Self::Value(x) => x,
            Self::Empty => f(),
        }
    }
}

impl<T: Scalar> BinContent<T> {
    /// What negation leaves in the bin: `Empty` stays `Empty`, a payload is
    /// negated.
    pub open spec fn sp_bneg(self) -> Self {
        match self {
            BinContent::Empty => BinContent::Empty,
            BinContent::Value(v) => BinContent::Value(v.sp_neg()),
        }
    }

    /// What addition leaves in the bin: `Empty` is the additive identity.
    pub open spec fn sp_badd(self, other: Self) -> Self {
        match (self, other) {
            (BinContent::Empty, BinContent::Empty) => BinContent::Empty,
            (BinContent::Value(v), BinContent::Empty) => BinContent::Value(v),
            (BinContent::Empty, BinContent::Value(w)) => BinContent::Value(w),
            (BinContent::Value(v), BinContent::Value(w)) => BinContent::Value(v.sp_add(w)),
        }
    }

    /// What subtraction leaves in the bin: `Empty` is the additive identity,
    /// so an `Empty` left operand negates the right payload.
    pub open spec fn sp_bsub(self, other: Self) -> Self {
        match (self, other) {
            (BinContent::Empty, BinContent::Empty) => BinContent::Empty,
            (BinContent::Value(v), BinContent::Empty) => BinContent::Value(v),
            (BinContent::Empty, BinContent::Value(w)) => BinContent::Value(w.sp_neg()),
            (BinContent::Value(v), BinContent::Value(w)) => BinContent::Value(v.sp_sub(w)),
        }
    }

    /// What multiplication leaves in the bin: `Empty` absorbs.
    pub open spec fn sp_bmul(self, other: Self) -> Self {
        match (self, other) {
            (BinContent::Value(v), BinContent::Value(w)) => BinContent::Value(v.sp_mul(w)),
            _ => BinContent::Empty,
        }
    }

    /// What division leaves in the bin: `Empty` absorbs.
    pub open spec fn sp_bdiv(self, other: Self) -> Self {
        match (self, other) {
            (BinContent::Value(v), BinContent::Value(w)) => BinContent::Value(v.sp_div(w)),
            _ => BinContent::Empty,
        }
    }

    /// What the remainder operation leaves in the bin: `Empty` absorbs.
    pub open spec fn sp_brem(self, other: Self) -> Self {
        match (self, other) {
            (BinContent::Value(v), BinContent::Value(w)) => BinContent::Value(v.sp_rem(w)),
            _ => BinContent::Empty,
        }
    }

    /// Negation lifted over the indicator.
    pub fn neg(self) -> (r: Self)
        ensures
            r == self.sp_bneg(),
    {
        match self {
            Self::Empty => Self::Empty,
            Self::Value(v) => Self::Value(v.neg()),
        }
    }

    /// Addition lifted over the indicator.
    pub fn add(self, other: Self) -> (r: Self)
        ensures
            r == self.sp_badd(other),
    {
        match (self, other) {
            (Self::Empty, Self::Empty) => Self::Empty,
            (Self::Value(v), Self::Empty) => Self::Value(v),
            (Self::Empty, Self::Value(w)) => Self::Value(w),
            (Self::Value(v), Self::Value(w)) => Self::Value(v.add(w)),
        }
    }

    /// Addition assignment lifted over the indicator.
    pub fn add_assign(&mut self, other: Self)
        ensures
            *final(self) == old(self).sp_badd(other),
    {
        *self = self.add(other);
    }

    /// Subtraction lifted over the indicator.
    pub fn sub(self, other: Self) -> (r: Self)
        ensures
            r == self.sp_bsub(other),
    {
        match (self, other) {
            (Self::Empty, Self::Empty) => Self::Empty,
            (Self::Value(v), Self::Empty) => Self::Value(v),
            (Self::Empty, Self::Value(w)) => Self::Value(w.neg()),
            (Self::Value(v), Self::Value(w)) => Self::Value(v.sub(w)),
        }
    }

    /// Subtraction assignment lifted over the indicator.
    pub fn sub_assign(&mut self, other: Self)
        ensures
            *final(self) == old(self).sp_bsub(other),
    {
        *self = self.sub(other);
    }

    /// Multiplication lifted over the indicator.
    pub fn mul(self, other: Self) -> (r: Self)
        ensures
            r == self.sp_bmul(other),
    {
        match (self, other) {
            (Self::Value(v), Self::Value(w)) => Self::Value(v.mul(w)),
            _ => Self::Empty,
        }
    }

    /// Multiplication assignment lifted over the indicator.
    pub fn mul_assign(&mut self, other: Self)
        ensures
            *final(self) == old(self).sp_bmul(other),
    {
        *self = self.mul(other);
    }

    /// Division lifted over the indicator.
    pub fn div(self, other: Self) -> (r: Self)
        ensures
            r == self.sp_bdiv(other),
    {
        match (self, other) {
            (Self::Value(v), Self::Value(w)) => Self::Value(v.div(w)),
            _ => Self::Empty,
        }
    }

    /// Division assignment lifted over the indicator.
    pub fn div_assign(&mut self, other: Self)
        ensures
            *final(self) == old(self).sp_bdiv(other),
    {
        *self = self.div(other);
    }

    /// Remainder lifted over the indicator.
    pub fn rem(self, other: Self) -> (r: Self)
        ensures
            r == self.sp_brem(other),
    {
        match (self, other) {
            (Self::Value(v), Self::Value(w)) => Self::Value(v.rem(w)),
            _ => Self::Empty,
        }
    }

    /// Remainder assignment lifted over the indicator.
    pub fn rem_assign(&mut self, other: Self)
        ensures
            *final(self) == old(self).sp_brem(other),
    {
        *self = self.rem(other);
    }

    /// The additive identity of the lifted algebra: `Empty`.
    pub fn zero() -> (r: Self)
        ensures
            r == BinContent::<T>::Empty,
    {
        Self::Empty
    }

    /// Returns `true` if the bin is the additive identity.
    pub fn is_zero(&self) -> (r: bool)
        ensures
            r == (self is Empty),
    {
        match self {
            Self::Empty => true,
            Self::Value(_) => false,
        }
    }

    /// The multiplicative identity of the lifted algebra: a bin holding one.
    pub fn one() -> (r: Self)
        ensures
            r == BinContent::Value(T::sp_one()),
    {
        Self::Value(T::one())
    }

    /// Returns `true` if the bin holds a payload that compares equal to one.
    pub fn is_one(&self) -> (r: bool)
        ensures
            r == (self matches BinContent::Value(v) && v.sp_eq(T::sp_one())),
    {
        match self {
            Self::Empty => false,
            Self::Value(v) => v.eq_val(&T::one()),
        }
    }
}

} // verus!
