//! Error types returned from the methods and functions of this crate.
use vstd::prelude::*;

verus! {

/// An error returned when a sample's coordinate resolves to no bin of the
/// grid. The aggregation state is left untouched when this is reported.
#[derive(Clone, Copy, Debug, PartialEq, Eq, Structural)]
pub struct BinNotFound;

/// An error that indicates that the input array was empty.
#[derive(Clone, Copy, Debug, PartialEq, Eq, Structural)]
pub struct EmptyInput;

/// An error computing a minimum/maximum value.
#[derive(Clone, Copy, Debug, PartialEq, Eq, Structural)]
pub enum MinMaxError {
    /// The input was empty.
    EmptyInput,
    /// The ordering between a tested pair of values was undefined.
    UndefinedOrder,
}

impl From<EmptyInput> for MinMaxError {
    fn from(_e: EmptyInput) -> (r: MinMaxError) {
        MinMaxError::EmptyInput
    }
}

impl vstd::std_specs::convert::FromSpecImpl<EmptyInput> for MinMaxError {
    open spec fn obeys_from_spec() -> bool {
        true
    }

    open spec fn from_spec(e: EmptyInput) -> MinMaxError {
        MinMaxError::EmptyInput
    }
}

/// An error used by methods and functions that take two arrays as argument
/// and expect them to have exactly the same shape.
#[derive(Clone, Debug)]
pub struct ShapeMismatch {
    pub first_shape: Vec<usize>,
    pub second_shape: Vec<usize>,
}

/// An error for methods that take multiple non-empty array inputs.
#[derive(Clone, Debug)]
pub enum MultiInputError {
    /// One or more of the arrays were empty.
    EmptyInput,
    /// The arrays did not have the same shape.
    ShapeMismatch(ShapeMismatch),
}

impl MultiInputError {
    /// Returns whether `self` is the `EmptyInput` variant.
    pub fn is_empty_input(&self) -> (r: bool)
        ensures
            r == (self is EmptyInput),
    {
        match self {
            MultiInputError::EmptyInput => true,
            _ => false,
        }
    }

    /// Returns whether `self` is the `ShapeMismatch` variant.
    pub fn is_shape_mismatch(&self) -> (r: bool)
        ensures
            r == (self is ShapeMismatch),
    {
        match self {
            MultiInputError::ShapeMismatch(_) => true,
            _ => false,
        }
    }
}

impl From<EmptyInput> for MultiInputError {
    fn from(_e: EmptyInput) -> (r: MultiInputError) {
        MultiInputError::EmptyInput
    }
}

impl vstd::std_specs::convert::FromSpecImpl<EmptyInput> for MultiInputError {
    open spec fn obeys_from_spec() -> bool {
        true
    }

    open spec fn from_spec(e: EmptyInput) -> MultiInputError {
        MultiInputError::EmptyInput
    }
}

impl From<ShapeMismatch> for MultiInputError {
    fn from(err: ShapeMismatch) -> (r: MultiInputError)
        ensures
            r == MultiInputError::ShapeMismatch(err),
    {
        MultiInputError::ShapeMismatch(err)
    }
}

impl vstd::std_specs::convert::FromSpecImpl<ShapeMismatch> for MultiInputError {
    open spec fn obeys_from_spec() -> bool {
        true
    }

    open spec fn from_spec(err: ShapeMismatch) -> MultiInputError {
        MultiInputError::ShapeMismatch(err)
    }
}

} // verus!
