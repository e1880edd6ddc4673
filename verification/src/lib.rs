//! Descriptive statistics over collections of numeric samples: per-bin
//! aggregate statistics over samples assigned to cells of an n-dimensional
//! grid, and arbitrary-order central moments over a flat collection.
//!
//! The numeric type of the statistics is abstract: it is any type that
//! implements the [`scalar::Scalar`] capability trait, whose operations are
//! described only by per-implementation interpretation functions. Every
//! contract of this crate states the exact expression, over that abstract
//! algebra, that a result is built from.
pub mod bin_content;
pub mod binned_statistic;
pub mod bins;
pub mod errors;
pub mod grid;
pub mod histograms;
pub mod nd_array;
pub mod scalar;
pub mod summary_statistics;
