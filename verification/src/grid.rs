//! The contract this crate consumes from a grid of bins: a locator that maps
//! a d-dimensional point to the per-axis indices of the bin it falls in, or
//! reports that no bin matches. The grid itself — its edges and how a point
//! is searched among them — is the caller's collaborator; this crate never
//! constructs bin edges.
use crate::nd_array::sp_index_in_bounds;
use vstd::prelude::*;

verus! {

/// A locator over a fixed d-dimensional grid of bins.
///
/// An implementation supplies `sp_shape`, the per-axis bin counts, and
/// `sp_locate`, what each point of the space resolves to; the executable
/// methods must answer exactly as those functions denote, and a located bin
/// must address a cell of the grid.
pub trait BinLocator: Sized {
    /// The scalar type of one coordinate of a point.
    type Coord;

    /// The per-axis bin counts of the grid.
    spec fn sp_shape(&self) -> Seq<usize>;

    /// The bin, if any, that a point resolves to.
    spec fn sp_locate(&self, point: Seq<Self::Coord>) -> Option<Seq<usize>>;

    /// The number of dimensions of the space the grid covers.
    fn ndim(&self) -> (r: usize)
        ensures
            r == self.sp_shape().len(),
    ;

    /// The per-axis bin counts of the grid.
    fn shape(&self) -> (r: Vec<usize>)
        ensures
            r@ == self.sp_shape(),
    ;

    /// Resolves a point to the per-axis indices of its bin, or `None` if the
    /// point falls outside every bin. The point's dimensionality must equal
    /// the grid's.
    fn index_of(&self, point: &Vec<Self::Coord>) -> (r: Option<Vec<usize>>)
        requires
            point@.len() == self.sp_shape().len(),
        ensures
            r is Some <==> self.sp_locate(point@) is Some,
            r matches Some(bin) ==> self.sp_locate(point@) == Some(bin@) && sp_index_in_bounds(
                self.sp_shape(),
                bin@,
            ),
    ;
}

} // verus!
