//! Bins over an n-dimensional coordinate space: an n-dimensional bin is the
//! product of one interval per axis, and a collection of such bins can be
//! searched for the first one that contains a point.
//!
//! The one-dimensional intervals themselves — their edges and how a
//! coordinate is tested against them — are the caller's collaborator,
//! consumed through the [`AxisBin`] contract.
use vstd::prelude::*;

verus! {

/// A one-dimensional interval on a coordinate axis. An implementation
/// supplies `sp_contains`, the set of coordinates the interval covers, and
/// the executable test must answer exactly as it denotes.
pub trait AxisBin: Sized {
    /// The scalar type of the axis.
    type Coord;

    /// Whether the interval covers the coordinate.
    spec fn sp_contains(&self, v: Self::Coord) -> bool;

    /// Returns `true` if the interval covers the coordinate.
    fn contains(&self, v: &Self::Coord) -> (r: bool)
        ensures
            r == self.sp_contains(*v),
    ;
}

/// An n-dimensional bin: the product of one interval per coordinate axis,
/// instantiated by the ordered sequence of its one-dimensional projections.
#[derive(Hash, PartialEq, Eq, Clone, Debug)]
pub struct BinNd<B> {
    projections: Vec<B>,
}

impl<B: AxisBin> BinNd<B> {
    /// The ordered one-dimensional projections of the bin.
    pub closed spec fn sp_projections(&self) -> Seq<B> {
        self.projections@
    }

    /// The number of dimensions of the bin.
    pub open spec fn sp_ndim(&self) -> int {
        self.sp_projections().len() as int
    }

    /// Whether the point lies in the bin: every coordinate in the matching
    /// projection.
    pub open spec fn sp_contains_point(&self, point: Seq<B::Coord>) -> bool {
        forall|k: int|
            0 <= k < self.sp_projections().len() ==> (#[trigger] self.sp_projections()[k]).sp_contains(
                point[k],
            )
    }

    /// Creates a new instance of `BinNd` from the ordered sequence of its
    /// one-dimensional projections on the coordinate axes. The sequence must
    /// not be empty.
    pub fn new(projections: Vec<B>) -> (r: Self)
        requires
            projections@.len() > 0,
        ensures
            r.sp_projections() == projections@,
    {
        Self { projections }
    }

    /// Returns `n`, the number of dimensions.
    pub fn ndim(&self) -> (r: usize)
        ensures
            r == self.sp_ndim(),
    {
        self.projections.len()
    }

    /// Borrows the ordered one-dimensional projections of the bin.
    pub fn projections(&self) -> (r: &Vec<B>)
        ensures
            r@ == self.sp_projections(),
    {
        &self.projections
    }

    /// Returns `true` if `point` is in the bin, `false` otherwise. The
    /// point's dimensionality must equal the bin's.
    pub fn contains(&self, point: &Vec<B::Coord>) -> (r: bool)
        requires
            point@.len() == self.sp_ndim(),
        ensures
            r == self.sp_contains_point(point@),
    {
        let mut acc = true;
        for k in 0..self.projections.len()
            invariant
                point@.len() == self.sp_projections().len(),
                acc == forall|j: int|
                    0 <= j < k ==> (#[trigger] self.sp_projections()[j]).sp_contains(point@[j]),
        {
            let holds = self.projections[k].contains(&point[k]);
            acc = acc && holds;
        }
        acc
    }
}

/// The first bin of the sequence that contains the point, if any.
pub open spec fn sp_find<B: AxisBin>(bins: Seq<BinNd<B>>, point: Seq<B::Coord>) -> Option<
    BinNd<B>,
>
    decreases bins.len(),
{
    if bins.len() == 0 {
        Option::None
    } else if bins.first().sp_contains_point(point) {
        Option::Some(bins.first())
    } else {
        sp_find(bins.drop_first(), point)
    }
}

/// A collection of sub-regions (`BinNd`) in an n-dimensional space, all of
/// one dimensionality. The sub-regions are not required to be disjoint.
#[derive(Clone, Debug)]
pub struct BinsNd<B> {
    bins: Vec<BinNd<B>>,
    ndim: usize,
}

impl<B: AxisBin> BinsNd<B> {
    /// The sub-regions of the collection.
    pub closed spec fn sp_bins(&self) -> Seq<BinNd<B>> {
        self.bins@
    }

    /// The number of dimensions of the space.
    pub closed spec fn sp_ndim(&self) -> int {
        self.ndim as int
    }

    /// The collection is non-empty and every bin has the collection's
    /// dimensionality.
    pub open spec fn wf(&self) -> bool {
        &&& self.sp_bins().len() > 0
        &&& forall|i: int|
            0 <= i < self.sp_bins().len() ==> (#[trigger] self.sp_bins()[i]).sp_ndim()
                == self.sp_ndim()
    }

    /// Creates a new instance of `BinsNd` from a vector of `BinNd`. The
    /// vector must not be empty and its bins must all have one
    /// dimensionality.
    pub fn new(bins: Vec<BinNd<B>>) -> (r: Self)
        requires
            bins@.len() > 0,
            forall|i: int|
                0 <= i < bins@.len() ==> (#[trigger] bins@[i]).sp_ndim() == bins@[0].sp_ndim(),
        ensures
            r.wf(),
            r.sp_bins() == bins@,
            r.sp_ndim() == bins@[0].sp_ndim(),
    {
        // All bins must have the same number of dimensions!
        let ndim = bins[0].ndim();
        Self { bins, ndim }
    }

    /// Returns `n`, the number of dimensions.
    pub fn ndim(&self) -> (r: usize)
        ensures
            r == self.sp_ndim(),
    {
        self.ndim
    }

    /// Given a point, returns `Some` of the first bin of the collection
    /// that the point belongs to, or `None` if it belongs to no bin. The
    /// point's dimensionality must equal the collection's.
    pub fn find(&self, point: &Vec<B::Coord>) -> (r: Option<&BinNd<B>>)
        requires
            self.wf(),
            point@.len() == self.sp_ndim(),
        ensures
            r is Some <==> sp_find(self.sp_bins(), point@) is Some,
            r matches Some(b) ==> Option::Some(*b) == sp_find(self.sp_bins(), point@),
    {
        let n = self.bins.len();
        proof {
            assert(self.sp_bins().skip(0) =~= self.sp_bins());
        }
        for i in 0..n
            invariant
                n == self.sp_bins().len(),
                self.wf(),
                point@.len() == self.sp_ndim(),
                sp_find(self.sp_bins(), point@) == sp_find(self.sp_bins().skip(i as int), point@),
        {
            if self.bins[i].contains(point) {
                proof {
                    assert(self.sp_bins().skip(i as int).first() == self.sp_bins()[i as int]);
                }
                return Some(&self.bins[i]);
            }
            proof {
                assert(self.sp_bins().skip(i as int).first() == self.sp_bins()[i as int]);
                assert(self.sp_bins().skip(i as int).drop_first() =~= self.sp_bins().skip(i + 1));
            }
        }
        proof {
            assert(self.sp_bins().skip(n as int) =~= Seq::<BinNd<B>>::empty());
        }
        None
    }
}

} // verus!
