//! The plain counting histogram: one count per cell of an n-dimensional
//! grid, raised by one for each observation whose coordinate the grid
//! resolves.
use crate::errors::BinNotFound;
use crate::grid::BinLocator;
use crate::nd_array::{
    lemma_flat_index_bounds, flat_index_of, sp_flat_index, sp_prefix_products_fit, sp_product,
    NdArray,
};
use vstd::prelude::*;

verus! {

/// The counts an empty histogram over `n` cells starts from.
pub open spec fn sp_zero_counts(n: int) -> Seq<usize> {
    Seq::new(n as nat, |i: int| 0usize)
}

/// The counts a histogram holds after observing a batch of points one by
/// one, in order, starting from `counts`: a point the grid resolves raises
/// its bin's count by one; one that resolves to no bin changes nothing.
pub open spec fn sp_observe_all<L: BinLocator>(
    bins: L,
    counts: Seq<usize>,
    points: Seq<Seq<L::Coord>>,
) -> Seq<usize>
    decreases points.len(),
{
    if points.len() == 0 {
        counts
    } else {
        let prev = sp_observe_all(bins, counts, points.drop_last());
        match bins.sp_locate(points.last()) {
            Option::Some(bin) => {
                let flat = sp_flat_index(bins.sp_shape(), bin);
                prev.update(flat, (prev[flat] + 1) as usize)
            },
            Option::None => prev,
        }
    }
}

/// Histogram data structure.
pub struct Histogram<L> {
    counts: NdArray<usize>,
    bins: L,
}

impl<L: BinLocator> Histogram<L> {
    /// The per-cell observation counts, in row-major order.
    pub closed spec fn sp_counts(&self) -> Seq<usize> {
        self.counts.sp_data()
    }

    /// The grid of bins the histogram counts over.
    pub closed spec fn sp_bins(&self) -> L {
        self.bins
    }

    /// The count matrix is a dense array of the grid's shape.
    pub closed spec fn sp_store_wf(&self) -> bool {
        &&& self.counts.wf()
        &&& self.counts.sp_shape() == self.bins.sp_shape()
    }

    /// Well-formedness: one count per grid position.
    pub open spec fn wf(&self) -> bool {
        &&& self.sp_store_wf()
        &&& self.sp_counts().len() == sp_product(self.sp_bins().sp_shape())
    }

    /// Returns a new histogram over the given grid, with every count zero.
    pub fn new(bins: L) -> (r: Self)
        requires
            sp_prefix_products_fit(bins.sp_shape()),
        ensures
            r.wf(),
            r.sp_bins() == bins,
            r.sp_counts() == sp_zero_counts(sp_product(bins.sp_shape())),
    {
        let counts = NdArray::from_elem(bins.shape(), 0usize);
        let r = Histogram { counts, bins };
        proof {
            assert(r.sp_counts() =~= sp_zero_counts(sp_product(r.sp_bins().sp_shape())));
        }
        r
    }

    /// Adds a single observation to the histogram: the grid resolves its
    /// coordinate to a bin whose count rises by one, or the call reports
    /// `BinNotFound` and mutates nothing. The observation's dimensionality
    /// must equal the grid's, and no cell may already hold the largest
    /// representable count.
    pub fn add_observation(&mut self, observation: &Vec<L::Coord>) -> (res: Result<
        (),
        BinNotFound,
    >)
        requires
            old(self).wf(),
            observation@.len() == old(self).sp_bins().sp_shape().len(),
            forall|i: int| 0 <= i < old(self).sp_counts().len() ==> old(self).sp_counts()[i]
                < usize::MAX,
        ensures
            final(self).wf(),
            final(self).sp_bins() == old(self).sp_bins(),
            ({
                match old(self).sp_bins().sp_locate(observation@) {
                    Option::None => res is Err && *final(self) == *old(self),
                    Option::Some(bin) => {
                        let flat = sp_flat_index(old(self).sp_bins().sp_shape(), bin);
                        &&& res is Ok
                        &&& crate::nd_array::sp_index_in_bounds(
                            old(self).sp_bins().sp_shape(),
                            bin,
                        )
                        &&& final(self).sp_counts() == old(self).sp_counts().update(
                            flat,
                            (old(self).sp_counts()[flat] + 1) as usize,
                        )
                    },
                }
            }),
    {
        match self.bins.index_of(observation) {
            Some(bin) => {
                let flat = flat_index_of(self.counts.shape(), &bin);
                proof {
                    lemma_flat_index_bounds(self.counts.sp_shape(), bin@);
                }
                let c = *self.counts.get_flat(flat);
                self.counts.set_flat(flat, c + 1);
                Ok(())
            },
            None => Err(BinNotFound),
        }
    }

    /// Returns the number of dimensions of the space the histogram is
    /// covering.
    pub fn ndim(&self) -> (r: usize)
        requires
            self.wf(),
        ensures
            r == self.sp_bins().sp_shape().len(),
    {
        self.counts.ndim()
    }

    /// Borrows a view of the histogram matrix.
    pub fn as_view(&self) -> (r: &NdArray<usize>)
        ensures
            r.sp_data() == self.sp_counts(),
            self.wf() ==> r.wf() && r.sp_shape() == self.sp_bins().sp_shape(),
    {
        &self.counts
    }
}

/// Returns the histogram of a batch of points (each row one d-dimensional
/// point): every row is fed to `add_observation` in order, and points
/// outside the grid's coverage are silently skipped.
pub fn histogram<L: BinLocator>(points: &Vec<Vec<L::Coord>>, bins: L) -> (r: Histogram<L>)
    requires
        points@.len() < usize::MAX,
        forall|i: int|
            0 <= i < points@.len() ==> (#[trigger] points@[i])@.len() == bins.sp_shape().len(),
        sp_prefix_products_fit(bins.sp_shape()),
    ensures
        r.wf(),
        r.sp_bins() == bins,
        r.sp_counts() == sp_observe_all(
            bins,
            sp_zero_counts(sp_product(bins.sp_shape())),
            points@.map_values(|p: Vec<L::Coord>| p@),
        ),
{
    let ghost g = bins;
    let ghost init = sp_zero_counts(sp_product(bins.sp_shape()));
    let ghost rows = points@.map_values(|p: Vec<L::Coord>| p@);
    let mut h: Histogram<L> = Histogram::new(bins);
    for i in 0..points.len()
        invariant
            h.wf(),
            h.sp_bins() == g,
            points@.len() < usize::MAX,
            forall|k: int|
                0 <= k < points@.len() ==> (#[trigger] points@[k])@.len() == g.sp_shape().len(),
            rows == points@.map_values(|p: Vec<L::Coord>| p@),
            forall|j: int| 0 <= j < h.sp_counts().len() ==> #[trigger] h.sp_counts()[j] <= i,
            h.sp_counts() == sp_observe_all(g, init, rows.take(i as int)),
    {
        let ghost pre = h.sp_counts();
        let _ = h.add_observation(&points[i]);
        proof {
            assert(rows.take(i + 1).drop_last() =~= rows.take(i as int));
            assert(rows.take(i + 1).last() == points@[i as int]@);
            assert(h.sp_counts() == sp_observe_all(g, init, rows.take(i + 1)));
            let located = g.sp_locate(points@[i as int]@);
            if located is Some {
                lemma_flat_index_bounds(g.sp_shape(), located.unwrap());
                let f = sp_flat_index(g.sp_shape(), located.unwrap());
                assert(h.sp_counts() == pre.update(f, (pre[f] + 1) as usize));
                assert forall|j: int|
                    0 <= j < h.sp_counts().len() implies #[trigger] h.sp_counts()[j] <= i + 1 by {
                    assert(pre[j] <= i);
                    if j != f {
                        assert(h.sp_counts()[j] == pre[j]);
                    }
                }
            } else {
                assert(h.sp_counts() == pre);
                assert forall|j: int|
                    0 <= j < h.sp_counts().len() implies #[trigger] h.sp_counts()[j] <= i + 1 by {
                    assert(pre[j] <= i);
                }
            }
        }
    }
    proof {
        assert(rows.take(points@.len() as int) =~= rows);
    }
    h
}

} // verus!
