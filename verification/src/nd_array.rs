//! A dense n-dimensional array, stored row-major in a flat vector, indexed by
//! a tuple of per-axis indices. One such array backs each tracked statistic
//! of an aggregation, all shaped identically to the grid.
use vstd::prelude::*;

verus! {

/// The number of cells of an array of the given shape: the product of the
/// per-axis lengths (one for the empty shape).
pub open spec fn sp_product(shape: Seq<usize>) -> int
    decreases shape.len(),
{
    if shape.len() == 0 {
        1
    } else {
        sp_product(shape.drop_last()) * shape.last()
    }
}

/// Whether `idx` addresses a cell of an array of shape `shape`.
pub open spec fn sp_index_in_bounds(shape: Seq<usize>, idx: Seq<usize>) -> bool {
    idx.len() == shape.len() && forall|k: int| 0 <= k < shape.len() ==> idx[k] < shape[k]
}

/// The row-major position of the cell addressed by `idx` in the flat storage
/// of an array of shape `shape`.
pub open spec fn sp_flat_index(shape: Seq<usize>, idx: Seq<usize>) -> int
    decreases shape.len(),
{
    if shape.len() == 0 {
        0
    } else {
        sp_flat_index(shape.drop_last(), idx.drop_last()) * shape.last() + idx.last()
    }
}

/// Whether every prefix of `shape` has a cell count that fits the machine.
/// A later axis of length zero can make the whole product zero while an
/// earlier prefix already overflows, so the bound is asked of every prefix.
pub open spec fn sp_prefix_products_fit(shape: Seq<usize>) -> bool {
    forall|k: int| 0 <= k <= shape.len() ==> sp_product(#[trigger] shape.take(k)) <= usize::MAX
}

/// The flat position of an in-bounds index lies among the array's cells.
pub proof fn lemma_flat_index_bounds(shape: Seq<usize>, idx: Seq<usize>)
    requires
        sp_index_in_bounds(shape, idx),
    ensures
        0 <= sp_flat_index(shape, idx) < sp_product(shape),
    decreases shape.len(),
{
    if shape.len() == 0 {
    } else {
        let sub_shape = shape.drop_last();
        let sub_idx = idx.drop_last();
        assert(sp_index_in_bounds(sub_shape, sub_idx));
        lemma_flat_index_bounds(sub_shape, sub_idx);
        let f = sp_flat_index(sub_shape, sub_idx);
        let p = sp_product(sub_shape);
        let s = shape.last() as int;
        let i = idx.last() as int;
        assert(0 <= f * s + i < p * s) by (nonlinear_arith)
            requires
                0 <= f < p,
                0 <= i < s,
        ;
    }
}

/// Distinct in-bounds indices of one shape have distinct flat positions.
pub proof fn lemma_flat_index_injective(shape: Seq<usize>, idx1: Seq<usize>, idx2: Seq<usize>)
    requires
        sp_index_in_bounds(shape, idx1),
        sp_index_in_bounds(shape, idx2),
        sp_flat_index(shape, idx1) == sp_flat_index(shape, idx2),
    ensures
        idx1 == idx2,
    decreases shape.len(),
{
    if shape.len() == 0 {
        assert(idx1 =~= idx2);
    } else {
        let sub_shape = shape.drop_last();
        assert(sp_index_in_bounds(sub_shape, idx1.drop_last()));
        assert(sp_index_in_bounds(sub_shape, idx2.drop_last()));
        lemma_flat_index_bounds(sub_shape, idx1.drop_last());
        lemma_flat_index_bounds(sub_shape, idx2.drop_last());
        let f1 = sp_flat_index(sub_shape, idx1.drop_last());
        let f2 = sp_flat_index(sub_shape, idx2.drop_last());
        let s = shape.last() as int;
        let i1 = idx1.last() as int;
        let i2 = idx2.last() as int;
        assert(f1 == f2 && i1 == i2) by (nonlinear_arith)
            requires
                f1 * s + i1 == f2 * s + i2,
                0 <= i1 < s,
                0 <= i2 < s,
                f1 >= 0,
                f2 >= 0,
        ;
        lemma_flat_index_injective(sub_shape, idx1.drop_last(), idx2.drop_last());
        assert(idx1 =~= idx1.drop_last().push(idx1.last()));
        assert(idx2 =~= idx2.drop_last().push(idx2.last()));
    }
}

/// A dense array of shape `shape`, its cells stored row-major in `data`.
#[derive(Clone, Debug, PartialEq)]
pub struct NdArray<T> {
    shape: Vec<usize>,
    data: Vec<T>,
}

impl<T> NdArray<T> {
    /// The per-axis lengths of the array.
    pub closed spec fn sp_shape(&self) -> Seq<usize> {
        self.shape@
    }

    /// The cells of the array, in row-major order.
    pub closed spec fn sp_data(&self) -> Seq<T> {
        self.data@
    }

    /// The cell addressed by `idx`.
    pub open spec fn sp_cell(&self, idx: Seq<usize>) -> T {
        self.sp_data()[sp_flat_index(self.sp_shape(), idx)]
    }

    /// The storage holds exactly one cell per grid position, and every
    /// partial product of the shape fits the machine.
    pub open spec fn wf(&self) -> bool {
        &&& self.sp_data().len() == sp_product(self.sp_shape())
        &&& sp_prefix_products_fit(self.sp_shape())
    }

    /// Builds an array directly from its shape and row-major cells.
    pub fn from_data(shape: Vec<usize>, data: Vec<T>) -> (r: Self)
        requires
            data@.len() == sp_product(shape@),
            sp_prefix_products_fit(shape@),
        ensures
            r.wf(),
            r.sp_shape() == shape@,
            r.sp_data() == data@,
    {
        NdArray { shape, data }
    }

    /// The number of dimensions of the array.
    pub fn ndim(&self) -> (r: usize)
        ensures
            r == self.sp_shape().len(),
    {
        self.shape.len()
    }

    /// Borrows the per-axis lengths.
    pub fn shape(&self) -> (r: &Vec<usize>)
        ensures
            r@ == self.sp_shape(),
    {
        &self.shape
    }

    /// Borrows the cells in row-major order.
    pub fn data(&self) -> (r: &Vec<T>)
        ensures
            r@ == self.sp_data(),
    {
        &self.data
    }

    /// Borrows the cell at flat (row-major) position `i`.
    pub fn get_flat(&self, i: usize) -> (r: &T)
        requires
            i < self.sp_data().len(),
        ensures
            *r == self.sp_data()[i as int],
    {
        &self.data[i]
    }

    /// Replaces the cell at flat (row-major) position `i`; every other cell
    /// is unchanged.
    pub fn set_flat(&mut self, i: usize, value: T)
        requires
            i < old(self).sp_data().len(),
        ensures
            final(self).sp_shape() == old(self).sp_shape(),
            final(self).sp_data() == old(self).sp_data().update(i as int, value),
            old(self).wf() ==> final(self).wf(),
    {
        self.data[i] = value;
    }

    /// Borrows the cell addressed by `idx`.
    pub fn get(&self, idx: &Vec<usize>) -> (r: &T)
        requires
            self.wf(),
            sp_index_in_bounds(self.sp_shape(), idx@),
        ensures
            *r == self.sp_cell(idx@),
    {
        let flat = flat_index_of(&self.shape, idx);
        proof {
            lemma_flat_index_bounds(self.sp_shape(), idx@);
        }
        &self.data[flat]
    }

    /// Replaces the cell addressed by `idx`; every other cell is unchanged.
    pub fn set(&mut self, idx: &Vec<usize>, value: T)
        requires
            old(self).wf(),
            sp_index_in_bounds(old(self).sp_shape(), idx@),
        ensures
            final(self).wf(),
            final(self).sp_shape() == old(self).sp_shape(),
            final(self).sp_data() == old(self).sp_data().update(
                sp_flat_index(old(self).sp_shape(), idx@),
                value,
            ),
    {
        let flat = flat_index_of(&self.shape, idx);
        proof {
            lemma_flat_index_bounds(self.sp_shape(), idx@);
        }
        self.data[flat] = value;
    }
}

impl<T: Copy> NdArray<T> {
    /// Builds an array of the given shape with every cell set to `elem`.
    pub fn from_elem(shape: Vec<usize>, elem: T) -> (r: Self)
        requires
            sp_prefix_products_fit(shape@),
        ensures
            r.wf(),
            r.sp_shape() == shape@,
            r.sp_data().len() == sp_product(shape@),
            forall|i: int| 0 <= i < r.sp_data().len() ==> r.sp_data()[i] == elem,
    {
        let n = cells_of_shape(&shape);
        let mut data: Vec<T> = Vec::new();
        while data.len() < n
            invariant
                data@.len() <= n,
                forall|i: int| 0 <= i < data@.len() ==> data@[i] == elem,
            decreases n - data.len(),
        {
            data.push(elem);
        }
        NdArray { shape, data }
    }
}

/// The number of cells of an array of the given shape.
pub fn cells_of_shape(shape: &Vec<usize>) -> (r: usize)
    requires
        sp_prefix_products_fit(shape@),
    ensures
        r == sp_product(shape@),
{
    let ghost full = shape@;
    let mut n: usize = 1;
    for k in 0..shape.len()
        invariant
            shape@ == full,
            sp_prefix_products_fit(full),
            n == sp_product(full.take(k as int)),
    {
        proof {
            assert(full.take(k + 1).drop_last() =~= full.take(k as int));
            assert(full.take(k + 1).last() == full[k as int]);
            assert(sp_product(full.take(k + 1)) == sp_product(full.take(k as int)) * full[k as int]);
            assert(sp_product(full.take(k + 1)) <= usize::MAX);
        }
        n = n * shape[k];
    }
    proof {
        assert(full.take(shape@.len() as int) =~= full);
    }
    n
}

/// The row-major position of the cell addressed by `idx` in an array of
/// shape `shape`.
pub fn flat_index_of(shape: &Vec<usize>, idx: &Vec<usize>) -> (r: usize)
    requires
        sp_prefix_products_fit(shape@),
        sp_index_in_bounds(shape@, idx@),
    ensures
        r == sp_flat_index(shape@, idx@),
{
    let ghost fs = shape@;
    let ghost fi = idx@;
    let mut acc: usize = 0;
    for k in 0..shape.len()
        invariant
            shape@ == fs,
            idx@ == fi,
            sp_prefix_products_fit(fs),
            sp_index_in_bounds(fs, fi),
            acc == sp_flat_index(fs.take(k as int), fi.take(k as int)),
    {
        proof {
            assert(fs.take(k + 1).drop_last() =~= fs.take(k as int));
            assert(fi.take(k + 1).drop_last() =~= fi.take(k as int));
            assert(sp_index_in_bounds(fs.take(k + 1), fi.take(k + 1)));
            assert(sp_index_in_bounds(fs.take(k as int), fi.take(k as int)));
            lemma_flat_index_bounds(fs.take(k + 1), fi.take(k + 1));
            lemma_flat_index_bounds(fs.take(k as int), fi.take(k as int));
            assert(sp_flat_index(fs.take(k + 1), fi.take(k + 1)) == acc * fs[k as int] + fi[k as int]);
            assert(sp_product(fs.take(k + 1)) <= usize::MAX);
        }
        acc = acc * shape[k] + idx[k];
    }
    proof {
        assert(fs.take(fs.len() as int) =~= fs);
        assert(fi.take(fi.len() as int) =~= fi);
    }
    acc
}

} // verus!
