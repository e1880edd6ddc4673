//! Per-bin aggregate statistics over samples assigned to cells of an
//! n-dimensional grid: eight parallel arrays (count, count as the statistic
//! type, sum, mean, variance, standard deviation, minimum, maximum), all
//! shaped like the grid, updated in place per incoming sample by Welford's
//! online algorithm.
use crate::bin_content::BinContent;
use crate::errors::BinNotFound;
use crate::grid::BinLocator;
use crate::nd_array::{
    lemma_flat_index_bounds, lemma_flat_index_injective, flat_index_of, sp_flat_index,
    sp_index_in_bounds, sp_product, NdArray,
};
use crate::scalar::{sp_count_value, Scalar};
use vstd::prelude::*;

verus! {

/// The mathematical content of an aggregation: the eight statistic arrays,
/// each as the row-major sequence of its cells.
#[verifier::ext_equal]
pub struct BinnedStatisticView<T> {
    pub counts: Seq<usize>,
    pub numbers: Seq<T>,
    pub sums: Seq<T>,
    pub means: Seq<T>,
    pub variances: Seq<T>,
    pub standard_deviations: Seq<T>,
    pub mins: Seq<T>,
    pub maxs: Seq<T>,
}

/// The view of a freshly constructed aggregation over `n` bins: no samples
/// counted anywhere, zeroes in the running statistics, and the infinite
/// sentinels in the minimum and maximum arrays.
pub open spec fn sp_initial_view<T: Scalar>(n: int) -> BinnedStatisticView<T> {
    BinnedStatisticView {
        counts: Seq::new(n as nat, |i: int| 0usize),
        numbers: Seq::new(n as nat, |i: int| T::sp_zero()),
        sums: Seq::new(n as nat, |i: int| T::sp_zero()),
        means: Seq::new(n as nat, |i: int| T::sp_zero()),
        variances: Seq::new(n as nat, |i: int| T::sp_zero()),
        standard_deviations: Seq::new(n as nat, |i: int| T::sp_zero()),
        mins: Seq::new(n as nat, |i: int| T::sp_infinity()),
        maxs: Seq::new(n as nat, |i: int| T::sp_neg_infinity()),
    }
}

/// One step of Welford's online algorithm, generalized to also track the
/// minimum and the maximum, applied to the cell at flat position `flat`:
/// the counts rise by one, the sum absorbs the value, and the mean and
/// variance are shifted by the value's deviation from the running mean.
pub open spec fn sp_welford_step<T: Scalar>(
    v: BinnedStatisticView<T>,
    flat: int,
    value: T,
) -> BinnedStatisticView<T> {
    let n1 = v.numbers[flat];
    let n = n1.sp_add(T::sp_one());
    let delta = value.sp_sub(v.means[flat]);
    let delta_n = delta.sp_div(n);
    let term1 = delta.sp_mul(delta_n).sp_mul(n1);
    let new_variance = v.variances[flat].sp_mul(n1).sp_add(term1).sp_div(n);
    BinnedStatisticView {
        counts: v.counts.update(flat, (v.counts[flat] + 1) as usize),
        numbers: v.numbers.update(flat, n),
        sums: v.sums.update(flat, v.sums[flat].sp_add(value)),
        means: v.means.update(flat, v.means[flat].sp_add(delta_n)),
        variances: v.variances.update(flat, new_variance),
        standard_deviations: v.standard_deviations.update(flat, new_variance.sp_sqrt()),
        mins: v.mins.update(flat, v.mins[flat].sp_min(value)),
        maxs: v.maxs.update(flat, v.maxs[flat].sp_max(value)),
    }
}

/// The invariant the eight arrays keep among themselves: all of one length;
/// each cell of the `number` array is exactly its count, built by repeated
/// addition of one; a bin without samples holds zeroes and the infinite
/// sentinels; and a bin with samples holds the square root of its variance
/// as its standard deviation.
pub open spec fn sp_view_inv<T: Scalar>(v: BinnedStatisticView<T>) -> bool {
    &&& v.numbers.len() == v.counts.len()
    &&& v.sums.len() == v.counts.len()
    &&& v.means.len() == v.counts.len()
    &&& v.variances.len() == v.counts.len()
    &&& v.standard_deviations.len() == v.counts.len()
    &&& v.mins.len() == v.counts.len()
    &&& v.maxs.len() == v.counts.len()
    &&& forall|i: int|
        0 <= i < v.counts.len() ==> #[trigger] v.numbers[i] == sp_count_value::<T>(
            v.counts[i] as nat,
        )
    &&& forall|i: int|
        #![trigger v.counts[i]]
        0 <= i < v.counts.len() && v.counts[i] == 0 ==> {
            &&& v.sums[i] == T::sp_zero()
            &&& v.means[i] == T::sp_zero()
            &&& v.variances[i] == T::sp_zero()
            &&& v.standard_deviations[i] == T::sp_zero()
            &&& v.mins[i] == T::sp_infinity()
            &&& v.maxs[i] == T::sp_neg_infinity()
        }
    &&& forall|i: int|
        #![trigger v.counts[i]]
        0 <= i < v.counts.len() && v.counts[i] > 0 ==> v.standard_deviations[i]
            == v.variances[i].sp_sqrt()
}

/// Binned statistic data structure.
#[derive(Clone, Debug)]
pub struct BinnedStatistic<T, L> {
    count: NdArray<usize>,
    number: NdArray<T>,
    sum: NdArray<T>,
    mean: NdArray<T>,
    variance: NdArray<T>,
    standard_deviation: NdArray<T>,
    min: NdArray<T>,
    max: NdArray<T>,
    grid: L,
}

impl<T: Scalar, L: BinLocator> View for BinnedStatistic<T, L> {
    type V = BinnedStatisticView<T>;

    closed spec fn view(&self) -> BinnedStatisticView<T> {
        BinnedStatisticView {
            counts: self.count.sp_data(),
            numbers: self.number.sp_data(),
            sums: self.sum.sp_data(),
            means: self.mean.sp_data(),
            variances: self.variance.sp_data(),
            standard_deviations: self.standard_deviation.sp_data(),
            mins: self.min.sp_data(),
            maxs: self.max.sp_data(),
        }
    }
}

impl<T: Scalar, L: BinLocator> BinnedStatistic<T, L> {
    /// The grid the aggregation was built over.
    pub closed spec fn sp_grid(&self) -> L {
        self.grid
    }

    /// The eight backing arrays are dense arrays of the grid's shape.
    pub closed spec fn sp_stores_wf(&self) -> bool {
        &&& self.count.wf()
        &&& self.number.wf()
        &&& self.sum.wf()
        &&& self.mean.wf()
        &&& self.variance.wf()
        &&& self.standard_deviation.wf()
        &&& self.min.wf()
        &&& self.max.wf()
        &&& self.count.sp_shape() == self.grid.sp_shape()
        &&& self.number.sp_shape() == self.grid.sp_shape()
        &&& self.sum.sp_shape() == self.grid.sp_shape()
        &&& self.mean.sp_shape() == self.grid.sp_shape()
        &&& self.variance.sp_shape() == self.grid.sp_shape()
        &&& self.standard_deviation.sp_shape() == self.grid.sp_shape()
        &&& self.min.sp_shape() == self.grid.sp_shape()
        &&& self.max.sp_shape() == self.grid.sp_shape()
    }

    /// Well-formedness: one cell per grid position in every array, and the
    /// semantic invariant of the view.
    pub open spec fn wf(&self) -> bool {
        &&& self.sp_stores_wf()
        &&& self@.counts.len() == sp_product(self.sp_grid().sp_shape())
        &&& sp_view_inv(self@)
    }

    /// Returns a new aggregation over the given grid, with every statistic
    /// at its initial value.
    pub fn new(grid: L) -> (r: Self)
        requires
            crate::nd_array::sp_prefix_products_fit(grid.sp_shape()),
        ensures
            r.wf(),
            r.sp_grid() == grid,
            r@ == sp_initial_view::<T>(sp_product(grid.sp_shape())),
    {
        let count = NdArray::from_elem(grid.shape(), 0usize);
        let number = NdArray::from_elem(grid.shape(), T::zero());
        let sum = NdArray::from_elem(grid.shape(), T::zero());
        let mean = NdArray::from_elem(grid.shape(), T::zero());
        let variance = NdArray::from_elem(grid.shape(), T::zero());
        let standard_deviation = NdArray::from_elem(grid.shape(), T::zero());
        let min = NdArray::from_elem(grid.shape(), T::infinity());
        let max = NdArray::from_elem(grid.shape(), T::neg_infinity());
        let r = BinnedStatistic {
            count,
            number,
            sum,
            mean,
            variance,
            standard_deviation,
            min,
            max,
            grid,
        };
        proof {
            assert(r@.counts =~= sp_initial_view::<T>(sp_product(r.sp_grid().sp_shape())).counts);
            assert(r@.numbers =~= sp_initial_view::<T>(sp_product(r.sp_grid().sp_shape())).numbers);
            assert(r@.sums =~= sp_initial_view::<T>(sp_product(r.sp_grid().sp_shape())).sums);
            assert(r@.means =~= sp_initial_view::<T>(sp_product(r.sp_grid().sp_shape())).means);
            assert(r@.variances =~= sp_initial_view::<T>(
                sp_product(r.sp_grid().sp_shape()),
            ).variances);
            assert(r@.standard_deviations =~= sp_initial_view::<T>(
                sp_product(r.sp_grid().sp_shape()),
            ).standard_deviations);
            assert(r@.mins =~= sp_initial_view::<T>(sp_product(r.sp_grid().sp_shape())).mins);
            assert(r@.maxs =~= sp_initial_view::<T>(sp_product(r.sp_grid().sp_shape())).maxs);
            assert(r@ =~= sp_initial_view::<T>(sp_product(r.sp_grid().sp_shape())));
        }
        r
    }

    /// Adds a single sample to the binned statistic.
    ///
    /// The grid resolves the sample's coordinate to a bin; if no bin
    /// matches, the call reports `BinNotFound` and mutates nothing. On a
    /// match, the bin's running aggregates take one step of Welford's
    /// algorithm with the sample's value. The sample's dimensionality must
    /// equal the grid's, and no bin may already hold the largest
    /// representable count.
    pub fn add_sample(&mut self, sample: &Vec<L::Coord>, value: T) -> (res: Result<
        (),
        BinNotFound,
    >)
        requires
            old(self).wf(),
            sample@.len() == old(self).sp_grid().sp_shape().len(),
            forall|i: int| 0 <= i < old(self)@.counts.len() ==> old(self)@.counts[i] < usize::MAX,
        ensures
            final(self).wf(),
            final(self).sp_grid() == old(self).sp_grid(),
            ({
                match old(self).sp_grid().sp_locate(sample@) {
                    Option::None => res is Err && *final(self) == *old(self),
                    Option::Some(bin) => res is Ok && sp_index_in_bounds(
                        old(self).sp_grid().sp_shape(),
                        bin,
                    ) && final(self)@ == sp_welford_step(
                        old(self)@,
                        sp_flat_index(old(self).sp_grid().sp_shape(), bin),
                        value,
                    ),
                }
            }),
    {
        match self.grid.index_of(sample) {
            Some(bin_index) => {
                let flat = flat_index_of(self.count.shape(), &bin_index);
                proof {
                    lemma_flat_index_bounds(self.count.sp_shape(), bin_index@);
                }
                let ghost pre = self@;

                // Saving count
                let n1 = *self.number.get_flat(flat);

                // Calculate count & sum
                let c = *self.count.get_flat(flat);
                self.count.set_flat(flat, c + 1);
                self.number.set_flat(flat, n1.add(T::one()));
                let s = *self.sum.get_flat(flat);
                self.sum.set_flat(flat, s.add(value));

                // Mean & variance
                let n = *self.number.get_flat(flat);
                let m = *self.mean.get_flat(flat);
                let delta = value.sub(m);
                let delta_n = delta.div(n);
                let term1 = delta.mul(delta_n).mul(n1);
                self.mean.set_flat(flat, m.add(delta_n));
                let v0 = *self.variance.get_flat(flat);
                let new_variance = v0.mul(n1).add(term1).div(n);
                self.variance.set_flat(flat, new_variance);
                self.standard_deviation.set_flat(flat, new_variance.sqrt());

                // Min & max
                let mn = *self.min.get_flat(flat);
                self.min.set_flat(flat, mn.min_val(value));
                let mx = *self.max.get_flat(flat);
                self.max.set_flat(flat, mx.max_val(value));

                proof {
                    assert(self@ =~= sp_welford_step(pre, flat as int, value));
                    assert(sp_count_value::<T>((pre.counts[flat as int] + 1) as nat)
                        == sp_count_value::<T>(pre.counts[flat as int] as nat).sp_add(T::sp_one()));
                    assert(sp_view_inv(self@));
                }
                Ok(())
            },
            None => Err(BinNotFound),
        }
    }

    /// Returns the number of dimensions of the space the binned statistic
    /// is covering.
    pub fn ndim(&self) -> (r: usize)
        requires
            self.wf(),
        ensures
            r == self.sp_grid().sp_shape().len(),
    {
        self.count.ndim()
    }

    /// Borrows the binned statistic `count` matrix (equivalent to a plain
    /// counting histogram).
    pub fn count(&self) -> (r: &NdArray<usize>)
        ensures
            r.sp_data() == self@.counts,
            self.wf() ==> r.wf() && r.sp_shape() == self.sp_grid().sp_shape(),
    {
        &self.count
    }

    /// Borrows the binned statistic `number` matrix: the counts, represented
    /// in the statistic's own type.
    pub fn number(&self) -> (r: &NdArray<T>)
        ensures
            r.sp_data() == self@.numbers,
            self.wf() ==> r.wf() && r.sp_shape() == self.sp_grid().sp_shape(),
    {
        &self.number
    }

    /// Borrows the binned statistic `sum` matrix.
    pub fn sum(&self) -> (r: &NdArray<T>)
        ensures
            r.sp_data() == self@.sums,
            self.wf() ==> r.wf() && r.sp_shape() == self.sp_grid().sp_shape(),
    {
        &self.sum
    }

    /// Borrows the binned statistic `mean` matrix.
    pub fn mean(&self) -> (r: &NdArray<T>)
        ensures
            r.sp_data() == self@.means,
            self.wf() ==> r.wf() && r.sp_shape() == self.sp_grid().sp_shape(),
    {
        &self.mean
    }

    /// Borrows the binned statistic `variance` matrix.
    pub fn variance(&self) -> (r: &NdArray<T>)
        ensures
            r.sp_data() == self@.variances,
            self.wf() ==> r.wf() && r.sp_shape() == self.sp_grid().sp_shape(),
    {
        &self.variance
    }

    /// Borrows the binned statistic `standard_deviation` matrix.
    pub fn standard_deviation(&self) -> (r: &NdArray<T>)
        ensures
            r.sp_data() == self@.standard_deviations,
            self.wf() ==> r.wf() && r.sp_shape() == self.sp_grid().sp_shape(),
    {
        &self.standard_deviation
    }

    /// Borrows the binned statistic `min` matrix.
    pub fn min(&self) -> (r: &NdArray<T>)
        ensures
            r.sp_data() == self@.mins,
            self.wf() ==> r.wf() && r.sp_shape() == self.sp_grid().sp_shape(),
    {
        &self.min
    }

    /// Borrows the binned statistic `max` matrix.
    pub fn max(&self) -> (r: &NdArray<T>)
        ensures
            r.sp_data() == self@.maxs,
            self.wf() ==> r.wf() && r.sp_shape() == self.sp_grid().sp_shape(),
    {
        &self.max
    }

    /// Borrows an immutable reference to the binned statistic grid.
    pub fn grid(&self) -> (r: &L)
        ensures
            *r == self.sp_grid(),
    {
        &self.grid
    }

    /// Returns the `count` matrix with each cell wrapped in `BinContent`:
    /// `Empty` where the bin received no samples, `Value` elsewhere.
    pub fn count_binned(&self) -> (r: NdArray<BinContent<usize>>)
        requires
            self.wf(),
        ensures
            r.wf(),
            r.sp_shape() == self.sp_grid().sp_shape(),
            r.sp_data().len() == self@.counts.len(),
            forall|i: int|
                0 <= i < r.sp_data().len() ==> #[trigger] r.sp_data()[i] == (if self@.counts[i]
                    == 0 {
                    BinContent::<usize>::Empty
                } else {
                    BinContent::Value(self@.counts[i])
                }),
    {
        binned_of(&self.count, &self.count)
    }

    /// Returns the `number` matrix with each cell wrapped in `BinContent`,
    /// using a count of zero as the absence test.
    pub fn number_binned(&self) -> (r: NdArray<BinContent<T>>)
        requires
            self.wf(),
        ensures
            r.wf(),
            r.sp_shape() == self.sp_grid().sp_shape(),
            r.sp_data().len() == self@.counts.len(),
            forall|i: int|
                0 <= i < r.sp_data().len() ==> #[trigger] r.sp_data()[i] == (if self@.counts[i]
                    == 0 {
                    BinContent::<T>::Empty
                } else {
                    BinContent::Value(self@.numbers[i])
                }),
    {
        binned_of(&self.count, &self.number)
    }

    /// Returns the `sum` matrix with each cell wrapped in `BinContent`,
    /// using a count of zero as the absence test.
    pub fn sum_binned(&self) -> (r: NdArray<BinContent<T>>)
        requires
            self.wf(),
        ensures
            r.wf(),
            r.sp_shape() == self.sp_grid().sp_shape(),
            r.sp_data().len() == self@.counts.len(),
            forall|i: int|
                0 <= i < r.sp_data().len() ==> #[trigger] r.sp_data()[i] == (if self@.counts[i]
                    == 0 {
                    BinContent::<T>::Empty
                } else {
                    BinContent::Value(self@.sums[i])
                }),
    {
        binned_of(&self.count, &self.sum)
    }

    /// Returns the `mean` matrix with each cell wrapped in `BinContent`,
    /// using a count of zero as the absence test.
    pub fn mean_binned(&self) -> (r: NdArray<BinContent<T>>)
        requires
            self.wf(),
        ensures
            r.wf(),
            r.sp_shape() == self.sp_grid().sp_shape(),
            r.sp_data().len() == self@.counts.len(),
            forall|i: int|
                0 <= i < r.sp_data().len() ==> #[trigger] r.sp_data()[i] == (if self@.counts[i]
                    == 0 {
                    BinContent::<T>::Empty
                } else {
                    BinContent::Value(self@.means[i])
                }),
    {
        binned_of(&self.count, &self.mean)
    }

    /// Returns the `variance` matrix with each cell wrapped in `BinContent`,
    /// using a count of zero as the absence test.
    pub fn variance_binned(&self) -> (r: NdArray<BinContent<T>>)
        requires
            self.wf(),
        ensures
            r.wf(),
            r.sp_shape() == self.sp_grid().sp_shape(),
            r.sp_data().len() == self@.counts.len(),
            forall|i: int|
                0 <= i < r.sp_data().len() ==> #[trigger] r.sp_data()[i] == (if self@.counts[i]
                    == 0 {
                    BinContent::<T>::Empty
                } else {
                    BinContent::Value(self@.variances[i])
                }),
    {
        binned_of(&self.count, &self.variance)
    }

    /// Returns the `standard_deviation` matrix with each cell wrapped in
    /// `BinContent`, using a count of zero as the absence test.
    pub fn standard_deviation_binned(&self) -> (r: NdArray<BinContent<T>>)
        requires
            self.wf(),
        ensures
            r.wf(),
            r.sp_shape() == self.sp_grid().sp_shape(),
            r.sp_data().len() == self@.counts.len(),
            forall|i: int|
                0 <= i < r.sp_data().len() ==> #[trigger] r.sp_data()[i] == (if self@.counts[i]
                    == 0 {
                    BinContent::<T>::Empty
                } else {
                    BinContent::Value(self@.standard_deviations[i])
                }),
    {
        binned_of(&self.count, &self.standard_deviation)
    }

    /// Returns the `min` matrix with each cell wrapped in `BinContent`,
    /// using a count of zero as the absence test.
    pub fn min_binned(&self) -> (r: NdArray<BinContent<T>>)
        requires
            self.wf(),
        ensures
            r.wf(),
            r.sp_shape() == self.sp_grid().sp_shape(),
            r.sp_data().len() == self@.counts.len(),
            forall|i: int|
                0 <= i < r.sp_data().len() ==> #[trigger] r.sp_data()[i] == (if self@.counts[i]
                    == 0 {
                    BinContent::<T>::Empty
                } else {
                    BinContent::Value(self@.mins[i])
                }),
    {
        binned_of(&self.count, &self.min)
    }

    /// Returns the `max` matrix with each cell wrapped in `BinContent`,
    /// using a count of zero as the absence test.
    pub fn max_binned(&self) -> (r: NdArray<BinContent<T>>)
        requires
            self.wf(),
        ensures
            r.wf(),
            r.sp_shape() == self.sp_grid().sp_shape(),
            r.sp_data().len() == self@.counts.len(),
            forall|i: int|
                0 <= i < r.sp_data().len() ==> #[trigger] r.sp_data()[i] == (if self@.counts[i]
                    == 0 {
                    BinContent::<T>::Empty
                } else {
                    BinContent::Value(self@.maxs[i])
                }),
    {
        binned_of(&self.count, &self.max)
    }
}

/// Wraps each cell of `values` in `BinContent`, using a zero in the parallel
/// `count` array as the absence test.
fn binned_of<U: Copy>(count: &NdArray<usize>, values: &NdArray<U>) -> (r: NdArray<BinContent<U>>)
    requires
        count.wf(),
        values.wf(),
        count.sp_shape() == values.sp_shape(),
    ensures
        r.wf(),
        r.sp_shape() == values.sp_shape(),
        r.sp_data().len() == count.sp_data().len(),
        forall|i: int|
            0 <= i < r.sp_data().len() ==> #[trigger] r.sp_data()[i] == (if count.sp_data()[i]
                == 0 {
                BinContent::<U>::Empty
            } else {
                BinContent::Value(values.sp_data()[i])
            }),
{
    let n = values.data().len();
    let mut out: Vec<BinContent<U>> = Vec::new();
    for i in 0..n
        invariant
            n == count.sp_data().len(),
            n == values.sp_data().len(),
            out@.len() == i,
            forall|j: int|
                0 <= j < i ==> #[trigger] out@[j] == (if count.sp_data()[j] == 0 {
                    BinContent::<U>::Empty
                } else {
                    BinContent::Value(values.sp_data()[j])
                }),
    {
        if *count.get_flat(i) == 0 {
            out.push(BinContent::Empty);
        } else {
            out.push(BinContent::Value(*values.get_flat(i)));
        }
    }
    let shape = copy_indices(values.shape());
    NdArray::from_data(shape, out)
}

/// Copies a vector of per-axis indices.
fn copy_indices(v: &Vec<usize>) -> (r: Vec<usize>)
    ensures
        r@ == v@,
{
    let mut r: Vec<usize> = Vec::new();
    for i in 0..v.len()
        invariant
            r@ == v@.take(i as int),
    {
        r.push(v[i]);
        proof {
            assert(r@ =~= v@.take(i + 1));
        }
    }
    proof {
        assert(v@.take(v@.len() as int) =~= v@);
    }
    r
}

/// The view an aggregation reaches after ingesting a batch of samples one by
/// one, in order, starting from the view `v`: a sample that the grid
/// resolves takes one Welford step at its bin; one that resolves to no bin
/// changes nothing.
pub open spec fn sp_ingest<T: Scalar, L: BinLocator>(
    grid: L,
    v: BinnedStatisticView<T>,
    samples: Seq<Seq<L::Coord>>,
    values: Seq<T>,
) -> BinnedStatisticView<T>
    decreases samples.len(),
{
    if samples.len() == 0 {
        v
    } else {
        let prev = sp_ingest(grid, v, samples.drop_last(), values.drop_last());
        match grid.sp_locate(samples.last()) {
            Option::Some(bin) => sp_welford_step(
                prev,
                sp_flat_index(grid.sp_shape(), bin),
                values.last(),
            ),
            Option::None => prev,
        }
    }
}

/// Returns the binned statistic for a batch of samples (each row one
/// d-dimensional point) and a parallel batch of values: every row is fed to
/// `add_sample` in order, and points outside the grid's coverage are
/// silently skipped. Row `i` of the point batch must correspond to element
/// `i` of the value batch.
pub fn binned_statistic<T: Scalar, L: BinLocator>(
    samples: &Vec<Vec<L::Coord>>,
    values: &Vec<T>,
    grid: L,
) -> (r: BinnedStatistic<T, L>)
    requires
        samples@.len() == values@.len(),
        samples@.len() < usize::MAX,
        forall|i: int|
            0 <= i < samples@.len() ==> (#[trigger] samples@[i])@.len() == grid.sp_shape().len(),
        crate::nd_array::sp_prefix_products_fit(grid.sp_shape()),
    ensures
        r.wf(),
        r.sp_grid() == grid,
        r@ == sp_ingest(
            grid,
            sp_initial_view::<T>(sp_product(grid.sp_shape())),
            samples@.map_values(|s: Vec<L::Coord>| s@),
            values@,
        ),
{
    let ghost g = grid;
    let ghost init = sp_initial_view::<T>(sp_product(grid.sp_shape()));
    let ghost points = samples@.map_values(|s: Vec<L::Coord>| s@);
    let mut bs: BinnedStatistic<T, L> = BinnedStatistic::new(grid);
    for i in 0..samples.len()
        invariant
            bs.wf(),
            bs.sp_grid() == g,
            samples@.len() == values@.len(),
            samples@.len() < usize::MAX,
            forall|k: int|
                0 <= k < samples@.len() ==> (#[trigger] samples@[k])@.len() == g.sp_shape().len(),
            points == samples@.map_values(|s: Vec<L::Coord>| s@),
            forall|j: int| 0 <= j < bs@.counts.len() ==> #[trigger] bs@.counts[j] <= i,
            bs@ == sp_ingest(g, init, points.take(i as int), values@.take(i as int)),
    {
        let ghost pre = bs@;
        let _ = bs.add_sample(&samples[i], values[i]);
        proof {
            assert(points.take(i + 1).drop_last() =~= points.take(i as int));
            assert(values@.take(i + 1).drop_last() =~= values@.take(i as int));
            assert(points.take(i + 1).last() == samples@[i as int]@);
            assert(values@.take(i + 1).last() == values@[i as int]);
            assert(bs@ == sp_ingest(g, init, points.take(i + 1), values@.take(i + 1)));
            let located = g.sp_locate(samples@[i as int]@);
            if located is Some {
                lemma_flat_index_bounds(g.sp_shape(), located.unwrap());
                let f = sp_flat_index(g.sp_shape(), located.unwrap());
                assert(bs@.counts == pre.counts.update(f, (pre.counts[f] + 1) as usize));
                assert forall|j: int|
                    0 <= j < bs@.counts.len() implies #[trigger] bs@.counts[j] <= i + 1 by {
                    assert(pre.counts[j] <= i);
                    if j != f {
                        assert(bs@.counts[j] == pre.counts[j]);
                    }
                }
            } else {
                assert(bs@ == pre);
                assert forall|j: int|
                    0 <= j < bs@.counts.len() implies #[trigger] bs@.counts[j] <= i + 1 by {
                    assert(pre.counts[j] <= i);
                }
            }
        }
    }
    proof {
        assert(points.take(samples@.len() as int) =~= points);
        assert(values@.take(values@.len() as int) =~= values@);
    }
    bs
}

/// The one-dimensional form of [`binned_statistic`]: each sample is a single
/// coordinate, fed to `add_sample` as a one-element point.
pub fn binned_statistic_1d<T: Scalar, L: BinLocator>(
    samples: &Vec<L::Coord>,
    values: &Vec<T>,
    grid: L,
) -> (r: BinnedStatistic<T, L>)
    where L::Coord: Copy
    requires
        samples@.len() == values@.len(),
        samples@.len() < usize::MAX,
        grid.sp_shape().len() == 1,
        crate::nd_array::sp_prefix_products_fit(grid.sp_shape()),
    ensures
        r.wf(),
        r.sp_grid() == grid,
        r@ == sp_ingest(
            grid,
            sp_initial_view::<T>(sp_product(grid.sp_shape())),
            samples@.map_values(|c: L::Coord| seq![c]),
            values@,
        ),
{
    let ghost g = grid;
    let ghost init = sp_initial_view::<T>(sp_product(grid.sp_shape()));
    let ghost points = samples@.map_values(|c: L::Coord| seq![c]);
    let mut bs: BinnedStatistic<T, L> = BinnedStatistic::new(grid);
    for i in 0..samples.len()
        invariant
            bs.wf(),
            bs.sp_grid() == g,
            samples@.len() == values@.len(),
            samples@.len() < usize::MAX,
            g.sp_shape().len() == 1,
            points == samples@.map_values(|c: L::Coord| seq![c]),
            forall|j: int| 0 <= j < bs@.counts.len() ==> #[trigger] bs@.counts[j] <= i,
            bs@ == sp_ingest(g, init, points.take(i as int), values@.take(i as int)),
    {
        let mut point: Vec<L::Coord> = Vec::new();
        point.push(samples[i]);
        let ghost pre = bs@;
        let _ = bs.add_sample(&point, values[i]);
        proof {
            assert(point@ =~= seq![samples@[i as int]]);
            assert(points.take(i + 1).drop_last() =~= points.take(i as int));
            assert(values@.take(i + 1).drop_last() =~= values@.take(i as int));
            assert(points.take(i + 1).last() == point@);
            assert(values@.take(i + 1).last() == values@[i as int]);
            assert(bs@ == sp_ingest(g, init, points.take(i + 1), values@.take(i + 1)));
            let located = g.sp_locate(point@);
            if located is Some {
                lemma_flat_index_bounds(g.sp_shape(), located.unwrap());
                let f = sp_flat_index(g.sp_shape(), located.unwrap());
                assert(bs@.counts == pre.counts.update(f, (pre.counts[f] + 1) as usize));
                assert forall|j: int|
                    0 <= j < bs@.counts.len() implies #[trigger] bs@.counts[j] <= i + 1 by {
                    assert(pre.counts[j] <= i);
                    if j != f {
                        assert(bs@.counts[j] == pre.counts[j]);
                    }
                }
            } else {
                assert(bs@ == pre);
                assert forall|j: int|
                    0 <= j < bs@.counts.len() implies #[trigger] bs@.counts[j] <= i + 1 by {
                    assert(pre.counts[j] <= i);
                }
            }
        }
    }
    proof {
        assert(points.take(samples@.len() as int) =~= points);
        assert(values@.take(values@.len() as int) =~= values@);
    }
    bs
}

/// Law: one Welford step that lands in bin `bin` raises that bin's `count`
/// and `number` by exactly one — and the two agree exactly, both being the
/// number of samples the bin has seen — while every array element of every
/// other bin is unchanged.
pub proof fn lemma_add_sample_updates_one_bin<T: Scalar>(
    v: BinnedStatisticView<T>,
    shape: Seq<usize>,
    bin: Seq<usize>,
    other: Seq<usize>,
    value: T,
)
    requires
        sp_view_inv(v),
        v.counts.len() == sp_product(shape),
        sp_index_in_bounds(shape, bin),
        sp_index_in_bounds(shape, other),
        other != bin,
        v.counts[sp_flat_index(shape, bin)] < usize::MAX,
    ensures
        ({
            let w = sp_welford_step(v, sp_flat_index(shape, bin), value);
            let f = sp_flat_index(shape, bin);
            let o = sp_flat_index(shape, other);
            &&& w.counts[f] == v.counts[f] + 1
            &&& w.numbers[f] == v.numbers[f].sp_add(T::sp_one())
            &&& w.numbers[f] == sp_count_value::<T>(w.counts[f] as nat)
            &&& w.counts[o] == v.counts[o]
            &&& w.numbers[o] == v.numbers[o]
            &&& w.sums[o] == v.sums[o]
            &&& w.means[o] == v.means[o]
            &&& w.variances[o] == v.variances[o]
            &&& w.standard_deviations[o] == v.standard_deviations[o]
            &&& w.mins[o] == v.mins[o]
            &&& w.maxs[o] == v.maxs[o]
        }),
{
    lemma_flat_index_bounds(shape, bin);
    lemma_flat_index_bounds(shape, other);
    if sp_flat_index(shape, bin) == sp_flat_index(shape, other) {
        lemma_flat_index_injective(shape, bin, other);
    }
    let f = sp_flat_index(shape, bin);
    assert(sp_count_value::<T>((v.counts[f] + 1) as nat) == sp_count_value::<T>(
        v.counts[f] as nat,
    ).sp_add(T::sp_one()));
}

/// Law: in every well-formed aggregation — hence after every update — each
/// bin that has received samples holds the square root of its variance as
/// its standard deviation, and each bin that has received none holds zero
/// in both.
pub proof fn lemma_standard_deviation_is_sqrt_of_variance<T: Scalar, L: BinLocator>(
    s: &BinnedStatistic<T, L>,
)
    requires
        s.wf(),
    ensures
        forall|i: int|
            #![trigger s@.standard_deviations[i]]
            0 <= i < s@.counts.len() && s@.counts[i] > 0 ==> s@.standard_deviations[i]
                == s@.variances[i].sp_sqrt(),
        forall|i: int|
            #![trigger s@.standard_deviations[i]]
            0 <= i < s@.counts.len() && s@.counts[i] == 0 ==> s@.standard_deviations[i]
                == T::sp_zero() && s@.variances[i] == T::sp_zero(),
{
}

} // verus!
