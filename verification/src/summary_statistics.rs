//! Summary statistics over a flat collection: mean, harmonic and geometric
//! means, and central moments of arbitrary order — variance, skewness,
//! kurtosis and beyond — computed by one generic shift-and-correct algorithm
//! instead of one closed-form expression per order.
//!
//! The central moment of order `p` is expanded, by the binomial theorem,
//! into the raw moments of the mean-shifted collection combined with a
//! correction term (the shifted collection's first moment, which is not
//! exactly zero in rounded arithmetic), and the polynomial is evaluated with
//! Horner's method.
use crate::scalar::Scalar;
use vstd::arithmetic::div_mod::lemma_div_by_multiple;
use vstd::prelude::*;

verus! {

/// The sum of a collection, folded left to right from zero.
pub open spec fn sp_sum<T: Scalar>(s: Seq<T>) -> T
    decreases s.len(),
{
    if s.len() == 0 {
        T::sp_zero()
    } else {
        sp_sum(s.drop_last()).sp_add(s.last())
    }
}

/// The arithmetic mean of a collection: its sum divided by its length.
pub open spec fn sp_mean<T: Scalar>(s: Seq<T>) -> T {
    sp_sum(s).sp_div(T::sp_from_usize(s.len() as usize))
}

/// The raw moment of order `p` of a collection: the mean of its `p`-th
/// powers, with the zeroth moment one and the first moment the plain mean.
pub open spec fn sp_moment<T: Scalar>(s: Seq<T>, p: int) -> T {
    if p == 0 {
        T::sp_one()
    } else if p == 1 {
        sp_mean(s)
    } else {
        sp_mean(s.map_values(|x: T| x.sp_powi(p as u32)))
    }
}

/// Horner's evaluation of a polynomial with coefficients ordered by
/// ascending power of the indeterminate, folded from the highest
/// coefficient down over an accumulator that starts at zero.
pub open spec fn sp_horner<T: Scalar>(coefficients: Seq<T>, indeterminate: T) -> T
    decreases coefficients.len(),
{
    if coefficients.len() == 0 {
        T::sp_zero()
    } else {
        coefficients.first().sp_add(
            indeterminate.sp_mul(sp_horner(coefficients.drop_first(), indeterminate)),
        )
    }
}

/// The binomial coefficient "`n` over `k`", by Pascal's rule.
pub open spec fn sp_binom(n: nat, k: nat) -> nat
    decreases n, k,
{
    if k == 0 {
        1
    } else if n == 0 {
        0
    } else {
        sp_binom((n - 1) as nat, (k - 1) as nat) + sp_binom((n - 1) as nat, k)
    }
}

/// No binomial coefficient that the multiplicative evaluation of
/// "`n` over `k`" passes through, scaled by its step index, leaves the
/// machine's range.
pub open spec fn sp_binom_fits(n: nat, k: nat) -> bool {
    forall|i: int|
        0 <= i < k ==> #[trigger] sp_binom(n, (i + 1) as nat) * (i + 1) <= usize::MAX
}

/// Choosing more than there is leaves nothing: `k > n` makes the
/// coefficient zero.
pub proof fn lemma_binom_none(n: nat, k: nat)
    requires
        k > n,
    ensures
        sp_binom(n, k) == 0,
    decreases n,
{
    if n > 0 {
        lemma_binom_none((n - 1) as nat, (k - 1) as nat);
        lemma_binom_none((n - 1) as nat, k);
    }
}

/// Choosing all of `n` can be done in exactly one way.
pub proof fn lemma_binom_all(n: nat)
    ensures
        sp_binom(n, n) == 1,
    decreases n,
{
    if n > 0 {
        lemma_binom_all((n - 1) as nat);
        lemma_binom_none((n - 1) as nat, n);
    }
}

/// Choosing one of `n` can be done in exactly `n` ways.
pub proof fn lemma_binom_one(n: nat)
    ensures
        sp_binom(n, 1) == n,
    decreases n,
{
    if n > 0 {
        lemma_binom_one((n - 1) as nat);
        assert(sp_binom(n, 1) == sp_binom((n - 1) as nat, 0) + sp_binom((n - 1) as nat, 1));
        assert(sp_binom((n - 1) as nat, 0) == 1);
    }
}

/// The absorption identity that one step of the multiplicative evaluation
/// uses: `(i+1) * C(n, i+1) == (n-i) * C(n, i)`.
pub proof fn lemma_binom_step(n: nat, i: nat)
    requires
        i < n,
    ensures
        (i + 1) * sp_binom(n, (i + 1) as nat) == (n - i) * sp_binom(n, i),
    decreases n,
{
    if i == 0 {
        lemma_binom_one(n);
        assert(sp_binom(n, 0) == 1);
        assert((i + 1) * sp_binom(n, (i + 1) as nat) == 1 * sp_binom(n, 1));
        assert(1 * sp_binom(n, 1) == n * 1) by (nonlinear_arith)
            requires
                sp_binom(n, 1) == n,
        ;
        assert((n - i) * sp_binom(n, i) == n * 1);
    } else {
        // n >= 2 here, since 1 <= i < n.
        let a = sp_binom((n - 1) as nat, i);
        let b = sp_binom((n - 1) as nat, (i + 1) as nat);
        let c = sp_binom((n - 1) as nat, (i - 1) as nat);
        if i < n - 1 {
            lemma_binom_step((n - 1) as nat, i);
            assert((i + 1) * b == (((n - 1) as nat) - i) * a);
        } else {
            lemma_binom_none((n - 1) as nat, (i + 1) as nat);
            assert(b == 0 && n - 1 - i == 0);
            assert((i + 1) * b == 0) by (nonlinear_arith)
                requires
                    b == 0nat,
            ;
            assert((n - 1 - i) * a == 0) by (nonlinear_arith)
                requires
                    n - 1 - i == 0,
            ;
        }
        assert((i + 1) * b == (n - 1 - i) * a);
        lemma_binom_step((n - 1) as nat, (i - 1) as nat);
        assert(i * a == (n - i) * c);
        assert(sp_binom(n, (i + 1) as nat) == a + b);
        assert(sp_binom(n, i) == c + a);
        assert((i + 1) * (a + b) == (n - i) * (c + a)) by (nonlinear_arith)
            requires
                (i + 1) * b == (n - 1 - i) * a,
                i * a == (n - i) * c,
                0 < i < n,
        ;
        assert((i + 1) * sp_binom(n, (i + 1) as nat) == (i + 1) * (a + b));
        assert((n - i) * sp_binom(n, i) == (n - i) * (c + a));
    }
}

/// The symmetry of the binomial coefficient: `C(n, k) == C(n, n-k)`.
pub proof fn lemma_binom_symmetry(n: nat, k: nat)
    requires
        k <= n,
    ensures
        sp_binom(n, k) == sp_binom(n, (n - k) as nat),
    decreases n,
{
    if k == 0 {
        lemma_binom_all(n);
    } else if k == n {
        lemma_binom_all(n);
    } else {
        lemma_binom_symmetry((n - 1) as nat, (k - 1) as nat);
        lemma_binom_symmetry((n - 1) as nat, k);
    }
}

/// The binomial coefficient does not shrink when there is more to choose
/// from.
pub proof fn lemma_binom_monotone(n1: nat, n2: nat, k: nat)
    requires
        n1 <= n2,
    ensures
        sp_binom(n1, k) <= sp_binom(n2, k),
    decreases n2,
{
    if n1 < n2 {
        lemma_binom_monotone(n1, (n2 - 1) as nat, k);
    }
}

/// A machine-range bound on the coefficients of a larger evaluation covers
/// every smaller one.
pub proof fn lemma_binom_fits_smaller(n1: nat, n2: nat, k1: nat, k2: nat)
    requires
        n1 <= n2,
        k1 <= k2,
        sp_binom_fits(n2, k2),
    ensures
        sp_binom_fits(n1, k1),
{
    assert forall|i: int|
        0 <= i < k1 implies #[trigger] sp_binom(n1, (i + 1) as nat) * (i + 1) <= usize::MAX by {
        lemma_binom_monotone(n1, n2, (i + 1) as nat);
        assert(sp_binom(n2, (i + 1) as nat) * (i + 1) <= usize::MAX);
        assert(sp_binom(n1, (i + 1) as nat) * (i + 1) <= sp_binom(n2, (i + 1) as nat) * (i + 1))
            by (nonlinear_arith)
            requires
                sp_binom(n1, (i + 1) as nat) <= sp_binom(n2, (i + 1) as nat),
                i >= 0,
        ;
    }
}

/// Returns the binomial coefficient "`n` over `k`", by the standard
/// multiplicative evaluation, exploiting `C(n, k) == C(n, n-k)`. Asking for
/// `k > n` is an internal-consistency violation, excluded ahead of the
/// call, as is an evaluation that would overflow the machine's range.
pub fn binomial_coefficient(n: usize, k: usize) -> (r: usize)
    requires
        k <= n,
        sp_binom_fits(n as nat, (if k <= n - k { k as int } else { n - k }) as nat),
    ensures
        r == sp_binom(n as nat, k as nat),
{
    // BC(n, k) = BC(n, n-k)
    let kk = if k > n - k {
        n - k
    } else {
        k
    };
    proof {
        lemma_binom_symmetry(n as nat, k as nat);
    }
    let mut result: usize = 1;
    for i in 0..kk
        invariant
            kk <= n - kk,
            kk <= k <= n,
            kk == k || kk == n - k,
            sp_binom_fits(n as nat, kk as nat),
            result == sp_binom(n as nat, i as nat),
    {
        proof {
            lemma_binom_step(n as nat, i as nat);
            assert(sp_binom(n as nat, (i + 1) as nat) * (i + 1) <= usize::MAX);
            assert(result * (n - i) == sp_binom(n as nat, (i + 1) as nat) * (i + 1))
                by (nonlinear_arith)
                requires
                    (i + 1) * sp_binom(n as nat, (i + 1) as nat) == ((n - i) as int) * sp_binom(
                        n as nat,
                        i as nat,
                    ),
                    result == sp_binom(n as nat, i as nat),
            ;
        }
        result = result * (n - i);
        proof {
            lemma_div_by_multiple(sp_binom(n as nat, (i + 1) as nat) as int, i + 1);
        }
        result = result / (i + 1);
    }
    result
}

/// The coefficients, ordered by ascending power of the correction term, of
/// the polynomial that expands a central moment over the raw moments of the
/// mean-shifted collection: the `i`-th coefficient is `C(p, i) * M_{p-i}`,
/// where `p` is the highest order supplied.
pub open spec fn sp_central_moment_coefficients<T: Scalar>(moments: Seq<T>) -> Seq<T> {
    let p = moments.len() - 1;
    Seq::new(
        moments.len(),
        |i: int| T::sp_from_usize(sp_binom(p as nat, i as nat) as usize).sp_mul(moments[p - i]),
    )
}

/// Returns the coefficients in the polynomial expression to compute the
/// `p`-th central moment as a function of the correction term. It takes as
/// input all raw moments of the shifted collection up to order `p`, ordered
/// by power magnitude — `p` is inferred from the length of `moments`.
pub fn central_moment_coefficients<T: Scalar>(moments: &Vec<T>) -> (r: Vec<T>)
    requires
        moments@.len() >= 1,
        sp_binom_fits((moments@.len() - 1) as nat, ((moments@.len() - 1) as nat) / 2),
    ensures
        r@ == sp_central_moment_coefficients(moments@),
{
    let p = moments.len() - 1;
    let mut out: Vec<T> = Vec::new();
    for i in 0..moments.len()
        invariant
            p == moments@.len() - 1,
            sp_binom_fits(p as nat, (p as nat) / 2),
            out@.len() == i,
            forall|j: int|
                0 <= j < i ==> #[trigger] out@[j] == sp_central_moment_coefficients(moments@)[j],
    {
        proof {
            let kk: nat = if i <= p - i {
                i as nat
            } else {
                (p - i) as nat
            };
            lemma_binom_fits_smaller(p as nat, p as nat, kk, (p as nat) / 2);
        }
        let b = binomial_coefficient(p, i);
        out.push(T::from_usize(b).mul(moments[p - i]));
    }
    proof {
        assert(out@ =~= sp_central_moment_coefficients(moments@));
    }
    out
}

/// Uses Horner's method to evaluate a polynomial with a single
/// indeterminate. Coefficients are expected to be sorted by ascending order
/// with respect to the indeterminate's exponent. If the vector is empty,
/// zero is returned.
pub fn horner_method<T: Scalar>(coefficients: Vec<T>, indeterminate: T) -> (r: T)
    ensures
        r == sp_horner(coefficients@, indeterminate),
{
    let mut result = T::zero();
    let mut i = coefficients.len();
    while i > 0
        invariant
            i <= coefficients@.len(),
            result == sp_horner(coefficients@.skip(i as int), indeterminate),
        decreases i,
    {
        i = i - 1;
        result = coefficients[i].add(indeterminate.mul(result));
        proof {
            assert(coefficients@.skip(i as int).drop_first() =~= coefficients@.skip(i + 1));
            assert(coefficients@.skip(i as int).first() == coefficients@[i as int]);
        }
    }
    proof {
        assert(coefficients@.skip(0) =~= coefficients@);
    }
    result
}

/// The central moment of order `p` of a collection: the collection is
/// shifted by its mean, the raw moments of the shifted collection up to `p`
/// are taken, and the binomial expansion over them — with the shifted
/// collection's first moment, kept as a correction term rather than assumed
/// zero, as the indeterminate — is evaluated by Horner's method. Order zero
/// is one and order one is zero by construction.
pub open spec fn sp_central_moment<T: Scalar>(s: Seq<T>, order: int) -> T {
    if order == 0 {
        T::sp_one()
    } else if order == 1 {
        T::sp_zero()
    } else {
        let m = sp_mean(s);
        let shifted = s.map_values(|x: T| x.sp_sub(m));
        let shifted_moments = Seq::new((order + 1) as nat, |p: int| sp_moment(shifted, p));
        let correction = shifted_moments[1].sp_neg();
        sp_horner(sp_central_moment_coefficients(shifted_moments), correction)
    }
}

/// Returns the central moment of the given order, or `None` — and only then
/// — when the collection is empty. Order zero always yields one and order
/// one always yields zero.
pub fn central_moment<T: Scalar>(a: &Vec<T>, order: usize) -> (r: Option<T>)
    requires
        order <= u32::MAX,
        order < usize::MAX,
        order >= 2 ==> sp_binom_fits(order as nat, (order as nat) / 2),
    ensures
        r is Some <==> a@.len() > 0,
        r matches Some(x) ==> x == sp_central_moment(a@, order as int),
        a@.len() > 0 && order == 0 ==> r == Some(T::sp_one()),
        a@.len() > 0 && order == 1 ==> r == Some(T::sp_zero()),
{
    let mean_opt = mean(a);
    match mean_opt {
        None => None,
        Some(mean_val) => match order {
            0 => Some(T::one()),
            1 => Some(T::zero()),
            n => {
                let shifted = map_sub(a, mean_val);
                let shifted_moments = moments(&shifted, n);
                let correction = shifted_moments[1].neg();

                let coefficients = central_moment_coefficients(&shifted_moments);
                proof {
                    assert(shifted@ =~= a@.map_values(|x: T| x.sp_sub(sp_mean(a@))));
                    assert(shifted_moments@ =~= Seq::new(
                        (n + 1) as nat,
                        |p: int| sp_moment(shifted@, p),
                    ));
                }
                Some(horner_method(coefficients, correction))
            },
        },
    }
}

/// The sequence of all central moments of a collection up to `order`,
/// indexed by order.
pub open spec fn sp_central_moments<T: Scalar>(s: Seq<T>, order: int) -> Seq<T> {
    Seq::new(
        (if order == 0 {
            1int
        } else {
            order + 1
        }) as nat,
        |k: int| sp_central_moment(s, k),
    )
}

/// Law: the bulk computation agrees with the single-order one — for every
/// collection and every order `k` up to the bulk's order, the `k`-th entry
/// of the bulk sequence of central moments is exactly the central moment of
/// order `k`.
pub proof fn lemma_bulk_agrees_with_single<T: Scalar>(s: Seq<T>, order: int, k: int)
    requires
        0 <= k <= order,
    ensures
        sp_central_moments(s, order)[k] == sp_central_moment(s, k),
{
}

/// Returns all central moments up to the given order, or `None` — and only
/// then — when the collection is empty: the `k`-th entry of the result is
/// the central moment of order `k`. The mean, the shifted collection and
/// its raw moments are computed once and reused for every order.
pub fn central_moments<T: Scalar>(a: &Vec<T>, order: usize) -> (r: Option<Vec<T>>)
    requires
        order <= u32::MAX,
        order < usize::MAX,
        order >= 2 ==> sp_binom_fits(order as nat, (order as nat) / 2),
    ensures
        r is Some <==> a@.len() > 0,
        r matches Some(v) ==> v@.len() == (if order == 0 {
            1int
        } else {
            order + 1
        }),
        r matches Some(v) ==> forall|k: int|
            0 <= k < v@.len() ==> #[trigger] v@[k] == sp_central_moment(a@, k),
{
    let mean_opt = mean(a);
    match mean_opt {
        None => None,
        Some(mean_val) => match order {
            0 => {
                let mut v: Vec<T> = Vec::new();
                v.push(T::one());
                Some(v)
            },
            1 => {
                let mut v: Vec<T> = Vec::new();
                v.push(T::one());
                v.push(T::zero());
                Some(v)
            },
            n => {
                // These are computed once, and their results reused to
                // compute all the required moments.
                let shifted = map_sub(a, mean_val);
                let shifted_moments = moments(&shifted, n);
                let correction = shifted_moments[1].neg();
                proof {
                    assert(shifted@ =~= a@.map_values(|x: T| x.sp_sub(sp_mean(a@))));
                }

                let mut out: Vec<T> = Vec::new();
                out.push(T::one());
                out.push(T::zero());
                let mut k: usize = 2;
                while k <= n
                    invariant
                        2 <= k <= n + 1,
                        2 <= n <= u32::MAX,
                        n < usize::MAX,
                        sp_binom_fits(n as nat, (n as nat) / 2),
                        mean_val == sp_mean(a@),
                        a@.len() > 0,
                        shifted@ == a@.map_values(|x: T| x.sp_sub(sp_mean(a@))),
                        shifted_moments@.len() == n + 1,
                        forall|p: int|
                            0 <= p <= n ==> #[trigger] shifted_moments@[p] == sp_moment(
                                shifted@,
                                p,
                            ),
                        correction == sp_moment(shifted@, 1).sp_neg(),
                        out@.len() == k,
                        forall|j: int|
                            0 <= j < k ==> #[trigger] out@[j] == sp_central_moment(a@, j),
                    decreases n + 1 - k,
                {
                    let prefix = prefix_of(&shifted_moments, k + 1);
                    proof {
                        assert(prefix@ =~= Seq::new(
                            (k + 1) as nat,
                            |p: int| sp_moment(shifted@, p),
                        ));
                        lemma_binom_fits_smaller(
                            k as nat,
                            n as nat,
                            (k as nat) / 2,
                            (n as nat) / 2,
                        );
                    }
                    let coefficients = central_moment_coefficients(&prefix);
                    let cm = horner_method(coefficients, correction);
                    out.push(cm);
                    k = k + 1;
                }
                Some(out)
            },
        },
    }
}

/// Returns the kurtosis — the fourth central moment over the squared second
/// — or `None` exactly on an empty collection.
pub fn kurtosis<T: Scalar>(a: &Vec<T>) -> (r: Option<T>)
    ensures
        r is Some <==> a@.len() > 0,
        r matches Some(x) ==> x == sp_central_moment(a@, 4).sp_div(
            sp_central_moment(a@, 2).sp_powi(2),
        ),
{
    proof {
        assert forall|i: int| 0 <= i < 2 implies #[trigger] sp_binom(4nat, (i + 1) as nat) * (i
            + 1) <= usize::MAX by {
            lemma_binom_one(4);
            lemma_binom_one(2);
            lemma_binom_all(2);
            assert(sp_binom(3nat, 2nat) == sp_binom(2nat, 1nat) + sp_binom(2nat, 2nat));
            lemma_binom_one(3);
            assert(sp_binom(4nat, 2nat) == sp_binom(3nat, 1nat) + sp_binom(3nat, 2nat));
            assert(sp_binom(4nat, 2nat) == 6);
            if i == 0 {
                assert(sp_binom(4nat, (i + 1) as nat) * (i + 1) == 4);
            } else {
                assert(i == 1);
                assert(sp_binom(4nat, (i + 1) as nat) * (i + 1) == 12);
            }
        }
    }
    let central_moments_opt = central_moments(a, 4);
    match central_moments_opt {
        None => None,
        Some(m) => Some(m[4].div(m[2].powi(2))),
    }
}

/// Returns the skewness — the third central moment over the second raised
/// to the three-halves power — or `None` exactly on an empty collection.
pub fn skewness<T: Scalar>(a: &Vec<T>) -> (r: Option<T>)
    ensures
        r is Some <==> a@.len() > 0,
        r matches Some(x) ==> x == sp_central_moment(a@, 3).sp_div(
            sp_central_moment(a@, 2).sp_sqrt().sp_powi(3),
        ),
{
    proof {
        assert forall|i: int| 0 <= i < 1 implies #[trigger] sp_binom(3nat, (i + 1) as nat) * (i
            + 1) <= usize::MAX by {
            lemma_binom_one(3);
            assert(i == 0);
            assert(sp_binom(3nat, (i + 1) as nat) * (i + 1) == 3);
        }
    }
    let central_moments_opt = central_moments(a, 3);
    match central_moments_opt {
        None => None,
        Some(m) => Some(m[3].div(m[2].sqrt().powi(3))),
    }
}

/// The sum of the collection, folded left to right from zero.
fn sum_of<T: Scalar>(a: &Vec<T>) -> (r: T)
    ensures
        r == sp_sum(a@),
{
    let mut acc = T::zero();
    for i in 0..a.len()
        invariant
            acc == sp_sum(a@.take(i as int)),
    {
        acc = acc.add(a[i]);
        proof {
            assert(a@.take(i + 1).drop_last() =~= a@.take(i as int));
        }
    }
    proof {
        assert(a@.take(a@.len() as int) =~= a@);
    }
    acc
}

/// The collection with every element replaced by its reciprocal.
fn map_recip<T: Scalar>(a: &Vec<T>) -> (r: Vec<T>)
    ensures
        r@ == a@.map_values(|x: T| x.sp_recip()),
{
    let mut out: Vec<T> = Vec::new();
    for i in 0..a.len()
        invariant
            out@.len() == i,
            forall|j: int| 0 <= j < i ==> #[trigger] out@[j] == a@[j].sp_recip(),
    {
        out.push(a[i].recip());
    }
    proof {
        assert(out@ =~= a@.map_values(|x: T| x.sp_recip()));
    }
    out
}

/// The collection with every element replaced by its natural logarithm.
fn map_ln<T: Scalar>(a: &Vec<T>) -> (r: Vec<T>)
    ensures
        r@ == a@.map_values(|x: T| x.sp_ln()),
{
    let mut out: Vec<T> = Vec::new();
    for i in 0..a.len()
        invariant
            out@.len() == i,
            forall|j: int| 0 <= j < i ==> #[trigger] out@[j] == a@[j].sp_ln(),
    {
        out.push(a[i].ln());
    }
    proof {
        assert(out@ =~= a@.map_values(|x: T| x.sp_ln()));
    }
    out
}

/// The collection shifted down by `c`.
fn map_sub<T: Scalar>(a: &Vec<T>, c: T) -> (r: Vec<T>)
    ensures
        r@ == a@.map_values(|x: T| x.sp_sub(c)),
{
    let mut out: Vec<T> = Vec::new();
    for i in 0..a.len()
        invariant
            out@.len() == i,
            forall|j: int| 0 <= j < i ==> #[trigger] out@[j] == a@[j].sp_sub(c),
    {
        out.push(a[i].sub(c));
    }
    proof {
        assert(out@ =~= a@.map_values(|x: T| x.sp_sub(c)));
    }
    out
}

/// The collection with every element raised to the power `k`.
fn map_powi<T: Scalar>(a: &Vec<T>, k: u32) -> (r: Vec<T>)
    ensures
        r@ == a@.map_values(|x: T| x.sp_powi(k)),
{
    let mut out: Vec<T> = Vec::new();
    for i in 0..a.len()
        invariant
            out@.len() == i,
            forall|j: int| 0 <= j < i ==> #[trigger] out@[j] == a@[j].sp_powi(k),
    {
        out.push(a[i].powi(k));
    }
    proof {
        assert(out@ =~= a@.map_values(|x: T| x.sp_powi(k)));
    }
    out
}

/// The first `k` elements of the collection.
fn prefix_of<T: Scalar>(a: &Vec<T>, k: usize) -> (r: Vec<T>)
    requires
        k <= a@.len(),
    ensures
        r@ == a@.take(k as int),
{
    let mut out: Vec<T> = Vec::new();
    for i in 0..k
        invariant
            k <= a@.len(),
            out@.len() == i,
            forall|j: int| 0 <= j < i ==> #[trigger] out@[j] == a@[j],
    {
        out.push(a[i]);
    }
    proof {
        assert(out@ =~= a@.take(k as int));
    }
    out
}

/// Returns the arithmetic mean of the collection, or `None` — and only then
/// — when the collection is empty.
pub fn mean<T: Scalar>(a: &Vec<T>) -> (r: Option<T>)
    ensures
        r is Some <==> a@.len() > 0,
        r matches Some(m) ==> m == sp_mean(a@),
{
    let n_elements = a.len();
    if n_elements == 0 {
        None
    } else {
        let n = T::from_usize(n_elements);
        Some(sum_of(a).div(n))
    }
}

/// Returns the harmonic mean — reciprocal, then mean, then reciprocal — or
/// `None` exactly on an empty collection.
pub fn harmonic_mean<T: Scalar>(a: &Vec<T>) -> (r: Option<T>)
    ensures
        r is Some <==> a@.len() > 0,
        r matches Some(m) ==> m == sp_mean(a@.map_values(|x: T| x.sp_recip())).sp_recip(),
{
    let recips = map_recip(a);
    match mean(&recips) {
        Some(m) => Some(m.recip()),
        None => None,
    }
}

/// Returns the geometric mean — logarithm, then mean, then exponential — or
/// `None` exactly on an empty collection.
pub fn geometric_mean<T: Scalar>(a: &Vec<T>) -> (r: Option<T>)
    ensures
        r is Some <==> a@.len() > 0,
        r matches Some(m) ==> m == sp_mean(a@.map_values(|x: T| x.sp_ln())).sp_exp(),
{
    let logs = map_ln(a);
    match mean(&logs) {
        Some(m) => Some(m.exp()),
        None => None,
    }
}

/// Returns all raw moments of the collection up to `order`, ordered by
/// power magnitude: the `p`-th entry is the mean of the `p`-th powers.
pub fn moments<T: Scalar>(a: &Vec<T>, order: usize) -> (r: Vec<T>)
    requires
        order <= u32::MAX,
        order < usize::MAX,
    ensures
        r@.len() == order + 1,
        forall|p: int| 0 <= p <= order ==> #[trigger] r@[p] == sp_moment(a@, p),
{
    let n_elements = T::from_usize(a.len());

    // When p = 0, every element is raised to the zeroth power: the moment
    // is one without walking the collection.
    let mut out: Vec<T> = Vec::new();
    out.push(T::one());

    if order >= 1 {
        // When p = 1, raising to the first power is the identity.
        out.push(sum_of(a).div(n_elements));
    }
    let mut k: usize = 2;
    while k <= order
        invariant
            order <= u32::MAX,
            order < usize::MAX,
            n_elements == T::sp_from_usize(a@.len() as usize),
            2 <= k,
            order >= 1 ==> k <= order + 1,
            out@.len() == (if order == 0 {
                1int
            } else {
                k as int
            }),
            forall|p: int| 0 <= p < out@.len() ==> #[trigger] out@[p] == sp_moment(a@, p),
        decreases order + 1 - k,
    {
        let powered = map_powi(a, k as u32);
        out.push(sum_of(&powered).div(n_elements));
        k = k + 1;
    }
    out
}

} // verus!
