use vstd::prelude::*;
use crate::bucket::BUCKETS;

verus! {

/// Failure of the goodness-of-fit computation.
#[derive(Debug, Clone, Copy, PartialEq, Eq, Structural)]
pub enum ChiSquareError {
    /// The counts sum to zero, so no expected frequency exists.
    EmptySample,
}

/// Pearson's chi-square statistic against the uniform distribution over the
/// buckets, held exactly as the fraction `numerator / denominator`.
#[derive(Debug, Clone, Copy, PartialEq, Eq, Structural)]
pub struct ChiSquare {
    pub numerator: u128,
    pub denominator: u128,
}

/// Sum of the counts.
pub open spec fn total(c: Seq<u32>) -> int
    decreases c.len(),
{
    if c.len() == 0 {
        0
    } else {
        total(c.drop_last()) + c.last()
    }
}

/// Sum over the counts `o` of `(24 * o - t)^2`.
pub open spec fn sq_dev_sum(c: Seq<u32>, t: int) -> int
    decreases c.len(),
{
    if c.len() == 0 {
        0
    } else {
        sq_dev_sum(c.drop_last(), t) + (24 * c.last() - t) * (24 * c.last() - t)
    }
}

/// With `t` the total and `e = t / 24` the expected count per bucket,
/// `sum (o - e)^2 / e` equals `sum (24 * o - t)^2 / (24 * t)`: these are the
/// numerator and the denominator of that fraction.
pub open spec fn chi_numerator(c: Seq<u32>) -> int {
    sq_dev_sum(c, total(c))
}

pub open spec fn chi_denominator(c: Seq<u32>) -> int {
    24 * total(c)
}

/// The whole outcome of the evaluation, a function of the counts alone.
pub open spec fn chi_square_result(c: Seq<u32>) -> Result<ChiSquare, ChiSquareError> {
    if total(c) == 0 {
        Err(ChiSquareError::EmptySample)
    } else {
        Ok(ChiSquare { numerator: chi_numerator(c) as u128, denominator: chi_denominator(c) as u128 })
    }
}

proof fn lemma_sq_dev_nonneg(c: Seq<u32>, t: int)
    ensures
        sq_dev_sum(c, t) >= 0,
    decreases c.len(),
{
    if c.len() > 0 {
        lemma_sq_dev_nonneg(c.drop_last(), t);
        let d = 24 * c.last() - t;
        assert(d * d >= 0) by (nonlinear_arith);
    }
}

/// The chi-square statistic of 24 counts against the uniform distribution,
/// as an exact fraction. Fails with `EmptySample` exactly when the counts sum
/// to zero; otherwise the denominator is positive and the numerator is not
/// negative, so the statistic is at least zero.
pub fn chi_square(counts: &Vec<u32>) -> (r: Result<ChiSquare, ChiSquareError>)
    requires
        counts.len() == BUCKETS,
    ensures
        r == chi_square_result(counts@),
        r is Err <==> total(counts@) == 0,
        r matches Err(e) ==> e == ChiSquareError::EmptySample,
        r matches Ok(s) ==> s.numerator == chi_numerator(counts@) && s.denominator
            == chi_denominator(counts@) && s.denominator > 0,
{
    let mut freq_sum: u64 = 0;
    let mut i: usize = 0;
    while i < counts.len()
        invariant
            i <= counts.len() == 24,
            freq_sum == total(counts@.take(i as int)),
            freq_sum <= i * u32::MAX,
        decreases counts.len() - i,
    {
        assert(counts@.take(i as int + 1).drop_last() =~= counts@.take(i as int));
        freq_sum = freq_sum + counts[i] as u64;
        i = i + 1;
    }
    assert(counts@.take(24) =~= counts@);
    if freq_sum == 0 {
        return Err(ChiSquareError::EmptySample);
    }
    let t: i128 = freq_sum as i128;
    let mut acc: u128 = 0;
    let mut j: usize = 0;
    while j < counts.len()
        invariant
            j <= counts.len() == 24,
            0 < t <= 24 * u32::MAX,
            t == total(counts@),
            acc == sq_dev_sum(counts@.take(j as int), t as int),
            acc <= j * 0x10_0000_0000_0000_0000_0000,
        decreases counts.len() - j,
    {
        assert(counts@.take(j as int + 1).drop_last() =~= counts@.take(j as int));
        let d: i128 = 24 * counts[j] as i128 - t;
        assert(d * d <= 0x10_0000_0000_0000_0000_0000) by (nonlinear_arith)
            requires
                -0x20_0000_0000 <= d <= 0x20_0000_0000,
        ;
        assert(d * d >= 0) by (nonlinear_arith);
        let sq: u128 = (d * d) as u128;
        acc = acc + sq;
        j = j + 1;
    }
    assert(counts@.take(24) =~= counts@);
    Ok(ChiSquare { numerator: acc, denominator: 24 * freq_sum as u128 })
}

/// The statistic is never negative and, for a sample that is not empty, has a
/// positive denominator.
pub proof fn law_statistic_nonnegative(c: Seq<u32>)
    requires
        c.len() == 24,
        total(c) > 0,
    ensures
        chi_numerator(c) >= 0,
        chi_denominator(c) > 0,
{
    lemma_sq_dev_nonneg(c, total(c));
}

/// The statistic is zero exactly when every bucket holds the expected count,
/// a 24th of the total.
pub proof fn law_statistic_zero_iff_uniform(c: Seq<u32>)
    requires
        c.len() == 24,
    ensures
        chi_numerator(c) == 0 <==> forall|k: int| 0 <= k < 24 ==> 24 * #[trigger] c[k] == total(c),
{
    lemma_sq_dev_zero_iff(c, total(c));
}

proof fn lemma_sq_dev_zero_iff(c: Seq<u32>, t: int)
    ensures
        sq_dev_sum(c, t) == 0 <==> forall|k: int| 0 <= k < c.len() ==> 24 * #[trigger] c[k] == t,
    decreases c.len(),
{
    if c.len() > 0 {
        let p = c.drop_last();
        lemma_sq_dev_zero_iff(p, t);
        lemma_sq_dev_nonneg(p, t);
        let d = 24 * c.last() - t;
        assert(d * d >= 0) by (nonlinear_arith);
        assert(d * d == 0 <==> d == 0) by (nonlinear_arith);
        if sq_dev_sum(c, t) == 0 {
            assert forall|k: int| 0 <= k < c.len() implies 24 * #[trigger] c[k] == t by {
                if k < c.len() - 1 {
                    assert(c[k] == p[k]);
                }
            }
        }
        if forall|k: int| 0 <= k < c.len() ==> 24 * #[trigger] c[k] == t {
            assert forall|k: int| 0 <= k < p.len() implies 24 * #[trigger] p[k] == t by {
                assert(p[k] == c[k]);
            }
            assert(24 * c[c.len() - 1] == t);
        }
    }
}

} // verus!
