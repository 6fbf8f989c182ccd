//! Selectivity values and the cardinality-ratio arithmetic behind them.
//!
//! A selectivity is the estimated fraction of rows satisfying a predicate.
//! It is kept as an exact fixed-point number: a numerator out of
//! [`SELECTIVITY_SCALE`], so `0` means no row and `SELECTIVITY_SCALE` means
//! every row. Per-column cardinality ratios are folded into one overall
//! selectivity by multiplication, under the documented assumption that
//! columns are mutually independent and each column's values are uniformly
//! distributed across its range and unordered within the data.

use vstd::prelude::*;
use vstd::arithmetic::div_mod::{
    lemma_div_is_ordered, lemma_div_multiples_vanish, lemma_div_pos_is_pos,
};
use vstd::arithmetic::mul::{lemma_mul_inequality, lemma_mul_nonnegative, lemma_mul_upper_bound};
use vstd::math::min;
use crate::error::AnalysisError;
use crate::interval::Interval;

verus! {

/// The denominator of every selectivity value: selectivities are counted in
/// parts per billion.
pub const SELECTIVITY_SCALE: u64 = 1000000000;

/// The estimated fraction of rows that a predicate selects, as an exact
/// count of parts per [`SELECTIVITY_SCALE`]. `0` selects nothing and
/// `SELECTIVITY_SCALE` selects everything.
#[derive(Clone, Copy, Debug, PartialEq, Eq)]
pub struct Selectivity {
    pub ppb: u64,
}

impl Selectivity {
    /// A selectivity never exceeds one.
    pub open spec fn spec_wf(self) -> bool {
        self.ppb <= SELECTIVITY_SCALE
    }

    /// The selectivity that selects every row, exactly.
    pub fn one() -> (r: Selectivity)
        ensures
            r.ppb == SELECTIVITY_SCALE,
    {
        Selectivity { ppb: SELECTIVITY_SCALE }
    }

    /// The selectivity that selects no row, exactly.
    pub fn zero() -> (r: Selectivity)
        ensures
            r.ppb == 0,
    {
        Selectivity { ppb: 0 }
    }

    /// The numerator over [`SELECTIVITY_SCALE`].
    pub fn as_ppb(&self) -> (r: u64)
        ensures
            r == self.ppb,
    {
        self.ppb
    }
}

/// The cardinality ratio of a column, in parts per [`SELECTIVITY_SCALE`]:
/// how much of the column's initial interval its refined interval keeps.
/// An unchanged interval keeps everything (ratio one); otherwise both
/// cardinalities must be countable and of one type, and the ratio is
/// their quotient, clamped into `[0, 1]`. `None` is the ratio that cannot
/// be computed.
pub open spec fn spec_ratio_ppb(initial: Interval, refined: Interval) -> Option<int> {
    if refined == initial {
        Some(SELECTIVITY_SCALE as int)
    } else if initial.spec_data_type() != refined.spec_data_type() {
        None
    } else {
        match (initial.spec_cardinality(), refined.spec_cardinality()) {
            (Some(ci), Some(cr)) => Some(
                min(SELECTIVITY_SCALE as int, cr * (SELECTIVITY_SCALE as int) / ci),
            ),
            _ => None,
        }
    }
}

/// Compares an initial interval with its refined counterpart and returns the
/// column's cardinality ratio, or a type-conversion error when the pair is
/// incomparable or uncountable.
pub fn cardinality_ratio(initial: &Interval, refined: &Interval) -> (r: Result<
    u64,
    AnalysisError,
>)
    ensures
        match spec_ratio_ppb(*initial, *refined) {
            Some(p) => r matches Ok(v) && v == p,
            None => r == Err::<u64, AnalysisError>(AnalysisError::TypeConversion),
        },
{
    if refined.same_as(initial) {
        return Ok(SELECTIVITY_SCALE);
    }
    let dt_i = initial.lower.data_type();
    let dt_r = refined.lower.data_type();
    if !dt_i.same_as(&dt_r) {
        return Err(AnalysisError::TypeConversion);
    }
    match (initial.cardinality(), refined.cardinality()) {
        (Some(ci), Some(cr)) => {
            proof {
                assert(ci >= 1 && cr >= 1);
                assert(cr <= 0x1_0000_0000_0000_0000u128);
                assert(cr * (SELECTIVITY_SCALE as u128) <= 0x1_0000_0000_0000_0000u128 * (
                SELECTIVITY_SCALE as u128)) by {
                    lemma_mul_inequality(
                        cr as int,
                        0x1_0000_0000_0000_0000,
                        SELECTIVITY_SCALE as int,
                    );
                }
            }
            let num: u128 = cr * (SELECTIVITY_SCALE as u128);
            let q: u128 = num / ci;
            if q >= SELECTIVITY_SCALE as u128 {
                Ok(SELECTIVITY_SCALE)
            } else {
                Ok(q as u64)
            }
        },
        _ => Err(AnalysisError::TypeConversion),
    }
}

/// A ratio that exists lies in `[0, 1]`.
pub proof fn lemma_ratio_bounds(initial: Interval, refined: Interval)
    ensures
        spec_ratio_ppb(initial, refined) matches Some(p) ==> 0 <= p <= SELECTIVITY_SCALE,
{
    if spec_ratio_ppb(initial, refined) is Some && refined != initial {
        match (initial.spec_cardinality(), refined.spec_cardinality()) {
            (Some(ci), Some(cr)) => {
                lemma_mul_nonnegative(cr, SELECTIVITY_SCALE as int);
                lemma_div_pos_is_pos(cr * (SELECTIVITY_SCALE as int), ci);
            },
            _ => {},
        }
    }
}

/// The selectivity after folding in the first `k` columns: the running
/// product of their cardinality ratios, starting from one. `None` as soon
/// as some ratio cannot be computed.
pub open spec fn spec_selectivity_prefix(
    initial: Seq<Interval>,
    refined: Seq<Interval>,
    k: int,
) -> Option<int>
    decreases k,
{
    if k <= 0 {
        Some(SELECTIVITY_SCALE as int)
    } else {
        match (
            spec_selectivity_prefix(initial, refined, k - 1),
            spec_ratio_ppb(initial[k - 1], refined[k - 1]),
        ) {
            (Some(s), Some(r)) => Some(s * r / (SELECTIVITY_SCALE as int)),
            _ => None,
        }
    }
}

/// The overall selectivity of a refinement: the product of every column's
/// cardinality ratio.
pub open spec fn spec_selectivity(initial: Seq<Interval>, refined: Seq<Interval>) -> Option<
    int,
> {
    spec_selectivity_prefix(initial, refined, initial.len() as int)
}

/// Every partial product lies in `[0, 1]`.
pub proof fn lemma_selectivity_prefix_bounds(
    initial: Seq<Interval>,
    refined: Seq<Interval>,
    k: int,
)
    ensures
        spec_selectivity_prefix(initial, refined, k) matches Some(s) ==> 0 <= s
            <= SELECTIVITY_SCALE,
    decreases k,
{
    let sc = SELECTIVITY_SCALE as int;
    if k > 0 && spec_selectivity_prefix(initial, refined, k) is Some {
        lemma_selectivity_prefix_bounds(initial, refined, k - 1);
        lemma_ratio_bounds(initial[k - 1], refined[k - 1]);
        let s = spec_selectivity_prefix(initial, refined, k - 1)->0;
        let r = spec_ratio_ppb(initial[k - 1], refined[k - 1])->0;
        lemma_mul_nonnegative(s, r);
        lemma_div_pos_is_pos(s * r, sc);
        lemma_mul_upper_bound(s, sc, r, sc);
        lemma_div_is_ordered(s * r, sc * sc, sc);
        lemma_div_multiples_vanish(sc, sc);
    }
}

/// If a partial product exists, every ratio it folded in exists.
pub proof fn lemma_selectivity_prefix_ratios_exist(
    initial: Seq<Interval>,
    refined: Seq<Interval>,
    k: int,
)
    requires
        spec_selectivity_prefix(initial, refined, k) is Some,
    ensures
        forall|i: int| 0 <= i < k ==> spec_ratio_ppb(initial[i], refined[i]) is Some,
    decreases k,
{
    if k > 0 {
        lemma_selectivity_prefix_ratios_exist(initial, refined, k - 1);
    }
}

/// Once a ratio cannot be computed, no longer partial product can be.
pub proof fn lemma_selectivity_prefix_none_propagates(
    initial: Seq<Interval>,
    refined: Seq<Interval>,
    k: int,
    m: int,
)
    requires
        spec_selectivity_prefix(initial, refined, k) is None,
        k <= m,
    ensures
        spec_selectivity_prefix(initial, refined, m) is None,
    decreases m - k,
{
    if k < m {
        lemma_selectivity_prefix_none_propagates(initial, refined, k, m - 1);
    }
}

/// The partial product reads only the first `k` columns.
pub proof fn lemma_selectivity_prefix_congruent(
    initial_a: Seq<Interval>,
    refined_a: Seq<Interval>,
    initial_b: Seq<Interval>,
    refined_b: Seq<Interval>,
    k: int,
)
    requires
        forall|i: int| 0 <= i < k ==> initial_a[i] == initial_b[i],
        forall|i: int| 0 <= i < k ==> refined_a[i] == refined_b[i],
    ensures
        spec_selectivity_prefix(initial_a, refined_a, k) == spec_selectivity_prefix(
            initial_b,
            refined_b,
            k,
        ),
    decreases k,
{
    if k > 0 {
        lemma_selectivity_prefix_congruent(initial_a, refined_a, initial_b, refined_b, k - 1);
    }
}

/// Column-wise smaller ratios give a pointwise smaller partial product.
proof fn lemma_selectivity_prefix_monotone(
    initial: Seq<Interval>,
    refined_a: Seq<Interval>,
    refined_b: Seq<Interval>,
    k: int,
)
    requires
        forall|i: int|
            0 <= i < k ==> {
                &&& spec_ratio_ppb(initial[i], refined_a[i]) is Some
                &&& spec_ratio_ppb(initial[i], refined_b[i]) is Some
                &&& spec_ratio_ppb(initial[i], refined_b[i])->0 <= spec_ratio_ppb(
                    initial[i],
                    refined_a[i],
                )->0
            },
    ensures
        spec_selectivity_prefix(initial, refined_a, k) is Some,
        spec_selectivity_prefix(initial, refined_b, k) is Some,
        spec_selectivity_prefix(initial, refined_b, k)->0 <= spec_selectivity_prefix(
            initial,
            refined_a,
            k,
        )->0,
    decreases k,
{
    let sc = SELECTIVITY_SCALE as int;
    if k > 0 {
        lemma_selectivity_prefix_monotone(initial, refined_a, refined_b, k - 1);
        lemma_selectivity_prefix_bounds(initial, refined_a, k - 1);
        lemma_selectivity_prefix_bounds(initial, refined_b, k - 1);
        lemma_ratio_bounds(initial[k - 1], refined_a[k - 1]);
        lemma_ratio_bounds(initial[k - 1], refined_b[k - 1]);
        let sa = spec_selectivity_prefix(initial, refined_a, k - 1)->0;
        let sb = spec_selectivity_prefix(initial, refined_b, k - 1)->0;
        let ra = spec_ratio_ppb(initial[k - 1], refined_a[k - 1])->0;
        let rb = spec_ratio_ppb(initial[k - 1], refined_b[k - 1])->0;
        lemma_mul_inequality(sb, sa, rb);
        lemma_mul_inequality(rb, ra, sa);
        assert(sb * rb <= sa * ra);
        lemma_div_is_ordered(sb * rb, sa * ra, sc);
    }
}

/// Against one initial interval, a narrower refined interval (one whose
/// bounds lie inside a wider one's) keeps a smaller cardinality ratio.
pub proof fn lemma_narrower_interval_smaller_ratio(
    initial: Interval,
    wider: Interval,
    narrower: Interval,
)
    requires
        initial.spec_cardinality() is Some,
        wider.spec_cardinality() is Some,
        narrower.spec_cardinality() is Some,
        wider.spec_data_type() == initial.spec_data_type(),
        narrower.spec_data_type() == initial.spec_data_type(),
        crate::scalar::Scalar::spec_le(wider.lower, narrower.lower),
        crate::scalar::Scalar::spec_le(narrower.upper, wider.upper),
    ensures
        spec_ratio_ppb(initial, narrower) is Some,
        spec_ratio_ppb(initial, wider) is Some,
        spec_ratio_ppb(initial, narrower)->0 <= spec_ratio_ppb(initial, wider)->0,
{
    let sc = SELECTIVITY_SCALE as int;
    let ci = initial.spec_cardinality()->0;
    let cw = wider.spec_cardinality()->0;
    let cn = narrower.spec_cardinality()->0;
    assert(cn <= cw);
    assert(ci >= 1 && cw >= 1 && cn >= 1);
    lemma_ratio_bounds(initial, narrower);
    lemma_ratio_bounds(initial, wider);
    if narrower == initial && wider != initial {
        assert(cn == ci);
        lemma_mul_inequality(ci, cw, sc);
        lemma_div_is_ordered(ci * sc, cw * sc, ci);
        lemma_div_multiples_vanish(sc, ci);
        assert(ci * sc == sc * ci) by {
            vstd::arithmetic::mul::lemma_mul_is_commutative(ci, sc);
        }
        assert(cw * sc / ci >= sc);
    } else if narrower != initial && wider != initial {
        lemma_mul_inequality(cn, cw, sc);
        lemma_div_is_ordered(cn * sc, cw * sc, ci);
    }
}

/// Narrowing one column's refined interval while every other column stays
/// fixed can only lower the overall selectivity: the selectivity model is
/// monotone in each column's narrowing.
pub proof fn lemma_selectivity_narrowing_monotone(
    initial: Seq<Interval>,
    refined_a: Seq<Interval>,
    refined_b: Seq<Interval>,
    j: int,
)
    requires
        initial.len() == refined_a.len(),
        initial.len() == refined_b.len(),
        0 <= j < initial.len(),
        forall|i: int| 0 <= i < initial.len() && i != j ==> refined_a[i] == refined_b[i],
        spec_selectivity(initial, refined_a) is Some,
        initial[j].spec_cardinality() is Some,
        refined_a[j].spec_cardinality() is Some,
        refined_b[j].spec_cardinality() is Some,
        refined_a[j].spec_data_type() == initial[j].spec_data_type(),
        refined_b[j].spec_data_type() == initial[j].spec_data_type(),
        crate::scalar::Scalar::spec_le(refined_a[j].lower, refined_b[j].lower),
        crate::scalar::Scalar::spec_le(refined_b[j].upper, refined_a[j].upper),
    ensures
        spec_selectivity(initial, refined_b) is Some,
        spec_selectivity(initial, refined_b)->0 <= spec_selectivity(initial, refined_a)->0,
{
    lemma_narrower_interval_smaller_ratio(initial[j], refined_a[j], refined_b[j]);
    lemma_selectivity_monotone(initial, refined_a, refined_b, j);
}

/// Narrowing one column's refined interval while every other column stays
/// fixed can only lower the overall selectivity: the multiplicative
/// independence model is monotone.
pub proof fn lemma_selectivity_monotone(
    initial: Seq<Interval>,
    refined_a: Seq<Interval>,
    refined_b: Seq<Interval>,
    j: int,
)
    requires
        initial.len() == refined_a.len(),
        initial.len() == refined_b.len(),
        0 <= j < initial.len(),
        forall|i: int| 0 <= i < initial.len() && i != j ==> refined_a[i] == refined_b[i],
        spec_selectivity(initial, refined_a) is Some,
        spec_ratio_ppb(initial[j], refined_b[j]) is Some,
        spec_ratio_ppb(initial[j], refined_b[j])->0 <= spec_ratio_ppb(initial[j], refined_a[j])->0,
    ensures
        spec_selectivity(initial, refined_b) is Some,
        spec_selectivity(initial, refined_b)->0 <= spec_selectivity(initial, refined_a)->0,
{
    let n = initial.len() as int;
    lemma_selectivity_prefix_ratios_exist(initial, refined_a, n);
    lemma_selectivity_prefix_monotone(initial, refined_a, refined_b, n);
}

/// A column whose refined interval equals its initial interval keeps a ratio
/// of exactly one, and so does not affect the overall selectivity: dropping
/// the column changes nothing.
pub proof fn lemma_unconstrained_column(
    initial: Seq<Interval>,
    refined: Seq<Interval>,
    j: int,
)
    requires
        initial.len() == refined.len(),
        0 <= j < initial.len(),
        refined[j] == initial[j],
    ensures
        spec_selectivity(initial, refined) == spec_selectivity(
            initial.remove(j),
            refined.remove(j),
        ),
{
    lemma_unconstrained_column_prefix(initial, refined, j, initial.len() as int);
}

/// Helper for [`lemma_unconstrained_column`]: the partial products agree once
/// the unconstrained column has been folded in.
proof fn lemma_unconstrained_column_prefix(
    initial: Seq<Interval>,
    refined: Seq<Interval>,
    j: int,
    k: int,
)
    requires
        initial.len() == refined.len(),
        0 <= j < initial.len(),
        j < k <= initial.len(),
        refined[j] == initial[j],
    ensures
        spec_selectivity_prefix(initial, refined, k) == spec_selectivity_prefix(
            initial.remove(j),
            refined.remove(j),
            k - 1,
        ),
    decreases k,
{
    let sc = SELECTIVITY_SCALE as int;
    if k == j + 1 {
        lemma_selectivity_prefix_congruent(
            initial,
            refined,
            initial.remove(j),
            refined.remove(j),
            j,
        );
        if spec_selectivity_prefix(initial, refined, j) is Some {
            let s = spec_selectivity_prefix(initial, refined, j)->0;
            lemma_selectivity_prefix_bounds(initial, refined, j);
            assert(spec_ratio_ppb(initial[j], refined[j]) == Some(sc));
            lemma_div_multiples_vanish(s, sc);
            assert(s * sc == sc * s) by {
                vstd::arithmetic::mul::lemma_mul_is_commutative(s, sc);
            }
            assert(s * sc / sc == s);
        }
    } else {
        lemma_unconstrained_column_prefix(initial, refined, j, k - 1);
        assert(initial.remove(j)[k - 2] == initial[k - 1]);
        assert(refined.remove(j)[k - 2] == refined[k - 1]);
    }
}

} // verus!
