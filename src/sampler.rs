//! Weighted random choice of a bottom among the eligible candidates.
use crate::random::uniform_below;
use crate::wardrobe::{weight_in, ItemId, Preference, WeightTable};
use vstd::prelude::*;
use vstd::set_lib::{lemma_int_range, set_int_range};

verus! {

/// Why a draw could not be made.
#[derive(Clone, Copy, Debug, PartialEq, Eq, Structural)]
pub enum SampleError {
    NoCandidates,
    DegenerateDistribution,
}

/// Sum of the effective weights of the first `n` candidates.
pub open spec fn weight_prefix(cands: Seq<ItemId>, prefs: Seq<Preference>, n: int) -> nat
    decreases n,
{
    if n <= 0 {
        0
    } else {
        weight_prefix(cands, prefs, n - 1) + weight_in(prefs, cands[n - 1])
    }
}

/// Sum of the effective weights of all candidates.
pub open spec fn total_weight(cands: Seq<ItemId>, prefs: Seq<Preference>) -> nat {
    weight_prefix(cands, prefs, cands.len() as int)
}

/// A draw in `0..total_weight` lands on candidate `i` when it falls in that
/// candidate's slice of the cumulative weights.
pub open spec fn lands_on(cands: Seq<ItemId>, prefs: Seq<Preference>, draw: int, i: int) -> bool {
    &&& 0 <= i < cands.len()
    &&& weight_prefix(cands, prefs, i) <= draw
    &&& draw < weight_prefix(cands, prefs, i + 1)
}

/// Cumulative weights never decrease.
pub proof fn lemma_prefix_monotone(cands: Seq<ItemId>, prefs: Seq<Preference>, a: int, b: int)
    requires
        0 <= a <= b,
    ensures
        weight_prefix(cands, prefs, a) <= weight_prefix(cands, prefs, b),
    decreases b - a,
{
    if a < b {
        lemma_prefix_monotone(cands, prefs, a, b - 1);
    }
}

/// Each weight fits in a `u32`, so the cumulative sum is bounded by the count.
proof fn lemma_prefix_bound(cands: Seq<ItemId>, prefs: Seq<Preference>, n: int)
    requires
        0 <= n,
    ensures
        weight_prefix(cands, prefs, n) <= n * (u32::MAX as int),
    decreases n,
{
    if n > 0 {
        lemma_prefix_bound(cands, prefs, n - 1);
        lemma_weight_fits(prefs, cands[n - 1]);
    }
}

proof fn lemma_weight_fits(prefs: Seq<Preference>, bottom: ItemId)
    ensures
        weight_in(prefs, bottom) <= u32::MAX,
    decreases prefs.len(),
{
    if prefs.len() > 0 {
        lemma_weight_fits(prefs.drop_first(), bottom);
    }
}

/// The total weight is zero exactly when every candidate's effective weight
/// is zero, so a draw can be made exactly when some candidate has a positive
/// effective weight.
pub proof fn lemma_total_zero_iff_all_zero(cands: Seq<ItemId>, prefs: Seq<Preference>)
    ensures
        total_weight(cands, prefs) == 0 <==> forall|i: int|
            0 <= i < cands.len() ==> weight_in(prefs, #[trigger] cands[i]) == 0,
{
    lemma_prefix_zero(cands, prefs, cands.len() as int);
}

proof fn lemma_prefix_zero(cands: Seq<ItemId>, prefs: Seq<Preference>, n: int)
    requires
        0 <= n <= cands.len(),
    ensures
        weight_prefix(cands, prefs, n) == 0 <==> forall|i: int|
            0 <= i < n ==> weight_in(prefs, #[trigger] cands[i]) == 0,
    decreases n,
{
    if n > 0 {
        lemma_prefix_zero(cands, prefs, n - 1);
    }
}

/// A draw lands on at most one candidate.
pub proof fn lemma_lands_on_unique(
    cands: Seq<ItemId>,
    prefs: Seq<Preference>,
    draw: int,
    i: int,
    k: int,
)
    requires
        lands_on(cands, prefs, draw, i),
        lands_on(cands, prefs, draw, k),
    ensures
        i == k,
{
    if i < k {
        lemma_prefix_monotone(cands, prefs, i + 1, k);
    } else if k < i {
        lemma_prefix_monotone(cands, prefs, k + 1, i);
    }
}

/// The draws that land on candidate `i` number exactly its effective weight.
/// As every draw below the total lands on one candidate
/// (`lemma_draw_lands`, `lemma_lands_on_unique`), a uniform draw below the
/// total chooses candidate `i` with probability
/// `weight_in(prefs, cands[i]) / total_weight(cands, prefs)`.
pub proof fn lemma_draws_proportional(cands: Seq<ItemId>, prefs: Seq<Preference>, i: int)
    requires
        0 <= i < cands.len(),
    ensures
        Set::new(|d: int| lands_on(cands, prefs, d, i)).finite(),
        Set::new(|d: int| lands_on(cands, prefs, d, i)).len() == weight_in(prefs, cands[i]),
{
    let lo = weight_prefix(cands, prefs, i) as int;
    let hi = weight_prefix(cands, prefs, i + 1) as int;
    assert(Set::new(|d: int| lands_on(cands, prefs, d, i)) =~= set_int_range(lo, hi));
    lemma_int_range(lo, hi);
}

/// Every draw below the total weight lands on some candidate.
pub proof fn lemma_draw_lands(cands: Seq<ItemId>, prefs: Seq<Preference>, d: int)
    requires
        0 <= d < total_weight(cands, prefs),
    ensures
        exists|k: int| lands_on(cands, prefs, d, k),
{
    lemma_some_slice(cands, prefs, d, cands.len() as int);
}

/// A draw below the cumulative weight of the first `n` candidates lands on
/// one of them.
proof fn lemma_some_slice(cands: Seq<ItemId>, prefs: Seq<Preference>, d: int, n: int)
    requires
        0 <= d < weight_prefix(cands, prefs, n),
        0 <= n <= cands.len(),
    ensures
        exists|k: int| 0 <= k < n && lands_on(cands, prefs, d, k),
    decreases n,
{
    if d < weight_prefix(cands, prefs, n - 1) {
        lemma_some_slice(cands, prefs, d, n - 1);
    } else {
        assert(lands_on(cands, prefs, d, n - 1));
    }
}

/// The sum of the effective weights of all candidates.
pub fn total_weight_of(cands: &Vec<ItemId>, table: &WeightTable) -> (t: u64)
    requires
        cands@.len() <= u32::MAX,
    ensures
        t as nat == total_weight(cands@, table@),
{
    let mut acc: u64 = 0;
    let mut i: usize = 0;
    while i < cands.len()
        invariant
            0 <= i <= cands.len(),
            cands@.len() <= u32::MAX,
            acc as nat == weight_prefix(cands@, table@, i as int),
        decreases cands.len() - i,
    {
        proof {
            lemma_prefix_bound(cands@, table@, i as int + 1);
            assert((i as int + 1) * (u32::MAX as int) <= (u32::MAX as int) * (u32::MAX as int))
                by (nonlinear_arith)
                requires
                    i as int + 1 <= u32::MAX,
            ;
        }
        acc = acc + table.weight(cands[i]) as u64;
        i = i + 1;
    }
    acc
}

/// Chooses a bottom for a given draw: the candidate on whose cumulative
/// weight slice `draw` lands. No candidates, or no positive weight, is an
/// error; a single candidate with positive weight is returned whatever the
/// draw.
pub fn sample_with_draw(cands: &Vec<ItemId>, table: &WeightTable, draw: u64) -> (r: Result<
    ItemId,
    SampleError,
>)
    requires
        cands@.len() <= u32::MAX,
        total_weight(cands@, table@) > 0 ==> draw < total_weight(cands@, table@),
    ensures
        cands@.len() == 0 <==> r == Err::<ItemId, SampleError>(SampleError::NoCandidates),
        cands@.len() > 0 && total_weight(cands@, table@) == 0 <==> r == Err::<
            ItemId,
            SampleError,
        >(SampleError::DegenerateDistribution),
        cands@.len() > 0 && total_weight(cands@, table@) > 0 ==> exists|i: int|
            lands_on(cands@, table@, draw as int, i) && r == Ok::<ItemId, SampleError>(cands@[i]),
        cands@.len() == 1 && total_weight(cands@, table@) > 0 ==> r == Ok::<ItemId, SampleError>(
            cands@[0],
        ),
{
    if cands.len() == 0 {
        return Err(SampleError::NoCandidates);
    }
    let total = total_weight_of(cands, table);
    if total == 0 {
        return Err(SampleError::DegenerateDistribution);
    }
    if cands.len() == 1 {
        proof {
            assert(lands_on(cands@, table@, draw as int, 0));
        }
        return Ok(cands[0]);
    }
    let mut acc: u64 = 0;
    let mut i: usize = 0;
    while i < cands.len()
        invariant
            0 <= i <= cands.len(),
            cands@.len() <= u32::MAX,
            draw < total_weight(cands@, table@),
            acc as nat == weight_prefix(cands@, table@, i as int),
            acc <= draw,
        decreases cands.len() - i,
    {
        let w = table.weight(cands[i]);
        if draw - acc < w as u64 {
            proof {
                assert(lands_on(cands@, table@, draw as int, i as int));
            }
            return Ok(cands[i]);
        }
        acc = acc + w as u64;
        i = i + 1;
    }
    Ok(cands[0])
}

/// Chooses a bottom at random, each candidate with probability proportional
/// to its effective weight.
pub fn sample(cands: &Vec<ItemId>, table: &WeightTable) -> (r: Result<ItemId, SampleError>)
    requires
        cands@.len() <= u32::MAX,
    ensures
        cands@.len() == 0 <==> r == Err::<ItemId, SampleError>(SampleError::NoCandidates),
        cands@.len() > 0 && total_weight(cands@, table@) == 0 <==> r == Err::<
            ItemId,
            SampleError,
        >(SampleError::DegenerateDistribution),
        cands@.len() > 0 && total_weight(cands@, table@) > 0 ==> exists|i: int|
            0 <= i < cands@.len() && weight_in(table@, cands@[i]) > 0 && r == Ok::<
                ItemId,
                SampleError,
            >(cands@[i]),
        cands@.len() == 1 && total_weight(cands@, table@) > 0 ==> r == Ok::<ItemId, SampleError>(
            cands@[0],
        ),
{
    if cands.len() <= 1 {
        return sample_with_draw(cands, table, 0);
    }
    let total = total_weight_of(cands, table);
    if total == 0 {
        return Err(SampleError::DegenerateDistribution);
    }
    let draw = uniform_below(total);
    let r = sample_with_draw(cands, table, draw);
    proof {
        let i = choose|i: int| lands_on(cands@, table@, draw as int, i) && r == Ok::<ItemId, SampleError>(cands@[i]);
        assert(0 <= i < cands@.len() && weight_in(table@, cands@[i]) > 0);
    }
    r
}

} // verus!
