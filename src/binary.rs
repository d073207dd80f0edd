//! Dissimilarity measures between boolean vectors.
//!
//! Each measure reads the contingency table of its two inputs once and
//! returns an exact fraction. Where the measure is defined to be zero on a
//! degenerate table, the result is `0 / 1`; where the defining ratio divides
//! by the length of an empty input, the denominator is zero and the result
//! is not a number.
use vstd::prelude::*;
use crate::contingency::{
    both_false, both_true, contingency, lemma_cells_cover, lemma_cells_same, lemma_cells_swap,
    mismatches,
    only_first, only_second,
};
use crate::ratio::Ratio;

verus! {

/// Jaccard: mismatches over positions where either vector is true; zero when
/// neither vector has a true entry.
pub open spec fn jaccard_frac(x: Seq<bool>, y: Seq<bool>) -> (int, int) {
    let t = both_true(x, y) as int;
    let d = mismatches(x, y) as int;
    if t + d == 0 {
        (0, 1)
    } else {
        (d, t + d)
    }
}

/// Dice: `d / (2t + d)`; zero when there are no mismatches.
pub open spec fn dice_frac(x: Seq<bool>, y: Seq<bool>) -> (int, int) {
    let t = both_true(x, y) as int;
    let d = mismatches(x, y) as int;
    if d == 0 {
        (0, 1)
    } else {
        (d, 2 * t + d)
    }
}

/// Kulsinski: `(d - t + n) / (d + n)`; zero when there are no mismatches.
pub open spec fn kulsinski_frac(x: Seq<bool>, y: Seq<bool>) -> (int, int) {
    let t = both_true(x, y) as int;
    let d = mismatches(x, y) as int;
    let n = x.len() as int;
    if d == 0 {
        (0, 1)
    } else {
        (d - t + n, d + n)
    }
}

/// Matching: `d / n`, not a number on empty input.
pub open spec fn matching_frac(x: Seq<bool>, y: Seq<bool>) -> (int, int) {
    (mismatches(x, y) as int, x.len() as int)
}

/// Rogers-Tanimoto and Sokal-Michener: `2d / (n + d)`, not a number on empty
/// input.
pub open spec fn rogers_tanimoto_frac(x: Seq<bool>, y: Seq<bool>) -> (int, int) {
    let d = mismatches(x, y) as int;
    (2 * d, x.len() + d)
}

/// Russell-Rao: `(n - t) / n`, forced to zero when the true entries of the
/// two vectors coincide (which covers the empty input).
pub open spec fn russell_rao_frac(x: Seq<bool>, y: Seq<bool>) -> (int, int) {
    let t = both_true(x, y) as int;
    let n = x.len() as int;
    if mismatches(x, y) == 0 {
        (0, 1)
    } else {
        (n - t, n)
    }
}

/// Sokal-Sneath: `d / (t/2 + d)`, written `2d / (t + 2d)`; zero when there
/// are no mismatches.
pub open spec fn sokal_sneath_frac(x: Seq<bool>, y: Seq<bool>) -> (int, int) {
    let t = both_true(x, y) as int;
    let d = mismatches(x, y) as int;
    if d == 0 {
        (0, 1)
    } else {
        (2 * d, t + 2 * d)
    }
}

/// Yule: `2 tf ft / (tt ff + tf ft)`; zero when either off-diagonal cell is
/// empty.
pub open spec fn yule_frac(x: Seq<bool>, y: Seq<bool>) -> (int, int) {
    let tt = both_true(x, y) as int;
    let tf = only_first(x, y) as int;
    let ft = only_second(x, y) as int;
    let ff = both_false(x, y) as int;
    if tf == 0 || ft == 0 {
        (0, 1)
    } else {
        (2 * tf * ft, tt * ff + tf * ft)
    }
}

proof fn lemma_yule_fits(tt: int, tf: int, ft: int, ff: int)
    requires
        0 <= tt,
        0 <= tf,
        0 <= ft,
        0 <= ff,
        tt + tf + ft + ff <= u64::MAX,
    ensures
        2 * tf * ft <= u128::MAX,
        tt * ff + tf * ft <= u128::MAX,
{
    let m = u64::MAX as int;
    assert(2 * tf * ft <= (tf + ft) * (tf + ft)) by (nonlinear_arith);
    assert((tf + ft) * (tf + ft) <= m * m) by (nonlinear_arith)
        requires
            0 <= tf + ft <= m,
    ;
    assert(tt * ff + tf * ft <= (tt + tf) * (ff + ft)) by (nonlinear_arith)
        requires
            0 <= tt,
            0 <= tf,
            0 <= ft,
            0 <= ff,
    ;
    assert((tt + tf) * (ff + ft) <= m * m) by (nonlinear_arith)
        requires
            0 <= tt + tf <= m,
            0 <= ff + ft <= m,
    ;
}

/// Jaccard dissimilarity of two boolean vectors.
pub fn jaccard(x: &[bool], y: &[bool]) -> (r: Ratio)
    requires
        x@.len() == y@.len(),
    ensures
        r@ == jaccard_frac(x@, y@),
{
    let c = contingency(x, y);
    let t = c.true_true as u128;
    let d = c.true_false as u128 + c.false_true as u128;
    if t + d == 0 {
        Ratio::zero()
    } else {
        Ratio::new(d, t + d)
    }
}

/// Dice dissimilarity of two boolean vectors.
pub fn dice(x: &[bool], y: &[bool]) -> (r: Ratio)
    requires
        x@.len() == y@.len(),
    ensures
        r@ == dice_frac(x@, y@),
{
    let c = contingency(x, y);
    let t = c.true_true as u128;
    let d = c.true_false as u128 + c.false_true as u128;
    if d == 0 {
        Ratio::zero()
    } else {
        Ratio::new(d, 2 * t + d)
    }
}

/// Kulsinski dissimilarity of two boolean vectors.
pub fn kulsinski(x: &[bool], y: &[bool]) -> (r: Ratio)
    requires
        x@.len() == y@.len(),
    ensures
        r@ == kulsinski_frac(x@, y@),
{
    let c = contingency(x, y);
    let n = x.len() as u128;
    let t = c.true_true as u128;
    let d = c.true_false as u128 + c.false_true as u128;
    if d == 0 {
        Ratio::zero()
    } else {
        Ratio::new(d + n - t, d + n)
    }
}

/// Matching dissimilarity: the share of positions where the vectors
/// disagree.
pub fn matching(x: &[bool], y: &[bool]) -> (r: Ratio)
    requires
        x@.len() == y@.len(),
    ensures
        r@ == matching_frac(x@, y@),
{
    let c = contingency(x, y);
    let d = c.true_false as u128 + c.false_true as u128;
    Ratio::new(d, x.len() as u128)
}

/// Rogers-Tanimoto dissimilarity of two boolean vectors.
pub fn rogers_tanimoto(x: &[bool], y: &[bool]) -> (r: Ratio)
    requires
        x@.len() == y@.len(),
    ensures
        r@ == rogers_tanimoto_frac(x@, y@),
{
    let c = contingency(x, y);
    let d = c.true_false as u128 + c.false_true as u128;
    Ratio::new(2 * d, x.len() as u128 + d)
}

/// Sokal-Michener dissimilarity; it has the closed form of Rogers-Tanimoto.
pub fn sokal_michener(x: &[bool], y: &[bool]) -> (r: Ratio)
    requires
        x@.len() == y@.len(),
    ensures
        r@ == rogers_tanimoto_frac(x@, y@),
{
    let c = contingency(x, y);
    let d = c.true_false as u128 + c.false_true as u128;
    Ratio::new(2 * d, x.len() as u128 + d)
}

/// Russell-Rao dissimilarity of two boolean vectors.
pub fn russell_rao(x: &[bool], y: &[bool]) -> (r: Ratio)
    requires
        x@.len() == y@.len(),
    ensures
        r@ == russell_rao_frac(x@, y@),
{
    let c = contingency(x, y);
    let n = x.len() as u128;
    let t = c.true_true as u128;
    // every true entry of `x` is one of `y` and the other way round
    if c.true_false == 0 && c.false_true == 0 {
        Ratio::zero()
    } else {
        Ratio::new(n - t, n)
    }
}

/// Sokal-Sneath dissimilarity of two boolean vectors.
pub fn sokal_sneath(x: &[bool], y: &[bool]) -> (r: Ratio)
    requires
        x@.len() == y@.len(),
    ensures
        r@ == sokal_sneath_frac(x@, y@),
{
    let c = contingency(x, y);
    let t = c.true_true as u128;
    let d = c.true_false as u128 + c.false_true as u128;
    if d == 0 {
        Ratio::zero()
    } else {
        Ratio::new(2 * d, t + 2 * d)
    }
}

/// Yule dissimilarity of two boolean vectors.
pub fn yule(x: &[bool], y: &[bool]) -> (r: Ratio)
    requires
        x@.len() == y@.len(),
    ensures
        r@ == yule_frac(x@, y@),
{
    let n = x.len();
    let c = contingency(x, y);
    let tt = c.true_true as u128;
    let tf = c.true_false as u128;
    let ft = c.false_true as u128;
    let ff = c.false_false as u128;
    if tf == 0 || ft == 0 {
        Ratio::zero()
    } else {
        proof {
            assert(n <= u64::MAX);
            lemma_yule_fits(tt as int, tf as int, ft as int, ff as int);
        }
        Ratio::new(2 * tf * ft, tt * ff + tf * ft)
    }
}

} // verus!

verus! {

/// Every binary measure is zero between a vector and itself; the result is a
/// number except for the three measures that divide by the length, on an
/// empty vector.
pub proof fn lemma_identical_is_zero(x: Seq<bool>)
    ensures
        jaccard_frac(x, x).0 == 0 && jaccard_frac(x, x).1 != 0,
        dice_frac(x, x) == (0int, 1int),
        kulsinski_frac(x, x) == (0int, 1int),
        russell_rao_frac(x, x) == (0int, 1int),
        sokal_sneath_frac(x, x) == (0int, 1int),
        yule_frac(x, x) == (0int, 1int),
        matching_frac(x, x).0 == 0,
        rogers_tanimoto_frac(x, x).0 == 0,
        x.len() > 0 ==> matching_frac(x, x).1 != 0 && rogers_tanimoto_frac(x, x).1 != 0,
{
    lemma_cells_same(x);
}

/// Every binary measure is unchanged when its two inputs are swapped.
pub proof fn lemma_binary_symmetric(x: Seq<bool>, y: Seq<bool>)
    requires
        x.len() == y.len(),
    ensures
        jaccard_frac(x, y) == jaccard_frac(y, x),
        dice_frac(x, y) == dice_frac(y, x),
        kulsinski_frac(x, y) == kulsinski_frac(y, x),
        matching_frac(x, y) == matching_frac(y, x),
        rogers_tanimoto_frac(x, y) == rogers_tanimoto_frac(y, x),
        russell_rao_frac(x, y) == russell_rao_frac(y, x),
        sokal_sneath_frac(x, y) == sokal_sneath_frac(y, x),
        yule_frac(x, y) == yule_frac(y, x),
{
    lemma_cells_swap(x, y);
    let tt = both_true(x, y) as int;
    let tf = only_first(x, y) as int;
    let ft = only_second(x, y) as int;
    let ff = both_false(x, y) as int;
    assert(2 * tf * ft == 2 * ft * tf) by (nonlinear_arith);
    assert(tt * ff + tf * ft == tt * ff + ft * tf) by (nonlinear_arith);
}

/// The mismatches and the positions where both vectors are true never exceed
/// the length, so the numerators of Kulsinski and Russell-Rao are never
/// negative and no result is above one.
pub proof fn lemma_binary_at_most_one(x: Seq<bool>, y: Seq<bool>)
    requires
        x.len() == y.len(),
    ensures
        0 <= jaccard_frac(x, y).0 <= jaccard_frac(x, y).1,
        0 <= dice_frac(x, y).0 <= dice_frac(x, y).1,
        0 <= kulsinski_frac(x, y).0 <= kulsinski_frac(x, y).1,
        0 <= matching_frac(x, y).0 <= matching_frac(x, y).1,
        0 <= rogers_tanimoto_frac(x, y).0 <= rogers_tanimoto_frac(x, y).1,
        0 <= russell_rao_frac(x, y).0 <= russell_rao_frac(x, y).1,
        0 <= sokal_sneath_frac(x, y).0 <= sokal_sneath_frac(x, y).1,
{
    lemma_cells_cover(x, y);
}

} // verus!
