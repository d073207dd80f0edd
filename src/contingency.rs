use vstd::prelude::*;

verus! {

/// Number of positions `i` with `x[i] == a` and `y[i] == b`, for two
/// sequences of equal length.
pub open spec fn cell_count(x: Seq<bool>, y: Seq<bool>, a: bool, b: bool) -> nat
    decreases x.len(),
{
    if x.len() == 0 {
        0
    } else {
        cell_count(x.drop_last(), y.drop_last(), a, b) + if x.last() == a && y.last() == b {
            1nat
        } else {
            0nat
        }
    }
}

/// Positions where both vectors are true.
pub open spec fn both_true(x: Seq<bool>, y: Seq<bool>) -> nat {
    cell_count(x, y, true, true)
}

/// Positions where only the first vector is true.
pub open spec fn only_first(x: Seq<bool>, y: Seq<bool>) -> nat {
    cell_count(x, y, true, false)
}

/// Positions where only the second vector is true.
pub open spec fn only_second(x: Seq<bool>, y: Seq<bool>) -> nat {
    cell_count(x, y, false, true)
}

/// Positions where both vectors are false.
pub open spec fn both_false(x: Seq<bool>, y: Seq<bool>) -> nat {
    cell_count(x, y, false, false)
}

/// Positions where the two vectors disagree.
pub open spec fn mismatches(x: Seq<bool>, y: Seq<bool>) -> nat {
    only_first(x, y) + only_second(x, y)
}

/// The four cells of a 2x2 contingency table of two boolean vectors.
#[derive(Clone, Copy, Debug, PartialEq, Eq, Structural)]
pub struct Contingency {
    pub true_true: usize,
    pub true_false: usize,
    pub false_true: usize,
    pub false_false: usize,
}

impl Contingency {
    /// The table holds the counts of `x` against `y`.
    pub open spec fn counts(self, x: Seq<bool>, y: Seq<bool>) -> bool {
        &&& self.true_true == both_true(x, y)
        &&& self.true_false == only_first(x, y)
        &&& self.false_true == only_second(x, y)
        &&& self.false_false == both_false(x, y)
    }
}

/// The four cells of the table always add up to the common length.
pub proof fn lemma_cells_cover(x: Seq<bool>, y: Seq<bool>)
    requires
        x.len() == y.len(),
    ensures
        both_true(x, y) + only_first(x, y) + only_second(x, y) + both_false(x, y) == x.len(),
    decreases x.len(),
{
    if x.len() > 0 {
        lemma_cells_cover(x.drop_last(), y.drop_last());
    }
}

/// Swapping the two vectors swaps the off-diagonal cells and keeps the others.
pub proof fn lemma_cells_swap(x: Seq<bool>, y: Seq<bool>)
    requires
        x.len() == y.len(),
    ensures
        both_true(y, x) == both_true(x, y),
        only_first(y, x) == only_second(x, y),
        only_second(y, x) == only_first(x, y),
        both_false(y, x) == both_false(x, y),
    decreases x.len(),
{
    if x.len() > 0 {
        lemma_cells_swap(x.drop_last(), y.drop_last());
    }
}

/// A vector against itself has no off-diagonal entries.
pub proof fn lemma_cells_same(x: Seq<bool>)
    ensures
        only_first(x, x) == 0,
        only_second(x, x) == 0,
    decreases x.len(),
{
    if x.len() > 0 {
        lemma_cells_same(x.drop_last());
    }
}

/// Counts, in one pass, the four cells of the contingency table of `x`
/// against `y`.
pub fn contingency(x: &[bool], y: &[bool]) -> (c: Contingency)
    requires
        x@.len() == y@.len(),
    ensures
        c.counts(x@, y@),
        c.true_true + c.true_false + c.false_true + c.false_false == x@.len(),
{
    let n = x.len();
    let mut c = Contingency { true_true: 0, true_false: 0, false_true: 0, false_false: 0 };
    for i in 0..n
        invariant
            n == x@.len(),
            n == y@.len(),
            c.counts(x@.take(i as int), y@.take(i as int)),
            c.true_true + c.true_false + c.false_true + c.false_false == i,
    {
        assert(x@.take(i + 1).drop_last() =~= x@.take(i as int));
        assert(y@.take(i + 1).drop_last() =~= y@.take(i as int));
        if x[i] {
            if y[i] {
                c.true_true = c.true_true + 1;
            } else {
                c.true_false = c.true_false + 1;
            }
        } else {
            if y[i] {
                c.false_true = c.false_true + 1;
            } else {
                c.false_false = c.false_false + 1;
            }
        }
    }
    assert(x@.take(n as int) =~= x@);
    assert(y@.take(n as int) =~= y@);
    c
}

} // verus!
