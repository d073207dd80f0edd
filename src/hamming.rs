//! Hamming distance between two sequences of comparable values.
use vstd::prelude::*;
use vstd::laws_eq::{obeys_concrete_eq, obeys_eq, obeys_eq_spec_properties};
use vstd::std_specs::cmp::PartialEqSpec;
use crate::ratio::Ratio;

verus! {

/// Number of positions where `x` and `y` hold values that are not equal.
pub open spec fn differ_count<T: PartialEq>(x: Seq<T>, y: Seq<T>) -> nat
    decreases x.len(),
{
    if x.len() == 0 {
        0
    } else {
        differ_count(x.drop_last(), y.drop_last()) + if x.last().eq_spec(&y.last()) {
            0nat
        } else {
            1nat
        }
    }
}

/// Normalised Hamming distance: the number of positions where the values
/// differ, over the length. On empty input the denominator is zero and the
/// result is not a number.
///
/// Where `T`'s equality follows its specification, the numerator is exactly
/// the number of differing positions; whatever `T` is, it is at most the
/// length.
pub fn hamming<T: PartialEq>(x: &[T], y: &[T]) -> (r: Ratio)
    requires
        x@.len() == y@.len(),
    ensures
        r@.1 == x@.len(),
        0 <= r@.0 <= r@.1,
        T::obeys_eq_spec() ==> r@.0 == differ_count(x@, y@),
{
    let n = x.len();
    let mut count: usize = 0;
    for i in 0..n
        invariant
            n == x@.len(),
            n == y@.len(),
            count <= i,
            T::obeys_eq_spec() ==> count == differ_count(x@.take(i as int), y@.take(i as int)),
    {
        assert(x@.take(i + 1).drop_last() =~= x@.take(i as int));
        assert(y@.take(i + 1).drop_last() =~= y@.take(i as int));
        if x[i] != y[i] {
            count = count + 1;
        }
    }
    assert(x@.take(n as int) =~= x@);
    assert(y@.take(n as int) =~= y@);
    Ratio::new(count as u128, n as u128)
}

/// The number of differing positions does not depend on the order of the
/// two sequences, for a type whose equality is symmetric.
pub proof fn lemma_hamming_symmetric<T: PartialEq>(x: Seq<T>, y: Seq<T>)
    requires
        x.len() == y.len(),
        obeys_eq::<T>(),
    ensures
        differ_count(x, y) == differ_count(y, x),
    decreases x.len(),
{
    reveal(obeys_eq_spec_properties);
    if x.len() > 0 {
        lemma_hamming_symmetric(x.drop_last(), y.drop_last());
        assert(x.last().eq_spec(&y.last()) == y.last().eq_spec(&x.last()));
    }
}

/// A sequence is at distance zero from itself, for a type whose equality is
/// identity.
pub proof fn lemma_hamming_identical<T: PartialEq>(x: Seq<T>)
    requires
        obeys_concrete_eq::<T>(),
    ensures
        differ_count(x, x) == 0,
    decreases x.len(),
{
    reveal(obeys_concrete_eq);
    if x.len() > 0 {
        lemma_hamming_identical(x.drop_last());
        assert(x.last().eq_spec(&x.last()));
    }
}

} // verus!
