//! Generic scans over a slice that the measures share: which entries are
//! non-zero, and where the largest entry first occurs.
use vstd::prelude::*;
use vstd::laws_cmp::obeys_partial_cmp_spec_properties;
use vstd::laws_eq::{obeys_concrete_eq, obeys_eq_spec_properties};
use vstd::std_specs::cmp::{PartialEqSpec, PartialOrdSpec};
use core::cmp::Ordering;

verus! {

/// `a > b` as `T`'s ordering specifies it.
pub open spec fn above<T: PartialOrd>(a: T, b: T) -> bool {
    a.partial_cmp_spec(&b) == Some(Ordering::Greater)
}

/// The scan that keeps the first strictly larger entry: starting from
/// `floor` at index zero, each entry above the value held so far replaces
/// it together with its index.
pub open spec fn first_max<T: PartialOrd>(v: Seq<T>, floor: T) -> (T, int)
    decreases v.len(),
{
    if v.len() == 0 {
        (floor, 0)
    } else {
        let prev = first_max(v.drop_last(), floor);
        if above(v.last(), prev.0) {
            (v.last(), v.len() - 1)
        } else {
            prev
        }
    }
}

/// `T`'s ordering is a total order that its comparisons follow, and values
/// that compare equal are the same value.
pub open spec fn totally_ordered<T: PartialOrd>() -> bool {
    &&& T::obeys_partial_cmp_spec()
    &&& obeys_partial_cmp_spec_properties::<T>()
    &&& obeys_concrete_eq::<T>()
    &&& forall|a: T, b: T| (#[trigger] a.partial_cmp_spec(&b)).is_some()
}

/// `a <= b < c` gives `a < c`.
proof fn lemma_not_above_then_below<T: PartialOrd>(a: T, b: T, c: T)
    requires
        totally_ordered::<T>(),
        !above(a, b),
        above(c, b),
    ensures
        above(c, a),
        !above(a, c),
{
    reveal(obeys_partial_cmp_spec_properties);
    reveal(obeys_concrete_eq);
    assert(a.partial_cmp_spec(&b).is_some());
    if a.partial_cmp_spec(&b) == Some(Ordering::Less) {
        assert(b.partial_cmp_spec(&c) == Some(Ordering::Less));
        assert(a.partial_cmp_spec(&c) == Some(Ordering::Less));
    } else {
        assert(a.partial_cmp_spec(&b) == Some(Ordering::Equal));
        assert(a.eq_spec(&b));
        assert(b.partial_cmp_spec(&c) == Some(Ordering::Less));
    }
}

/// The largest entry of `v` that is above `floor`, with the index where it
/// first occurs; `(floor, 0)` when no entry is above `floor`.
///
/// Where `T`'s comparisons follow its specification the result is exactly
/// [`first_max`]; whatever `T` is, the index is a position of `v` or zero.
pub fn max_with_first_index<T: PartialOrd + Copy>(v: &[T], floor: T) -> (r: (T, usize))
    ensures
        r.1 == 0 || r.1 < v@.len(),
        T::obeys_partial_cmp_spec() ==> r.0 == first_max(v@, floor).0 && r.1 == first_max(
            v@,
            floor,
        ).1,
{
    let n = v.len();
    let mut best = floor;
    let mut at: usize = 0;
    for i in 0..n
        invariant
            n == v@.len(),
            at == 0 || at < i,
            T::obeys_partial_cmp_spec() ==> best == first_max(v@.take(i as int), floor).0
                && at == first_max(v@.take(i as int), floor).1,
    {
        assert(v@.take(i + 1).drop_last() =~= v@.take(i as int));
        if v[i] > best {
            best = v[i];
            at = i;
        }
    }
    assert(v@.take(n as int) =~= v@);
    (best, at)
}

/// Under a total order, the scan returns a value that no entry and not
/// `floor` exceeds; when that value is above `floor` it is the entry at the
/// returned index, and every earlier entry is below it, so ties go to the
/// first occurrence.
pub proof fn lemma_first_max<T: PartialOrd>(v: Seq<T>, floor: T)
    requires
        totally_ordered::<T>(),
    ensures
        !above(floor, first_max(v, floor).0),
        forall|j: int| 0 <= j < v.len() ==> !above(#[trigger] v[j], first_max(v, floor).0),
        above(first_max(v, floor).0, floor) ==> {
            let (m, k) = first_max(v, floor);
            &&& 0 <= k < v.len()
            &&& v[k] == m
            &&& forall|j: int| 0 <= j < k ==> above(m, #[trigger] v[j])
        },
        !above(first_max(v, floor).0, floor) ==> first_max(v, floor) == (floor, 0int),
    decreases v.len(),
{
    reveal(obeys_partial_cmp_spec_properties);
    reveal(obeys_concrete_eq);
    assert(floor.eq_spec(&floor));
    assert(floor.partial_cmp_spec(&floor) == Some(Ordering::Equal));
    if v.len() > 0 {
        let w = v.drop_last();
        lemma_first_max(w, floor);
        let pm = first_max(w, floor).0;
        let last = v.last();
        assert forall|j: int| 0 <= j < w.len() implies v[j] == #[trigger] w[j] by {}
        if above(last, pm) {
            lemma_not_above_then_below(floor, pm, last);
            assert(last.eq_spec(&last));
            assert(last.partial_cmp_spec(&last) == Some(Ordering::Equal));
            assert forall|j: int| 0 <= j < v.len() - 1 implies above(last, #[trigger] v[j])
                && !above(v[j], last) by {
                assert(!above(w[j], pm));
                lemma_not_above_then_below(w[j], pm, last);
            }
        } else {
            assert forall|j: int| 0 <= j < v.len() implies !above(#[trigger] v[j], pm) by {
                if j < w.len() {
                    assert(v[j] == w[j]);
                }
            }
        }
        if !above(last, pm) && above(pm, floor) {
            let pk = first_max(w, floor).1;
            assert(v[pk] == w[pk]);
            assert forall|j: int| 0 <= j < pk implies above(pm, #[trigger] v[j]) by {
                assert(v[j] == w[j]);
            }
        }
    }
}

/// Position by position, whether an entry differs from `zero`.
pub fn nonzero_mask<T: PartialEq>(x: &[T], zero: &T) -> (m: Vec<bool>)
    ensures
        m@.len() == x@.len(),
        T::obeys_eq_spec() ==> forall|i: int|
            0 <= i < x@.len() ==> m@[i] == !(#[trigger] x@[i]).eq_spec(zero),
{
    let n = x.len();
    let mut m: Vec<bool> = Vec::new();
    for i in 0..n
        invariant
            n == x@.len(),
            m@.len() == i,
            T::obeys_eq_spec() ==> forall|k: int|
                0 <= k < i ==> m@[k] == !(#[trigger] x@[k]).eq_spec(zero),
    {
        m.push(x[i] != *zero);
    }
    m
}

} // verus!
