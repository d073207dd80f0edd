//! Small helpers: the sign of a value and the default parameters of the
//! generalised measures (an identity matrix, a vector of ones), written once
//! for any element type by taking its zero and one as arguments.
use vstd::prelude::*;
use vstd::std_specs::cmp::PartialOrdSpec;
use core::cmp::Ordering;

verus! {

/// `-1` when `a` is below `zero`, `1` otherwise (so `1` at zero and on
/// values that do not compare, such as a NaN).
pub fn sign<T: PartialOrd>(a: T, zero: T) -> (r: i32)
    ensures
        r == -1 || r == 1,
        T::obeys_partial_cmp_spec() ==> (r == -1 <==> a.partial_cmp_spec(&zero) == Some(
            Ordering::Less,
        )),
{
    if a < zero {
        -1
    } else {
        1
    }
}

/// An `n` by `n` matrix whose entries are `on` on the diagonal and `off`
/// elsewhere.
pub open spec fn is_diagonal_matrix<T>(m: Seq<Vec<T>>, n: nat, on: T, off: T) -> bool {
    &&& m.len() == n
    &&& forall|i: int| 0 <= i < n ==> (#[trigger] m[i])@.len() == n
    &&& forall|i: int, j: int|
        0 <= i < n && 0 <= j < n ==> #[trigger] m[i]@[j] == if i == j {
            on
        } else {
            off
        }
}

fn diagonal_matrix<T: Copy>(n: usize, on: T, off: T) -> (m: Vec<Vec<T>>)
    ensures
        is_diagonal_matrix(m@, n as nat, on, off),
{
    let mut m: Vec<Vec<T>> = Vec::new();
    for i in 0..n
        invariant
            m@.len() == i,
            forall|k: int| 0 <= k < i ==> (#[trigger] m@[k])@.len() == n,
            forall|k: int, j: int|
                0 <= k < i && 0 <= j < n ==> #[trigger] m@[k]@[j] == if k == j {
                    on
                } else {
                    off
                },
    {
        let mut row: Vec<T> = Vec::new();
        for j in 0..n
            invariant
                row@.len() == j,
                forall|l: int| 0 <= l < j ==> row@[l] == if i == l {
                    on
                } else {
                    off
                },
        {
            if i == j {
                row.push(on);
            } else {
                row.push(off);
            }
        }
        m.push(row);
    }
    m
}

/// The `n` by `n` identity matrix over the element type of `zero` and `one`.
pub fn identity_matrix<T: Copy>(n: usize, zero: T, one: T) -> (m: Vec<Vec<T>>)
    ensures
        is_diagonal_matrix(m@, n as nat, one, zero),
{
    diagonal_matrix(n, one, zero)
}

/// The `n` by `n` matrix of ones minus the identity: zero on the diagonal,
/// one elsewhere.
pub fn cost_matrix<T: Copy>(n: usize, zero: T, one: T) -> (m: Vec<Vec<T>>)
    ensures
        is_diagonal_matrix(m@, n as nat, zero, one),
{
    diagonal_matrix(n, zero, one)
}

/// A vector of `n` ones.
pub fn ones_vector<T: Copy>(n: usize, one: T) -> (v: Vec<T>)
    ensures
        v@.len() == n,
        forall|i: int| 0 <= i < n ==> v@[i] == one,
{
    let mut v: Vec<T> = Vec::new();
    for i in 0..n
        invariant
            v@.len() == i,
            forall|k: int| 0 <= k < i ==> v@[k] == one,
    {
        v.push(one);
    }
    v
}

} // verus!
