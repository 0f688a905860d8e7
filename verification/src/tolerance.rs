//! The choice of the triangle that sets the scale of a default tolerance.
//!
//! A default tolerance is derived from the smallest triangle of the background
//! mesh. The caller measures every triangle; this module picks the smallest
//! measure that is a number above zero, so that a degenerate triangle never
//! sets the scale, and says so when no triangle is left to pick.

use vstd::prelude::*;

use crate::scalar::{lemma_key_orders_values, Scalar};

verus! {

/// Why a mesh gives no default tolerance.
#[derive(Clone, Copy, Debug, PartialEq, Eq)]
pub enum ToleranceError {
    /// The mesh has no triangle.
    NoTriangles,
    /// The mesh has triangles, and none of them has a measure above zero.
    AllDegenerate,
}

/// `smallest` is one of `measures`, is above zero, and no measure above zero
/// is below it.
pub open spec fn is_smallest_positive(measures: Seq<Scalar>, smallest: Scalar) -> bool {
    &&& smallest.positive()
    &&& exists|i: int| 0 <= i < measures.len() && #[trigger] measures[i] == smallest
    &&& forall|j: int|
        0 <= j < measures.len() && (#[trigger] measures[j]).positive() ==> !measures[j].lt(
            smallest,
        )
}

/// None of `measures` is above zero.
pub open spec fn none_positive(measures: Seq<Scalar>) -> bool {
    forall|j: int| 0 <= j < measures.len() ==> !(#[trigger] measures[j]).positive()
}

/// Picks the smallest of the triangle measures that are above zero. Measures
/// that are zero, below zero or not a number are passed over.
pub fn smallest_positive(measures: &Vec<Scalar>) -> (result: Result<Scalar, ToleranceError>)
    ensures
        result is Ok <==> !none_positive(measures@),
        match result {
            Ok(smallest) => is_smallest_positive(measures@, smallest),
            Err(ToleranceError::NoTriangles) => measures.len() == 0,
            Err(ToleranceError::AllDegenerate) => measures.len() > 0 && none_positive(measures@),
        },
{
    if measures.len() == 0 {
        return Err(ToleranceError::NoTriangles);
    }
    let mut best: Option<Scalar> = None;
    let mut j: usize = 0;
    while j < measures.len()
        invariant
            j <= measures.len(),
            match best {
                Some(smallest) => is_smallest_positive(measures@.take(j as int), smallest),
                None => none_positive(measures@.take(j as int)),
            },
        decreases measures.len() - j,
    {
        let measure = measures[j];
        let ghost seen = measures@.take(j as int);
        let ghost next = measures@.take(j + 1);
        assert(next == seen.push(measure));
        proof {
            // Whatever was picked among the measures seen so far is still
            // among them once `measure` has joined.
            if let Some(smallest) = best {
                let i = choose|i: int| 0 <= i < seen.len() && seen[i] == smallest;
                assert(next[i] == smallest);
            }
            assert(next[j as int] == measure);
        }
        if measure.is_positive() {
            let replace = match best {
                Some(smallest) => measure.less_than(smallest),
                None => true,
            };
            if replace {
                best = Some(measure);
            }
        }
        j += 1;
    }
    assert(measures@.take(j as int) == measures@);
    match best {
        Some(smallest) => Ok(smallest),
        None => Err(ToleranceError::AllDegenerate),
    }
}

/// The contract of [`smallest_positive`] leaves no choice: two scalars that
/// both are the smallest measure above zero are the same scalar.
pub proof fn lemma_smallest_positive_unique(measures: Seq<Scalar>, a: Scalar, b: Scalar)
    requires
        is_smallest_positive(measures, a),
        is_smallest_positive(measures, b),
    ensures
        a == b,
{
    let i = choose|i: int| 0 <= i < measures.len() && measures[i] == a;
    let j = choose|j: int| 0 <= j < measures.len() && measures[j] == b;
    assert(!measures[i].lt(b));
    assert(!measures[j].lt(a));
    // Equal values above zero have equal keys, and such a key is the pattern.
    lemma_key_orders_values(a, b);
    lemma_key_orders_values(a, Scalar(0));
    lemma_key_orders_values(b, Scalar(0));
}

} // verus!
