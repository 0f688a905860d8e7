//! What holds between a classification pass and the elements read from it.
//!
//! Each statement speaks of meshes as [`BackgroundMesh::check_points`] leaves
//! them: `after.is_pass_over(before, distances, tolerance)` is what that
//! function promises of the mesh `after` it, given the mesh `before` it.

use vstd::prelude::*;

use crate::mesh::{element_overlaps, BackgroundMesh};
use crate::scalar::Scalar;

verus! {

/// The `distances` picked out by `order`, in that order.
pub open spec fn reordered(distances: Seq<Scalar>, order: Seq<int>) -> Seq<Scalar> {
    Seq::new(order.len(), |i: int| distances[order[i]])
}

/// An element whose points all lie on the background surface overlaps, under
/// every tolerance above zero.
pub proof fn lemma_element_on_surface_overlaps(
    before: BackgroundMesh,
    after: BackgroundMesh,
    distances: Seq<Scalar>,
    tolerance: Scalar,
    element: Seq<usize>,
)
    requires
        after.is_pass_over(before, distances, tolerance),
        tolerance.positive(),
        forall|k: int|
            0 <= k < element.len() ==> (#[trigger] element[k]) < distances.len()
                && distances[element[k] as int].zero(),
    ensures
        element_overlaps(after.status(), element),
{
}

/// An element with a point farther from the background surface than the
/// tolerance does not overlap, wherever its other points lie.
pub proof fn lemma_far_point_excludes_element(
    before: BackgroundMesh,
    after: BackgroundMesh,
    distances: Seq<Scalar>,
    tolerance: Scalar,
    element: Seq<usize>,
    k: int,
)
    requires
        after.is_pass_over(before, distances, tolerance),
        0 <= k < element.len(),
        element[k] < distances.len(),
        tolerance.lt(distances[element[k] as int]),
    ensures
        !element_overlaps(after.status(), element),
{
    assert(!after.status()[element[k] as int]);
}

/// Whether an element overlaps does not depend on the order of its points,
/// nor on a point being named more than once.
pub proof fn lemma_element_order_is_irrelevant(
    status: Seq<bool>,
    element: Seq<usize>,
    other: Seq<usize>,
)
    requires
        element.to_set() == other.to_set(),
    ensures
        element_overlaps(status, element) == element_overlaps(status, other),
{
    assert forall|a: Seq<usize>, b: Seq<usize>|
        a.to_set() == b.to_set() && element_overlaps(status, a) implies element_overlaps(
        status,
        b,
    ) by {
        assert forall|k: int| 0 <= k < b.len() implies status[(#[trigger] b[k]) as int] by {
            assert(b.to_set().contains(b[k]));
            assert(a.contains(b[k]));
            let j = choose|j: int| 0 <= j < a.len() && a[j] == b[k];
            assert(status[a[j] as int]);
        }
    }
}

/// A pass repeated over the same distances with the same tolerance changes
/// nothing: the table it leaves is the table it found.
pub proof fn lemma_check_points_is_idempotent(
    before: BackgroundMesh,
    once: BackgroundMesh,
    twice: BackgroundMesh,
    distances: Seq<Scalar>,
    tolerance: Scalar,
)
    requires
        once.is_pass_over(before, distances, tolerance),
        twice.is_pass_over(once, distances, tolerance),
    ensures
        twice.status() == once.status(),
        twice.vertex_count() == once.vertex_count(),
        twice.triangle_list() == once.triangle_list(),
{
}

/// A pass takes nothing from the table it finds: two passes over the same
/// distances leave the same table, whatever the two meshes held before.
pub proof fn lemma_check_points_forgets_the_past(
    before: BackgroundMesh,
    after: BackgroundMesh,
    other_before: BackgroundMesh,
    other_after: BackgroundMesh,
    distances: Seq<Scalar>,
    tolerance: Scalar,
)
    requires
        after.is_pass_over(before, distances, tolerance),
        other_after.is_pass_over(other_before, distances, tolerance),
    ensures
        after.status() == other_after.status(),
{
}

/// The flag of a point is decided by its own distance and the tolerance, and
/// by nothing else in the batch.
pub proof fn lemma_flag_depends_on_its_point_alone(
    before: BackgroundMesh,
    after: BackgroundMesh,
    distances: Seq<Scalar>,
    tolerance: Scalar,
    i: int,
)
    requires
        after.is_pass_over(before, distances, tolerance),
        0 <= i < distances.len(),
    ensures
        after.status().len() == distances.len(),
        after.status()[i] == distances[i].lt(tolerance),
{
}

/// Giving the points in another order gives their flags in that order;
/// `order[i]` is the place that point `i` of the new batch had in the old one.
pub proof fn lemma_flags_follow_the_order_of_points(
    before: BackgroundMesh,
    after: BackgroundMesh,
    other_before: BackgroundMesh,
    other_after: BackgroundMesh,
    distances: Seq<Scalar>,
    tolerance: Scalar,
    order: Seq<int>,
)
    requires
        forall|i: int| 0 <= i < order.len() ==> 0 <= #[trigger] order[i] < distances.len(),
        after.is_pass_over(before, distances, tolerance),
        other_after.is_pass_over(other_before, reordered(distances, order), tolerance),
    ensures
        other_after.status() == Seq::new(order.len(), |i: int| after.status()[order[i]]),
{
}

} // verus!
