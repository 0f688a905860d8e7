//! The background mesh and the classification of points and elements against it.

use vstd::prelude::*;

use crate::scalar::Scalar;
use crate::status::{
    bits_of, table_clear, table_get, table_len, table_limit, table_new, table_push,
    table_reserve, StatusTable,
};

verus! {

/// Why a vertex count and a triangle list do not make a mesh.
#[derive(Clone, Copy, Debug, PartialEq, Eq)]
pub enum MeshError {
    /// There are triangles but not a single vertex.
    NoVertices,
    /// A triangle names a vertex the mesh does not have; `triangle` is the
    /// first such triangle.
    IndexOutOfRange { triangle: usize },
}

/// All three corners of `triangle` are vertices of a mesh with `num_vertices`
/// vertices.
pub open spec fn triangle_in_range(triangle: [u32; 3], num_vertices: int) -> bool {
    triangle[0] < num_vertices && triangle[1] < num_vertices && triangle[2] < num_vertices
}

/// Every triangle of the list is in range.
pub open spec fn connectivity_valid(triangles: Seq<[u32; 3]>, num_vertices: int) -> bool {
    forall|t: int|
        0 <= t < triangles.len() ==> triangle_in_range(#[trigger] triangles[t], num_vertices)
}

/// The status of each point: whether its distance to the background surface is
/// strictly below the tolerance.
pub open spec fn classify(distances: Seq<Scalar>, tolerance: Scalar) -> Seq<bool> {
    Seq::new(distances.len(), |i: int| distances[i].lt(tolerance))
}

/// Every index of `element` is a point of the table.
pub open spec fn element_in_range(status: Seq<bool>, element: Seq<usize>) -> bool {
    forall|k: int| 0 <= k < element.len() ==> (#[trigger] element[k]) < status.len()
}

/// An element overlaps when every one of its points does.
pub open spec fn element_overlaps(status: Seq<bool>, element: Seq<usize>) -> bool {
    forall|k: int| 0 <= k < element.len() ==> status[(#[trigger] element[k]) as int]
}

/// The connectivity of a background mesh, checked once, and the status of the
/// points most recently classified against it. Where the vertices lie is not
/// kept here: whoever measures the distances keeps the surface.
pub struct BackgroundMesh {
    num_vertices: usize,
    triangles: Vec<[u32; 3]>,
    /// True if a point is on the background mesh.
    points_status: StatusTable,
}

impl BackgroundMesh {
    #[verifier::type_invariant]
    spec fn connectivity_holds(self) -> bool {
        connectivity_valid(self.triangles@, self.num_vertices as int)
    }

    /// The number of vertices of the mesh.
    pub closed spec fn vertex_count(self) -> int {
        self.num_vertices as int
    }

    /// The triangles of the mesh.
    pub closed spec fn triangle_list(self) -> Seq<[u32; 3]> {
        self.triangles@
    }

    /// The flags of the points of the last classification pass, in the order
    /// the points were given.
    pub closed spec fn status(self) -> Seq<bool> {
        bits_of(self.points_status)
    }

    /// `self` is what a classification pass over `distances` makes of the mesh
    /// `before`: the same mesh, with a table that holds the flags of these
    /// points and nothing of what `before` held.
    pub open spec fn is_pass_over(
        self,
        before: BackgroundMesh,
        distances: Seq<Scalar>,
        tolerance: Scalar,
    ) -> bool {
        &&& self.status() == classify(distances, tolerance)
        &&& self.vertex_count() == before.vertex_count()
        &&& self.triangle_list() == before.triangle_list()
    }

    /// Makes a background mesh of `num_vertices` vertices and the triangles
    /// `indices`, or says why they are not one. No point is classified yet.
    pub fn new(num_vertices: usize, indices: Vec<[u32; 3]>) -> (result: Result<Self, MeshError>)
        ensures
            result is Ok <==> connectivity_valid(indices@, num_vertices as int),
            match result {
                Ok(mesh) => {
                    &&& mesh.vertex_count() == num_vertices
                    &&& mesh.triangle_list() == indices@
                    &&& mesh.status() == Seq::<bool>::empty()
                },
                Err(MeshError::NoVertices) => num_vertices == 0 && indices.len() > 0,
                Err(MeshError::IndexOutOfRange { triangle }) => {
                    &&& num_vertices > 0
                    &&& triangle < indices.len()
                    &&& !triangle_in_range(indices[triangle as int], num_vertices as int)
                    &&& connectivity_valid(indices@.take(triangle as int), num_vertices as int)
                },
            },
    {
        if num_vertices == 0 && indices.len() > 0 {
            assert(!triangle_in_range(indices@[0], num_vertices as int));
            return Err(MeshError::NoVertices);
        }
        let mut t: usize = 0;
        while t < indices.len()
            invariant
                t <= indices.len(),
                indices.len() > 0 ==> num_vertices > 0,
                connectivity_valid(indices@.take(t as int), num_vertices as int),
            decreases indices.len() - t,
        {
            let triangle = indices[t];
            if triangle[0] as usize >= num_vertices || triangle[1] as usize >= num_vertices
                || triangle[2] as usize >= num_vertices {
                assert(!triangle_in_range(indices@[t as int], num_vertices as int));
                return Err(MeshError::IndexOutOfRange { triangle: t });
            }
            assert(indices@.take(t + 1) == indices@.take(t as int).push(indices@[t as int]));
            t += 1;
        }
        assert(indices@.take(t as int) == indices@);
        Ok(BackgroundMesh { num_vertices, triangles: indices, points_status: table_new() })
    }

    /// The number of vertices of the mesh.
    pub fn num_vertices(&self) -> (n: usize)
        ensures
            n == self.vertex_count(),
    {
        self.num_vertices
    }

    /// The triangles of the mesh; each of them is in range.
    pub fn triangles(&self) -> (triangles: &Vec<[u32; 3]>)
        ensures
            triangles@ == self.triangle_list(),
            connectivity_valid(triangles@, self.vertex_count()),
    {
        proof {
            use_type_invariant(self);
        }
        &self.triangles
    }

    /// The number of points of the last classification pass.
    pub fn num_points(&self) -> (n: usize)
        ensures
            n == self.status().len(),
    {
        table_len(&self.points_status)
    }

    /// The largest number of points one pass can classify.
    pub fn max_points() -> (n: usize)
        ensures
            n == table_limit(),
    {
        usize::MAX / 8
    }

    /// Classifies a batch of points from their distances to the background
    /// surface: point `i` is flagged when `distances[i]` is strictly below
    /// `tolerance`. The flags of any earlier pass are dropped.
    pub fn check_points(&mut self, distances: &Vec<Scalar>, tolerance: Scalar)
        requires
            distances.len() <= table_limit(),
        ensures
            final(self).is_pass_over(*old(self), distances@, tolerance),
            final(self).status().len() == distances.len(),
            // A point exactly at the tolerance is not within it.
            forall|i: int|
                0 <= i < distances.len() && (#[trigger] distances[i]).same_value(tolerance)
                    ==> !final(self).status()[i],
            // A point at distance zero is within every tolerance above zero.
            forall|i: int|
                0 <= i < distances.len() && (#[trigger] distances[i]).zero()
                    && tolerance.positive() ==> final(self).status()[i],
    {
        // The table is taken out of the mesh while it is refilled and put back
        // whole; an empty table stands in for it meanwhile.
        proof {
            use_type_invariant(&*self);
        }
        let mut table = table_new();
        std::mem::swap(&mut table, &mut self.points_status);
        table_clear(&mut table);
        table_reserve(&mut table, distances.len());
        let mut i: usize = 0;
        while i < distances.len()
            invariant
                i <= distances.len() <= table_limit(),
                bits_of(table) == classify(distances@.take(i as int), tolerance),
            decreases distances.len() - i,
        {
            let within = distances[i].less_than(tolerance);
            table_push(&mut table, within);
            assert(distances@.take(i + 1) == distances@.take(i as int).push(distances@[i as int]));
            i += 1;
        }
        assert(distances@.take(i as int) == distances@);
        self.points_status = table;
    }

    /// Returns true if the element is on the background mesh: if every one of
    /// its points was flagged by the last classification pass.
    pub fn check_element(&self, element: &[usize]) -> (overlaps: bool)
        requires
            element_in_range(self.status(), element@),
        ensures
            overlaps == element_overlaps(self.status(), element@),
    {
        let mut k: usize = 0;
        while k < element.len()
            invariant
                k <= element.len(),
                element_in_range(self.status(), element@),
                element_overlaps(self.status(), element@.take(k as int)),
            decreases element.len() - k,
        {
            if !table_get(&self.points_status, element[k]) {
                return false;
            }
            assert(element@.take(k + 1) == element@.take(k as int).push(element@[k as int]));
            k += 1;
        }
        assert(element@.take(k as int) == element@);
        true
    }
}

} // verus!
