//! Triangle connectivity as mesh files store it: one flat run of vertex ids,
//! three per triangle, counted from one.

use vstd::prelude::*;

verus! {

/// The largest id a flat run may hold: the id of vertex `u32::MAX`.
pub const MAX_VERTEX_ID: i64 = 0x1_0000_0000;

/// Why a flat run of vertex ids is not a list of triangles.
#[derive(Clone, Copy, Debug, PartialEq, Eq)]
pub enum CellError {
    /// The run does not end on a whole triangle.
    Incomplete,
    /// The entry at `position` is no vertex id; it is the first such entry.
    BadVertex { position: usize },
}

/// `id` names a vertex: ids count from one, and the vertex index has 32 bits.
pub open spec fn is_vertex_id(id: i64) -> bool {
    1 <= id <= MAX_VERTEX_ID
}

/// Every entry of the run names a vertex.
pub open spec fn all_vertex_ids(cells: Seq<i64>) -> bool {
    forall|p: int| 0 <= p < cells.len() ==> is_vertex_id(#[trigger] cells[p])
}

/// Triangle `t` is made of the three entries from `3 * t` on, each taken down
/// by one.
pub open spec fn triangle_matches(triangle: [u32; 3], cells: Seq<i64>, t: int) -> bool {
    &&& triangle[0] == cells[3 * t] - 1
    &&& triangle[1] == cells[3 * t + 1] - 1
    &&& triangle[2] == cells[3 * t + 2] - 1
}

/// `triangles` is the run `cells`, cut into triangles and counted from zero.
pub open spec fn triangles_match(triangles: Seq<[u32; 3]>, cells: Seq<i64>) -> bool {
    &&& cells.len() == 3 * triangles.len()
    &&& forall|t: int|
        0 <= t < triangles.len() ==> triangle_matches(#[trigger] triangles[t], cells, t)
}

/// Cuts a flat run of one-based vertex ids into triangles of zero-based vertex
/// indices, or says what is wrong with the run.
pub fn triangles_from_cells(cells: &Vec<i64>) -> (result: Result<Vec<[u32; 3]>, CellError>)
    ensures
        result is Ok <==> cells.len() % 3 == 0 && all_vertex_ids(cells@),
        match result {
            Ok(triangles) => triangles_match(triangles@, cells@),
            Err(CellError::Incomplete) => cells.len() % 3 != 0,
            Err(CellError::BadVertex { position }) => {
                &&& cells.len() % 3 == 0
                &&& position < cells.len()
                &&& !is_vertex_id(cells[position as int])
                &&& all_vertex_ids(cells@.take(position as int))
            },
        },
{
    if cells.len() % 3 != 0 {
        return Err(CellError::Incomplete);
    }
    let count: usize = cells.len() / 3;
    let mut triangles: Vec<[u32; 3]> = Vec::with_capacity(count);
    let mut t: usize = 0;
    while t < count
        invariant
            t <= count,
            cells.len() == 3 * count,
            all_vertex_ids(cells@.take(3 * t)),
            triangles_match(triangles@, cells@.take(3 * t)),
        decreases count - t,
    {
        let base: usize = 3 * t;
        let ghost seen = cells@.take(base as int);
        let mut k: usize = 0;
        while k < 3
            invariant
                k <= 3,
                base == 3 * t,
                base + 3 <= cells.len(),
                cells.len() == 3 * count,
                all_vertex_ids(cells@.take(base + k)),
            decreases 3 - k,
        {
            let id = cells[base + k];
            if id < 1 || id > MAX_VERTEX_ID {
                assert(!is_vertex_id(cells@[base + k]));
                return Err(CellError::BadVertex { position: base + k });
            }
            assert(cells@.take(base + k + 1) == cells@.take(base + k).push(id));
            k += 1;
        }
        let ghost next = cells@.take(base + 3);
        assert(is_vertex_id(next[base as int]) && is_vertex_id(next[base + 1]) && is_vertex_id(
            next[base + 2],
        ));
        let triangle: [u32; 3] = [
            (cells[base] - 1) as u32,
            (cells[base + 1] - 1) as u32,
            (cells[base + 2] - 1) as u32,
        ];
        proof {
            assert(triangle_matches(triangle, next, t as int));
            assert forall|u: int| 0 <= u < t implies triangle_matches(
                #[trigger] triangles@[u],
                next,
                u,
            ) by {
                assert(triangle_matches(triangles@[u], seen, u));
            }
        }
        triangles.push(triangle);
        t += 1;
    }
    assert(cells@.take(3 * t) == cells@);
    Ok(triangles)
}

} // verus!
