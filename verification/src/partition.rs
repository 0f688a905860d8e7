//! The split of a check mesh into the triangles that lie on the background
//! mesh and those that do not.

use vstd::prelude::*;

use crate::mesh::{element_in_range, element_overlaps, BackgroundMesh};

verus! {

/// The triangles of a check mesh, by their one-based ids, in two lists.
#[derive(Debug, PartialEq, Eq)]
pub struct Partition {
    /// The ids of the triangles on the background mesh, increasing.
    pub overlap: Vec<usize>,
    /// The ids of all other triangles, increasing.
    pub nooverlap: Vec<usize>,
}

/// Why a check mesh cannot be split.
#[derive(Clone, Copy, Debug, PartialEq, Eq)]
pub enum PartitionError {
    /// Triangle `element` (counted from zero) has a point that was not
    /// classified; it is the first such triangle.
    PointOutOfRange { element: usize },
}

/// The three points of a triangle, as indices into the status table.
pub open spec fn corners(triangle: [u32; 3]) -> Seq<usize> {
    seq![triangle[0] as usize, triangle[1] as usize, triangle[2] as usize]
}

/// Every point of every triangle is a point of the table.
pub open spec fn elements_in_range(status: Seq<bool>, elements: Seq<[u32; 3]>) -> bool {
    forall|e: int|
        0 <= e < elements.len() ==> element_in_range(status, corners(#[trigger] elements[e]))
}

/// For each triangle, whether it overlaps.
pub open spec fn overlap_flags(status: Seq<bool>, elements: Seq<[u32; 3]>) -> Seq<bool> {
    Seq::new(elements.len(), |e: int| element_overlaps(status, corners(elements[e])))
}

/// The one-based positions of the flags equal to `wanted`, increasing.
pub open spec fn ids_flagged(flags: Seq<bool>, wanted: bool) -> Seq<usize>
    decreases flags.len(),
{
    if flags.len() == 0 {
        Seq::empty()
    } else if flags.last() == wanted {
        ids_flagged(flags.drop_last(), wanted).push(flags.len() as usize)
    } else {
        ids_flagged(flags.drop_last(), wanted)
    }
}

/// An id is listed by [`ids_flagged`] exactly when it is the one-based position
/// of a flag equal to `wanted`. So the list of the flags that are set and the
/// list of those that are not share no id, and between them hold every id.
pub proof fn lemma_ids_flagged_contains(flags: Seq<bool>, wanted: bool, id: usize)
    requires
        flags.len() <= usize::MAX,
    ensures
        ids_flagged(flags, wanted).contains(id) <==> 1 <= id <= flags.len() && flags[id - 1]
            == wanted,
    decreases flags.len(),
{
    if flags.len() > 0 {
        let rest = ids_flagged(flags.drop_last(), wanted);
        lemma_ids_flagged_contains(flags.drop_last(), wanted, id);
        if flags.last() == wanted {
            let all = rest.push(flags.len() as usize);
            assert(all[rest.len() as int] == flags.len());
            if rest.contains(id) {
                let i = choose|i: int| 0 <= i < rest.len() && rest[i] == id;
                assert(all[i] == id);
            }
        }
    }
}

/// The two lists of a partition are as long together as the flags are many.
pub proof fn lemma_ids_flagged_total(flags: Seq<bool>)
    ensures
        ids_flagged(flags, true).len() + ids_flagged(flags, false).len() == flags.len(),
    decreases flags.len(),
{
    if flags.len() > 0 {
        lemma_ids_flagged_total(flags.drop_last());
    }
}

impl BackgroundMesh {
    /// Sorts the triangles of a check mesh, whose points were classified by the
    /// last pass, into those that overlap and those that do not. Triangle `e`
    /// of `elements` goes by the id `e + 1`. A triangle with a point beyond
    /// those classified stops the split.
    pub fn partition_elements(&self, elements: &Vec<[u32; 3]>) -> (result: Result<
        Partition,
        PartitionError,
    >)
        ensures
            result is Ok <==> elements_in_range(self.status(), elements@),
            match result {
                Ok(partition) => {
                    &&& partition.overlap@ == ids_flagged(
                        overlap_flags(self.status(), elements@),
                        true,
                    )
                    &&& partition.nooverlap@ == ids_flagged(
                        overlap_flags(self.status(), elements@),
                        false,
                    )
                    &&& partition.overlap.len() + partition.nooverlap.len() == elements.len()
                },
                Err(PartitionError::PointOutOfRange { element }) => {
                    &&& element < elements.len()
                    &&& !element_in_range(self.status(), corners(elements[element as int]))
                    &&& elements_in_range(self.status(), elements@.take(element as int))
                },
            },
    {
        let ghost flags = overlap_flags(self.status(), elements@);
        let num_points = self.num_points();
        let mut overlap: Vec<usize> = Vec::new();
        let mut nooverlap: Vec<usize> = Vec::new();
        let mut e: usize = 0;
        while e < elements.len()
            invariant
                e <= elements.len(),
                num_points == self.status().len(),
                flags == overlap_flags(self.status(), elements@),
                elements_in_range(self.status(), elements@.take(e as int)),
                overlap@ == ids_flagged(flags.take(e as int), true),
                nooverlap@ == ids_flagged(flags.take(e as int), false),
            decreases elements.len() - e,
        {
            let triangle = elements[e];
            let element: [usize; 3] = [
                triangle[0] as usize,
                triangle[1] as usize,
                triangle[2] as usize,
            ];
            assert(element@ == corners(elements@[e as int]));
            if element[0] >= num_points || element[1] >= num_points || element[2] >= num_points {
                assert(element@[0] == element[0] && element@[1] == element[1] && element@[2]
                    == element[2]);
                return Err(PartitionError::PointOutOfRange { element: e });
            }
            let on_background = self.check_element(element.as_slice());
            assert(elements@.take(e + 1) == elements@.take(e as int).push(elements@[e as int]));
            assert(flags.take(e + 1).drop_last() == flags.take(e as int));
            assert(flags.take(e + 1).last() == on_background);
            if on_background {
                overlap.push(e + 1);
            } else {
                nooverlap.push(e + 1);
            }
            e += 1;
        }
        proof {
            assert(flags.take(e as int) == flags);
            assert(elements@.take(e as int) == elements@);
            lemma_ids_flagged_total(flags);
        }
        Ok(Partition { overlap, nooverlap })
    }
}

} // verus!
