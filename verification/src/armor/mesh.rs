//! The triangles of a mesh.
use vstd::prelude::*;

verus! {

/// The points that a list of indices picks, those out of range left out.
pub open spec fn picked<T>(positions: Seq<T>, indices: Seq<u32>) -> Seq<T>
    decreases indices.len(),
{
    if indices.len() == 0 {
        Seq::empty()
    } else {
        let before = picked(positions, indices.drop_last());
        if indices.last() < positions.len() {
            before.push(positions[indices.last() as int])
        } else {
            before
        }
    }
}

/// The points in the order in which a mesh draws them.
pub open spec fn drawn<T>(positions: Seq<T>, indices: Option<Seq<u32>>) -> Seq<T> {
    match indices {
        Some(indices) => picked(positions, indices),
        None => positions,
    }
}

/// All points of a mesh, if it has any.
pub fn extract_vertices<T>(positions: Option<Vec<T>>) -> (r: Option<Vec<T>>)
    ensures
        match positions {
            Some(points) => if points@.len() > 0 {
                r == Some(points)
            } else {
                r is None
            },
            None => r is None,
        },
{
    match positions {
        Some(points) => {
            if points.len() == 0 {
                None
            } else {
                Some(points)
            }
        },
        None => None,
    }
}

/// The corners of the triangles of a mesh, three by three. A mesh that is no list of triangles, or
/// has no whole triangle, has none; points that do not make up a whole triangle are left out.
pub fn extract_triangle_vertices<T: Copy>(
    triangle_list: bool,
    positions: Option<Vec<T>>,
    indices: Option<Vec<u32>>,
) -> (r: Option<Vec<T>>)
    ensures
        ({
            let points = drawn(
                positions->0@,
                match indices {
                    Some(indices) => Some(indices@),
                    None => None,
                },
            );
            let whole = points.len() - points.len() % 3;
            if triangle_list && positions is Some && positions->0@.len() > 0 && whole > 0 {
                r is Some && r->0@ == points.take(whole as int)
            } else {
                r is None
            }
        }),
{
    if !triangle_list {
        return None;
    }
    let points: Vec<T> = match extract_vertices(positions) {
        Some(points) => points,
        None => return None,
    };
    let mut triangles: Vec<T> = Vec::new();
    match &indices {
        Some(list) => {
            let mut i: usize = 0;
            proof {
                assert(list@.take(0) =~= Seq::empty());
            }
            while i < list.len()
                invariant
                    i <= list@.len(),
                    triangles@ == picked(points@, list@.take(i as int)),
                decreases list@.len() - i,
            {
                proof {
                    assert(list@.take(i + 1).drop_last() =~= list@.take(i as int));
                }
                let index: u32 = list[i];
                if (index as u64) < points.len() as u64 {
                    triangles.push(points[index as usize]);
                }
                i = i + 1;
            }
            proof {
                assert(list@.take(i as int) =~= list@);
            }
        },
        None => {
            let mut i: usize = 0;
            while i < points.len()
                invariant
                    i <= points@.len(),
                    triangles@ =~= points@.take(i as int),
                decreases points@.len() - i,
            {
                triangles.push(points[i]);
                i = i + 1;
            }
            proof {
                assert(points@.take(i as int) =~= points@);
            }
        },
    }
    let trailing: usize = triangles.len() % 3;
    if trailing != 0 {
        triangles.truncate(triangles.len() - trailing);
    } else {
        proof {
            assert(triangles@.take(triangles@.len() as int) =~= triangles@);
        }
    }
    if triangles.len() == 0 {
        None
    } else {
        Some(triangles)
    }
}

/// Points without an index out of range come out in the order of the indices, one for each.
pub proof fn law_valid_indices_pick_every_point<T>(positions: Seq<T>, indices: Seq<u32>)
    requires
        forall|i: int| 0 <= i < indices.len() ==> #[trigger] indices[i] < positions.len(),
    ensures
        picked(positions, indices) == indices.map_values(|i: u32| positions[i as int]),
    decreases indices.len(),
{
    if indices.len() > 0 {
        let rest = indices.drop_last();
        assert forall|i: int| 0 <= i < rest.len() implies #[trigger] rest[i] < positions.len() by {
            assert(rest[i] == indices[i]);
        }
        law_valid_indices_pick_every_point(positions, rest);
        assert(indices[indices.len() - 1] < positions.len());
    }
    assert(picked(positions, indices) =~= indices.map_values(|i: u32| positions[i as int]));
}

/// Whatever the indices are, those in range pick their points, in their order, and the others pick
/// none; a mesh without indices draws its points as they are.
pub proof fn law_indices_in_range_pick_their_points<T>(positions: Seq<T>, indices: Seq<u32>)
    ensures
        drawn(positions, Some(indices)) == indices.filter(
            |i: u32| i < positions.len(),
        ).map_values(|i: u32| positions[i as int]),
        drawn(positions, None) == positions,
    decreases indices.len(),
{
    reveal(Seq::filter);
    let kept = indices.filter(|i: u32| i < positions.len());
    if indices.len() > 0 {
        law_indices_in_range_pick_their_points(positions, indices.drop_last());
    }
    assert(drawn(positions, Some(indices)) =~= kept.map_values(|i: u32| positions[i as int]));
}

} // verus!
