//! Grouping a triangulated mesh's index list into triangles.
use vstd::prelude::*;

verus! {

/// Corner `c` (0, 1 or 2) of a triangle of vertex indices.
pub open spec fn corner(t: (usize, usize, usize), c: int) -> usize {
    if c == 0 {
        t.0
    } else if c == 1 {
        t.1
    } else {
        t.2
    }
}

/// The triangles of a mesh: triangle `v` is made of the vertices at
/// positions `3v`, `3v + 1` and `3v + 2` of the index list, which holds
/// whole triangles.
pub fn triangle_vertex_indices(indices: &Vec<u32>) -> (tris: Vec<(usize, usize, usize)>)
    requires
        indices.len() % 3 == 0,
    ensures
        tris.len() == indices.len() / 3,
        forall|v: int|
            0 <= v < tris.len() ==> #[trigger] tris@[v] == (
                indices@[3 * v] as usize,
                indices@[3 * v + 1] as usize,
                indices@[3 * v + 2] as usize,
            ),
{
    let count = indices.len() / 3;
    let mut tris: Vec<(usize, usize, usize)> = Vec::new();
    let mut v: usize = 0;
    while v < count
        invariant
            count == indices.len() / 3,
            indices.len() % 3 == 0,
            v <= count,
            tris.len() == v,
            forall|w: int|
                0 <= w < v ==> #[trigger] tris@[w] == (
                    indices@[3 * w] as usize,
                    indices@[3 * w + 1] as usize,
                    indices@[3 * w + 2] as usize,
                ),
        decreases count - v,
    {
        let t = (indices[3 * v] as usize, indices[3 * v + 1] as usize, indices[3 * v + 2] as usize);
        tris.push(t);
        v = v + 1;
    }
    tris
}

/// No index is lost or moved: entry `i` of the index list is corner
/// `i % 3` of triangle `i / 3`.
pub proof fn lemma_triangles_keep_every_index(
    indices: Seq<u32>,
    tris: Seq<(usize, usize, usize)>,
    i: int,
)
    requires
        indices.len() % 3 == 0,
        tris.len() == indices.len() / 3,
        forall|v: int|
            0 <= v < tris.len() ==> #[trigger] tris[v] == (
                indices[3 * v] as usize,
                indices[3 * v + 1] as usize,
                indices[3 * v + 2] as usize,
            ),
        0 <= i < indices.len(),
    ensures
        0 <= i / 3 < tris.len(),
        corner(tris[i / 3], i % 3) == indices[i] as usize,
{
    assert(tris[i / 3] == (
        indices[3 * (i / 3)] as usize,
        indices[3 * (i / 3) + 1] as usize,
        indices[3 * (i / 3) + 2] as usize,
    ));
}

} // verus!
