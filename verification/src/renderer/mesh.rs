//! Index data of the built-in meshes.

use vstd::prelude::*;

verus! {

/// The unit cube has eight corners: four on the front face, then four on
/// the back face.
pub const CUBE_VERTEX_COUNT: u32 = 8;

/// The cube's triangles, two per face, as indices into its eight vertices.
pub open spec fn cube_index_list() -> Seq<u32> {
    seq![
        0u32, 1, 2, 2, 3, 0,
        4, 5, 6, 6, 7, 4,
        5, 0, 3, 3, 6, 5,
        1, 4, 7, 7, 2, 1,
        3, 2, 7, 7, 6, 3,
        5, 4, 1, 1, 0, 5,
    ]
}

/// The index buffer of the unit cube: front, back, left, right, top, bottom.
pub fn cube_indices() -> (r: Vec<u32>)
    ensures
        r@ == cube_index_list(),
        r@.len() == 36,
        forall|i: int| 0 <= i < r@.len() ==> r@[i] < CUBE_VERTEX_COUNT,
{
    let r: Vec<u32> = vec![
        0, 1, 2, 2, 3, 0,
        4, 5, 6, 6, 7, 4,
        5, 0, 3, 3, 6, 5,
        1, 4, 7, 7, 2, 1,
        3, 2, 7, 7, 6, 3,
        5, 4, 1, 1, 0, 5,
    ];
    assert(r@ =~= cube_index_list());
    r
}

/// How many indices a draw of this index buffer uses, as the 32-bit count
/// Vulkan takes (the length's low 32 bits).
pub fn index_count(indices: &[u32]) -> (r: u32)
    ensures
        r == indices@.len() as u32,
        indices@.len() <= u32::MAX ==> r == indices@.len(),
{
    #[verifier::truncate]
    (indices.len() as u32)
}

} // verus!
