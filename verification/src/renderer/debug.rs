//! The wireframe of an axis-aligned box: which corner takes which bound,
//! and which corners the twelve edges join.

use vstd::prelude::*;

verus! {

/// Which coordinates of corner `c` take the box's maximum (x, y, z): the
/// front face (minimum z) runs min-min, max-min, max-max, min-max, and the
/// back face repeats it at maximum z.
pub open spec fn corner_spec(c: int) -> (bool, bool, bool) {
    let face = c % 4;
    (face == 1 || face == 2, face == 2 || face == 3, c >= 4)
}

/// Two corners are joined by a box edge when they differ in exactly one
/// coordinate.
pub open spec fn is_box_edge(a: int, b: int) -> bool {
    let (ax, ay, az) = corner_spec(a);
    let (bx, by, bz) = corner_spec(b);
    (if ax != bx { 1int } else { 0 }) + (if ay != by { 1int } else { 0 }) + (if az != bz {
        1int
    } else {
        0
    }) == 1
}

/// The box's edges: the front face, the back face, then the four edges
/// joining them.
pub open spec fn box_edge_list() -> Seq<(usize, usize)> {
    seq![
        (0usize, 1usize), (1, 2), (2, 3), (3, 0),
        (4, 5), (5, 6), (6, 7), (7, 4),
        (0, 4), (1, 5), (2, 6), (3, 7),
    ]
}

/// Which bounds corner `c` (of eight) takes: `true` for the maximum.
pub fn aabb_corner(c: usize) -> (r: (bool, bool, bool))
    requires
        c < 8,
    ensures
        r == corner_spec(c as int),
{
    let face = c % 4;
    (face == 1 || face == 2, face == 2 || face == 3, c >= 4)
}

/// The twelve edges of a box, as pairs of corner numbers: the front face,
/// the back face, then the four edges joining them.
pub fn aabb_edges() -> (r: Vec<(usize, usize)>)
    ensures
        r@ == box_edge_list(),
        r@.len() == 12,
        forall|i: int|
            0 <= i < 12 ==> r@[i].0 < 8 && r@[i].1 < 8 && is_box_edge(
                #[trigger] r@[i].0 as int,
                r@[i].1 as int,
            ),
        forall|i: int, j: int|
            0 <= i < j < 12 ==> !(#[trigger] r@[i] == #[trigger] r@[j] || (r@[i].0 == r@[j].1
                && r@[i].1 == r@[j].0)),
{
    let r: Vec<(usize, usize)> = vec![
        (0, 1), (1, 2), (2, 3), (3, 0),
        (4, 5), (5, 6), (6, 7), (7, 4),
        (0, 4), (1, 5), (2, 6), (3, 7),
    ];
    assert(r@ =~= box_edge_list());
    r
}

} // verus!
