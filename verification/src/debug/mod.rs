pub mod gnd_debug;
pub mod rsm_debug;
pub mod rsw_debug;
pub mod show_rsm_normals;

pub use self::gnd_debug::GndDebug;
pub use self::rsm_debug::RsmDebug;
pub use self::rsw_debug::RswDebug;
pub use self::show_rsm_normals::ShowRsmVertexNormals;

use vstd::prelude::*;

verus! {

/// Edges `3 * t` to `3 * t + 2` are those of triangle `t`: first to second
/// corner, first to third, second to third.
pub open spec fn triangle_edges_at(edges: Seq<(usize, usize)>, corners: Seq<usize>, t: int) -> bool {
    &&& edges[3 * t] == (corners[3 * t], corners[3 * t + 1])
    &&& edges[3 * t + 1] == (corners[3 * t], corners[3 * t + 2])
    &&& edges[3 * t + 2] == (corners[3 * t + 1], corners[3 * t + 2])
}

/// The edges to draw for a triangle list given by its corners, three per
/// triangle: first to second, first to third, second to third.
pub fn triangle_edges(corners: &Vec<usize>) -> (edges: Vec<(usize, usize)>)
    requires
        corners@.len() % 3 == 0,
    ensures
        edges@.len() == corners@.len(),
        forall|t: int|
            0 <= t && 3 * t < corners@.len() ==> #[trigger] triangle_edges_at(edges@, corners@, t),
{
    let mut edges: Vec<(usize, usize)> = Vec::new();
    let mut i: usize = 0;
    while i < corners.len()
        invariant
            corners@.len() % 3 == 0,
            i % 3 == 0,
            i <= corners@.len(),
            edges@.len() == i,
            forall|t: int|
                0 <= t && 3 * t < i ==> #[trigger] triangle_edges_at(edges@, corners@, t),
        decreases corners@.len() - i,
    {
        let a = corners[i];
        let b = corners[i + 1];
        let c = corners[i + 2];
        let ghost before = edges@;
        edges.push((a, b));
        edges.push((a, c));
        edges.push((b, c));
        let ghost old_i = i as int;
        i = i + 3;
        proof {
            assert forall|t: int| 0 <= t && 3 * t < i implies #[trigger] triangle_edges_at(edges@, corners@, t) by {
                if 3 * t < old_i {
                    assert(triangle_edges_at(before, corners@, t));
                    assert(3 * t + 2 < old_i);
                    assert(edges@[3 * t] == before[3 * t]);
                    assert(edges@[3 * t + 1] == before[3 * t + 1]);
                    assert(edges@[3 * t + 2] == before[3 * t + 2]);
                } else {
                    assert(3 * t == old_i);
                }
            }
        }
    }
    edges
}

} // verus!
