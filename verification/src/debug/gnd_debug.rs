use vstd::prelude::*;

verus! {

/// Which debug drawings of the ground mesh are on.
#[derive(Debug, Clone, Copy, PartialEq, Eq, Structural)]
pub struct GndDebug {
    pub show_edges: bool,
    pub show_normals: bool,
}

impl Default for GndDebug {
    fn default() -> (r: GndDebug)
        ensures
            !r.show_edges && !r.show_normals,
    {
        GndDebug { show_edges: false, show_normals: false }
    }
}

impl GndDebug {
    /// Whether to draw the vertex normals of the ground.
    pub fn show_gnd_vertex_normal_condition(&self) -> (r: bool)
        ensures
            r == self.show_normals,
    {
        self.show_normals
    }

    /// Whether to draw the triangle edges of the ground.
    pub fn show_gnd_edges_condition(&self) -> (r: bool)
        ensures
            r == self.show_edges,
    {
        self.show_edges
    }
}

} // verus!
