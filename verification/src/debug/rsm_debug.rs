use vstd::prelude::*;

verus! {

/// Which debug drawings of the models are on.
#[derive(Debug, Clone, Copy, PartialEq, Eq, Structural)]
pub struct RsmDebug {
    pub show_edges: bool,
    pub show_normals: bool,
}

impl Default for RsmDebug {
    fn default() -> (r: RsmDebug)
        ensures
            !r.show_edges && !r.show_normals,
    {
        RsmDebug { show_edges: false, show_normals: false }
    }
}

impl RsmDebug {
    /// Whether to draw the vertex normals of the models.
    pub fn show_rsm_vertex_normal_condition(&self) -> (r: bool)
        ensures
            r == self.show_normals,
    {
        self.show_normals
    }

    /// Whether to draw the triangle edges of the models.
    pub fn show_rsm_edges_condition(&self) -> (r: bool)
        ensures
            r == self.show_edges,
    {
        self.show_edges
    }
}

} // verus!
