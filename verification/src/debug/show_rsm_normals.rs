use vstd::prelude::*;

verus! {

/// Whether to draw the vertex normals of the models.
#[derive(Debug, Clone, Copy, PartialEq, Eq, Structural)]
pub struct ShowRsmVertexNormals(pub bool);

impl Default for ShowRsmVertexNormals {
    fn default() -> (r: ShowRsmVertexNormals)
        ensures
            !r.0,
    {
        ShowRsmVertexNormals(false)
    }
}

impl ShowRsmVertexNormals {
    /// Whether to draw the vertex normals of the models.
    pub fn show_rsm_vertex_normal_condition(&self) -> (r: bool)
        ensures
            r == self.0,
    {
        self.0
    }
}

} // verus!
