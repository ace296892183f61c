use vstd::prelude::*;

verus! {

/// Whether to outline the hovered tile.
#[derive(Debug, Clone, Copy, PartialEq, Eq, Structural)]
pub struct GatDebug {
    pub show_hovered: bool,
}

impl Default for GatDebug {
    fn default() -> (r: GatDebug)
        ensures
            !r.show_hovered,
    {
        GatDebug { show_hovered: false }
    }
}

impl GatDebug {
    /// Whether to outline the hovered tile: when asked for and a tile is
    /// hovered.
    pub fn show_hovered_condition(&self, tile_hovered: bool) -> (r: bool)
        ensures
            r == (self.show_hovered && tile_hovered),
    {
        self.show_hovered && tile_hovered
    }
}

} // verus!
