use vstd::prelude::*;

use super::quad_tree::MAX_DEPTH;

verus! {

/// Which debug drawings of a world are on.
#[derive(Debug, Clone, Copy, PartialEq, Eq, Structural)]
pub struct RswDebug {
    pub show_directional_light: bool,
    pub show_point_lights: bool,
    pub show_sounds: bool,
    pub show_effects: bool,
    pub show_quad_tree: bool,
    /// Depth of the quad tree nodes to draw.
    pub show_quad_tree_level: u8,
}

impl Default for RswDebug {
    fn default() -> (r: RswDebug)
        ensures
            !r.show_directional_light && !r.show_point_lights && !r.show_sounds
                && !r.show_effects && !r.show_quad_tree && r.show_quad_tree_level == 0,
    {
        RswDebug {
            show_directional_light: false,
            show_point_lights: false,
            show_sounds: false,
            show_effects: false,
            show_quad_tree: false,
            show_quad_tree_level: 0,
        }
    }
}

impl RswDebug {
    /// Whether to draw the quad tree: when asked for, at a depth the tree
    /// has.
    pub fn show_quad_tree_condition(&self) -> (r: bool)
        ensures
            r == (self.show_quad_tree && self.show_quad_tree_level <= MAX_DEPTH),
    {
        self.show_quad_tree && (self.show_quad_tree_level as usize) <= MAX_DEPTH
    }

    /// Whether to draw the nodes of the quad tree at `depth`.
    pub fn shows_quad_tree_depth(&self, depth: usize) -> (r: bool)
        ensures
            r == (depth == self.show_quad_tree_level),
    {
        depth == self.show_quad_tree_level as usize
    }
}

} // verus!
