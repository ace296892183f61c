use vstd::prelude::*;

use super::quad_tree::QuadTree;

verus! {

/// A loaded map: its ground, lights, props, sounds and effects hang below
/// it. It records which optional parts it has, and its quad tree.
#[derive(Debug)]
pub struct World<R> {
    pub has_lights: bool,
    pub has_sounds: bool,
    pub has_effects: bool,
    pub quad_tree: QuadTree<R>,
}

impl<R> World<R> {
    /// A world with the given numbers of lights, sounds and effects.
    pub fn new(light_count: usize, sound_count: usize, effect_count: usize, quad_tree: QuadTree<R>) -> (world: Self)
        ensures
            world.has_lights == (light_count != 0),
            world.has_sounds == (sound_count != 0),
            world.has_effects == (effect_count != 0),
            world.quad_tree == quad_tree,
    {
        World {
            has_lights: light_count != 0,
            has_sounds: sound_count != 0,
            has_effects: effect_count != 0,
            quad_tree,
        }
    }
}

/// The light of the sun that lights a world.
#[derive(Debug, Clone, Copy, PartialEq, Eq, Structural)]
pub struct DiffuseLight;

/// An effect of a world that creates particles.
#[derive(Debug, Clone, Copy, PartialEq, Eq, Structural)]
pub struct EnvironmentalEffect;

} // verus!
