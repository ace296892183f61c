use vstd::prelude::*;

verus! {

/// Which debug drawings of the world's lights, sounds and effects are on.
#[derive(Debug, Clone, Copy, PartialEq, Eq, Structural)]
pub struct RswDebug {
    pub show_point_lights: bool,
    pub show_directional_light: bool,
    pub show_sounds: bool,
    pub show_effects: bool,
}

impl Default for RswDebug {
    fn default() -> (r: RswDebug)
        ensures
            !r.show_point_lights && !r.show_directional_light && !r.show_sounds
                && !r.show_effects,
    {
        RswDebug {
            show_point_lights: false,
            show_directional_light: false,
            show_sounds: false,
            show_effects: false,
        }
    }
}

impl RswDebug {
    /// Whether to draw the sounds of the world.
    pub fn sound_debug_condition(&self) -> (r: bool)
        ensures
            r == self.show_sounds,
    {
        self.show_sounds
    }

    /// Whether to draw the effects of the world.
    pub fn effect_debug_condition(&self) -> (r: bool)
        ensures
            r == self.show_effects,
    {
        self.show_effects
    }

    /// Follows the point light switch: `previous` is the switch as last
    /// seen and becomes the current one. The point light gizmos of the world
    /// are toggled when the switch moved and the one loaded world
    /// (`world_has_lights` is `None` without exactly one world) has lights.
    pub fn point_lights_changed(&self, previous: &mut bool, world_has_lights: Option<bool>) -> (toggle: bool)
        ensures
            *final(previous) == self.show_point_lights,
            toggle == (*old(previous) != self.show_point_lights && world_has_lights == Some(true)),
    {
        if *previous != self.show_point_lights {
            *previous = self.show_point_lights;
            match world_has_lights {
                Some(has_lights) => has_lights,
                None => false,
            }
        } else {
            false
        }
    }

    /// Follows the directional light switch: `previous` is the switch as
    /// last seen and becomes the current one. The directional light gizmo is
    /// toggled when the switch moved and exactly one world is loaded.
    pub fn directional_light_changed(&self, previous: &mut bool, single_world: bool) -> (toggle: bool)
        ensures
            *final(previous) == self.show_directional_light,
            toggle == (*old(previous) != self.show_directional_light && single_world),
    {
        if *previous != self.show_directional_light {
            *previous = self.show_directional_light;
            single_world
        } else {
            false
        }
    }
}

/// The gizmo toggles that a newly loaded world gets: its point lights when
/// it has lights, and its directional light always.
pub fn toggles_on_world_load(world_has_lights: Option<bool>) -> (toggles: (bool, bool))
    ensures
        toggles.0 == (world_has_lights == Some(true)),
        toggles.1,
{
    let point_lights = match world_has_lights {
        Some(has_lights) => has_lights,
        None => false,
    };
    (point_lights, true)
}

} // verus!
