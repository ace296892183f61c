use vstd::prelude::*;

verus! {

/// Number of animation frames of a water plane.
pub const WATER_PLANE_FRAMES: usize = 32;

/// The frame a water plane shows after its timer finishes: the next one,
/// back to the first after the last.
pub fn next_frame(current_frame: usize) -> (next: usize)
    requires
        current_frame < usize::MAX,
    ensures
        next == (current_frame + 1) % (WATER_PLANE_FRAMES as int),
        next < WATER_PLANE_FRAMES,
{
    let mut frame = current_frame + 1;
    frame = frame % WATER_PLANE_FRAMES;
    frame
}

/// How a water material blends with what lies behind it.
#[derive(Debug, Clone, Copy, PartialEq, Eq, Structural)]
pub enum WaterAlphaMode {
    Opaque,
    Blend,
}

/// What the render pipeline of a water material depends on.
#[derive(Debug, Clone, Copy, PartialEq, Eq, Structural)]
pub struct WaterPlaneMaterialKey {
    opaque: bool,
}

impl WaterPlaneMaterialKey {
    /// Whether the water hides what lies below it.
    pub closed spec fn is_opaque(self) -> bool {
        self.opaque
    }

    /// The key of a material that is opaque or not.
    pub fn new(opaque: bool) -> (key: Self)
        ensures
            key.is_opaque() == opaque,
    {
        WaterPlaneMaterialKey { opaque }
    }

    /// Whether the water hides what lies below it.
    pub fn opaque(&self) -> (opaque: bool)
        ensures
            opaque == self.is_opaque(),
    {
        self.opaque
    }

    /// Blending of the material: opaque water hides what lies below it,
    /// other water blends with it.
    pub fn alpha_mode(&self) -> (mode: WaterAlphaMode)
        ensures
            mode == (if self.is_opaque() {
                WaterAlphaMode::Opaque
            } else {
                WaterAlphaMode::Blend
            }),
    {
        if self.opaque {
            WaterAlphaMode::Opaque
        } else {
            WaterAlphaMode::Blend
        }
    }

    /// The shader definition that the fragment stage gets: present for
    /// opaque water only.
    pub fn fragment_shader_def(&self) -> (def: Option<&'static str>)
        ensures
            self.is_opaque() ==> (def matches Some(d) && d@ == "OPAQUE_WATER_PLANE"@),
            !self.is_opaque() ==> def is None,
    {
        if self.opaque {
            Some("OPAQUE_WATER_PLANE")
        } else {
            None
        }
    }
}

} // verus!
