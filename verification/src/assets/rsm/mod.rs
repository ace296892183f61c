pub mod face_maps;
pub mod loader;

pub use self::loader::{
    child_mesh_indexes, root_mesh_indexes, smooth_mesh_indices, split_mesh_into_primitives,
    texture_format, texture_path, AssetLoader, FaceKey, LoadedTextureFormat, Primitive,
    SmoothMeshIndices, VertexUv,
};

use vstd::prelude::*;

verus! {

/// What a prop does with its model's animation once the world is loaded.
#[derive(Debug, Clone, Copy, PartialEq, Eq, Structural)]
pub enum PropAnimation {
    /// Leave the model still.
    Still,
    /// Play the animation once.
    PlayOnce,
    /// Play the animation in a loop.
    Repeat,
}

/// The animation a prop plays: none in mode 0 or when the model has no
/// animation, in a loop in mode 2, else once.
pub fn prop_animation(mode: i32, has_animation: bool) -> (r: PropAnimation)
    ensures
        (mode == 0 || !has_animation) ==> r == PropAnimation::Still,
        (mode != 0 && has_animation && mode == 2) ==> r == PropAnimation::Repeat,
        (mode != 0 && has_animation && mode != 2) ==> r == PropAnimation::PlayOnce,
{
    if mode == 0 || !has_animation {
        PropAnimation::Still
    } else if mode == 2 {
        PropAnimation::Repeat
    } else {
        PropAnimation::PlayOnce
    }
}

} // verus!
