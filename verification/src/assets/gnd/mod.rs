pub mod components;
pub mod loader;

pub use self::components::Ground;
pub use self::loader::{plan_faces, AssetLoader, CubeSurfaces, FaceKind, FacePlan};
pub use crate::debug::gnd_debug::GndDebug;
