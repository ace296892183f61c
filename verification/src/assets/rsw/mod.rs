pub mod components;
pub mod debug;
pub mod events;
pub mod loader;
pub mod quad_tree;

pub use self::components::{DiffuseLight, EnvironmentalEffect, World};
pub use self::debug::RswDebug;
pub use self::events::{worlds_to_unload, LoadWorld, UnloadWorld, WorldLoaded};
pub use self::loader::AssetLoader;
pub use self::quad_tree::{QuadTree, QuadTreeIndex, QuadTreeIter};
