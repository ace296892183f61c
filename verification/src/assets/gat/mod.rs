pub mod components;
pub mod debug;
pub mod loader;
pub mod resources;

pub use self::components::{TileRef, Tiles};
pub use self::debug::GatDebug;
pub use self::loader::AssetLoader;
pub use self::resources::HoveredTile;
