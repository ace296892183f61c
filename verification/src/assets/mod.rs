pub mod act;
pub mod actor_asset;
pub mod gat;
pub mod gnd;
pub mod grf;
pub mod pal;
pub mod palette_asset;
pub mod paths;
pub mod rsm;
pub mod rsw;
pub mod spr;
pub mod water_plane;
