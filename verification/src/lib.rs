//! Game-independent logic behind the Ragnarok Online asset plugins: quad tree
//! navigation of world maps, ground mesh face planning, palette and sprite
//! pixel conversion, model primitive grouping, animation stepping, debug
//! switches and the asset paths that the loaders build.
pub mod assets;
pub mod audio;
pub mod debug;
