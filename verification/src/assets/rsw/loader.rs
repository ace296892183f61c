use vstd::prelude::*;

use crate::assets::paths::{
    join_path, join_path3, ALTITUDE_FILES_FOLDER, GROUND_FILES_FOLDER, MODEL_FILES_FOLDER,
    WAV_FILES_FOLDER,
};

verus! {

/// Loader of world files (`.rsw`).
#[derive(Debug, Clone, Copy, PartialEq, Eq, Structural)]
pub struct AssetLoader;

/// Name of a world whose file name cannot be told.
pub const UNNAMED_RSW: &'static str = "Unnamed Rsw";

impl AssetLoader {
    /// File extensions this loader handles.
    pub fn extensions(&self) -> (r: &'static [&'static str])
        ensures
            r@.len() == 1,
            r@[0]@ == "rsw"@,
    {
        let r: &'static [&'static str] = &["rsw"];
        r
    }

    /// Name of the world entity: its file name, when it has one that reads
    /// as text.
    pub fn world_name<'a>(file_name: Option<&'a str>) -> (name: &'a str)
        ensures
            file_name matches Some(f) ==> name == f,
            file_name is None ==> name@ == UNNAMED_RSW@,
    {
        match file_name {
            Some(f) => f,
            None => UNNAMED_RSW,
        }
    }

    /// Path of the world's ground file.
    pub fn ground_path(gnd_file: &str) -> (path: String)
        ensures
            path@ == GROUND_FILES_FOLDER@ + gnd_file@,
    {
        join_path(GROUND_FILES_FOLDER, gnd_file)
    }

    /// Path of the scene that the world's altitude file makes.
    pub fn tiles_scene_path(gat_file: &str) -> (path: String)
        ensures
            path@ == ALTITUDE_FILES_FOLDER@ + gat_file@ + "#Scene"@,
    {
        join_path3(ALTITUDE_FILES_FOLDER, gat_file, "#Scene")
    }

    /// Path of the scene that a prop's model file makes.
    pub fn model_scene_path(model_file: &str) -> (path: String)
        ensures
            path@ == MODEL_FILES_FOLDER@ + model_file@ + "#Scene"@,
    {
        join_path3(MODEL_FILES_FOLDER, model_file, "#Scene")
    }

    /// Path of an environmental sound.
    pub fn sound_path(sound_file: &str) -> (path: String)
        ensures
            path@ == WAV_FILES_FOLDER@ + sound_file@,
    {
        join_path(WAV_FILES_FOLDER, sound_file)
    }
}

} // verus!
