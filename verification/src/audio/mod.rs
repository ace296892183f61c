use vstd::prelude::*;

use crate::assets::paths::join_path;

verus! {

/// Asks for a background music track to play in a loop.
#[derive(Debug, Clone, PartialEq, Eq)]
pub struct PlayBgm {
    pub track: String,
}

impl PlayBgm {
    /// Path of the track in the background music source.
    pub fn track_path(&self) -> (path: String)
        ensures
            path@ == "bgm://"@ + self.track@,
    {
        join_path("bgm://", self.track.as_str())
    }
}

} // verus!
