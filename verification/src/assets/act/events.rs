use vstd::prelude::*;

use super::components::ActorFacing;
use crate::assets::paths::{join_path, join_path3, SPR_FILES_FOLDER};

verus! {

/// Asks for an actor to be spawned under an entity.
#[derive(Debug)]
pub struct LoadActor {
    /// Name of the actor's files, without folder or extension.
    pub actor: String,
    /// Facing to start with; south when absent.
    pub facing: Option<ActorFacing>,
}

impl LoadActor {
    /// The facing the actor starts with.
    pub fn initial_facing(&self) -> (facing: ActorFacing)
        ensures
            facing == match self.facing {
                Some(f) => f,
                None => ActorFacing::South,
            },
    {
        match self.facing {
            Some(f) => f,
            None => ActorFacing::default(),
        }
    }

    /// Name of the spawned actor entity: the actor's name with `.act`.
    pub fn entity_name(&self) -> (name: String)
        ensures
            name@ == self.actor@ + ".act"@,
    {
        join_path(self.actor.as_str(), ".act")
    }

    /// Path of the actor's animation file.
    pub fn act_path(&self) -> (path: String)
        ensures
            path@ == SPR_FILES_FOLDER@ + self.actor@ + ".act"@,
    {
        join_path3(SPR_FILES_FOLDER, self.actor.as_str(), ".act")
    }

    /// Path of the actor's sprite file.
    pub fn sprite_path(&self) -> (path: String)
        ensures
            path@ == SPR_FILES_FOLDER@ + self.actor@ + ".spr"@,
    {
        join_path3(SPR_FILES_FOLDER, self.actor.as_str(), ".spr")
    }

    /// Path of the palette stored inside the actor's sprite file.
    pub fn palette_path(&self) -> (path: String)
        ensures
            path@ == SPR_FILES_FOLDER@ + self.actor@ + ".spr#Palette"@,
    {
        join_path3(SPR_FILES_FOLDER, self.actor.as_str(), ".spr#Palette")
    }
}

/// Starts the animation of an actor whose assets finished loading.
#[derive(Debug, Clone, Copy, PartialEq, Eq, Structural)]
pub struct StartActor;

} // verus!
