use vstd::prelude::*;

use crate::assets::paths::{join_path, WORLD_FILES_FOLDER};

verus! {

/// Asks for a world to be loaded, by file name.
#[derive(Debug, Clone, PartialEq, Eq)]
pub struct LoadWorld {
    pub world: String,
}

impl LoadWorld {
    /// Path of the world's file.
    pub fn world_path(&self) -> (path: String)
        ensures
            path@ == WORLD_FILES_FOLDER@ + self.world@,
    {
        join_path(WORLD_FILES_FOLDER, self.world.as_str())
    }
}

/// Asks for a world to be removed.
#[derive(Debug, Clone, Copy, PartialEq, Eq, Structural)]
pub struct UnloadWorld;

/// Tells that a world and all of its props finished loading.
#[derive(Debug, Clone, Copy, PartialEq, Eq, Structural)]
pub struct WorldLoaded;

/// The worlds to remove once `loaded` finished loading: all the others, in
/// order.
pub fn worlds_to_unload(worlds: &Vec<u64>, loaded: u64) -> (others: Vec<u64>)
    ensures
        others@ == worlds@.filter(|w: u64| w != loaded),
{
    let mut others: Vec<u64> = Vec::new();
    let mut i: usize = 0;
    while i < worlds.len()
        invariant
            i <= worlds@.len(),
            others@ == worlds@.take(i as int).filter(|w: u64| w != loaded),
        decreases worlds@.len() - i,
    {
        proof {
            reveal_with_fuel(Seq::filter, 1);
            assert(worlds@.take(i + 1).drop_last() =~= worlds@.take(i as int));
        }
        if worlds[i] != loaded {
            others.push(worlds[i]);
        }
        i = i + 1;
    }
    proof {
        assert(worlds@.take(worlds@.len() as int) =~= worlds@);
    }
    others
}

} // verus!
