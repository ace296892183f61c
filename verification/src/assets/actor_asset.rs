use vstd::prelude::*;

verus! {

/// Loader of actor files (`.act`) into raw actor assets.
#[derive(Debug, Clone, Copy, PartialEq, Eq, Structural)]
pub struct ActorAssetLoader;

impl ActorAssetLoader {
    /// File extensions this loader handles.
    pub fn extensions(&self) -> (r: &'static [&'static str])
        ensures
            r@.len() == 1,
            r@[0]@ == "act"@,
    {
        let r: &'static [&'static str] = &["act"];
        r
    }
}

} // verus!
