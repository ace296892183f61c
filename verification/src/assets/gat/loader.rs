use vstd::prelude::*;

verus! {

/// Loader of altitude files (`.gat`).
#[derive(Debug, Clone, Copy, PartialEq, Eq, Structural)]
pub struct AssetLoader;

impl AssetLoader {
    /// File extensions this loader handles.
    pub fn extensions(&self) -> (r: &'static [&'static str])
        ensures
            r@.len() == 1,
            r@[0]@ == "gat"@,
    {
        let r: &'static [&'static str] = &["gat"];
        r
    }
}

} // verus!
