use vstd::prelude::*;

verus! {

/// Loader of palette files (`.pal`) into raw palette assets.
#[derive(Debug, Clone, Copy, PartialEq, Eq, Structural)]
pub struct PaletteAssetLoader;

impl PaletteAssetLoader {
    /// File extensions this loader handles.
    pub fn extensions(&self) -> (r: &'static [&'static str])
        ensures
            r@.len() == 1,
            r@[0]@ == "pal"@,
    {
        let r: &'static [&'static str] = &["pal"];
        r
    }
}

} // verus!
