use vstd::prelude::*;

verus! {

/// The tile under the cursor, if any.
#[derive(Debug, Clone, Copy, PartialEq, Eq)]
pub struct HoveredTile<T>(pub Option<T>);

impl<T> HoveredTile<T> {
    /// No tile is hovered.
    pub fn none() -> (r: Self)
        ensures
            r.0 is None,
    {
        HoveredTile(None)
    }

    /// Forgets the hovered tile, once the cursor no longer casts rays.
    pub fn clear(&mut self)
        ensures
            final(self).0 is None,
    {
        self.0 = None;
    }

    /// Whether a tile is hovered.
    pub fn is_some(&self) -> (r: bool)
        ensures
            r == self.0 is Some,
    {
        self.0.is_some()
    }
}

} // verus!
