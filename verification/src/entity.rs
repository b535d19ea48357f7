//! Identifiers for selectable entities.

use vstd::prelude::*;

verus! {

/// Opaque identifier for a selectable element of the document. Stable for a
/// session; carries a tag telling guides apart from path points.
#[derive(Clone, Copy, PartialEq, Eq, Structural, Debug)]
pub struct EntityId {
    pub num: u64,
    pub guide: bool,
}

impl EntityId {
    pub fn is_guide(&self) -> (r: bool)
        ensures
            r == self.guide,
    {
        self.guide
    }
}

} // verus!
