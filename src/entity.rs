//! Opaque handles of the entities that the engine tracks.
use vstd::prelude::*;

verus! {

/// A handle of an entity: its slot in an entity table and the generation
/// of that slot, so that a reused slot gives a different handle.
#[derive(Clone, Copy, Debug, PartialEq, Eq, Hash, Structural)]
pub struct EntityId {
    pub index: u32,
    pub generation: u32,
}

impl EntityId {
    /// The handle of slot `index` in generation `generation`.
    pub fn new(index: u32, generation: u32) -> (r: EntityId)
        ensures
            r.index == index && r.generation == generation,
    {
        EntityId { index, generation }
    }
}

} // verus!
