//! Entities: the units the simulation engine steps, each wrapping the data of
//! one person.
use vstd::prelude::*;

verus! {

/// Identifier of an entity.
pub type EntityId = usize;

/// An entity of the simulation: an identifier, the person it stands for, and
/// whether it still takes part.
#[derive(Debug, Clone)]
pub struct Entity<P> {
    pub id: EntityId,
    pub person_data: P,
    pub active: bool,
}

impl<P> Entity<P> {
    /// A new, active entity for the given person.
    pub fn new(id: EntityId, person_data: P) -> (e: Self)
        ensures
            e.id == id,
            e.person_data == person_data,
            e.active,
    {
        Entity { id, person_data, active: true }
    }
}

} // verus!
