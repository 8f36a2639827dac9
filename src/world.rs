//! The part of the host simulation that the state machine reads and changes: entities, the
//! components they carry, and their completion markers.
use crate::trigger::Done;
use vstd::prelude::*;

verus! {

/// An addressable object of the host simulation.
#[derive(Debug, Clone, Copy, PartialEq, Eq, Structural)]
pub struct Entity {
    /// Position of the entity in the world's entity table.
    pub index: usize,
}

/// What one entity carries: the ids of its components and its completion marker, if any.
pub struct EntityData {
    pub components: Vec<u64>,
    pub done: Option<Done>,
}

/// The entities of the host simulation.
pub struct World {
    pub entities: Vec<EntityData>,
}

impl World {
    /// Whether `entity` names an entity of this world.
    pub open spec fn contains(&self, entity: Entity) -> bool {
        entity.index < self.entities@.len()
    }

    /// The completion marker that `entity` carries; an entity that does not exist carries none.
    pub open spec fn done_of(&self, entity: Entity) -> Option<Done> {
        if self.contains(entity) {
            self.entities@[entity.index as int].done
        } else {
            None
        }
    }

    /// The component ids that `entity` carries; an entity that does not exist carries none.
    pub open spec fn components_of(&self, entity: Entity) -> Seq<u64> {
        if self.contains(entity) {
            self.entities@[entity.index as int].components@
        } else {
            Seq::empty()
        }
    }

    /// Reads the completion marker of `entity`.
    pub fn get_done(&self, entity: Entity) -> (r: Option<Done>)
        ensures
            r == self.done_of(entity),
    {
        if entity.index < self.entities.len() {
            self.entities[entity.index].done
        } else {
            None
        }
    }
}

} // verus!
