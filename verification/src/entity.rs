//! What stands on a cell: the player, a robot, or the wreck of either.

use vstd::prelude::*;
use crate::position::Position;

verus! {

/// What an entity is. `Garbage` is terminal: nothing ever leaves it.
#[derive(Debug, Clone, Copy, PartialEq, Eq, Structural)]
pub enum EntityKind {
    Player,
    Robot,
    Garbage,
}

/// A kind together with the cell it stands on.
#[derive(Debug, Clone, Copy, PartialEq, Eq, Structural)]
pub struct Entity {
    pub kind: EntityKind,
    pub position: Position,
}

impl Entity {
    /// Whether the entity has not been destroyed.
    pub open spec fn is_live(self) -> bool {
        self.kind != EntityKind::Garbage
    }

    /// The same entity, destroyed where it stands.
    pub open spec fn wrecked(self) -> Entity {
        Entity { kind: EntityKind::Garbage, position: self.position }
    }

    /// The same entity standing on `position`.
    pub open spec fn moved_to(self, position: Position) -> Entity {
        Entity { kind: self.kind, position }
    }

    /// Creates an entity of the given kind at the given coordinates.
    pub fn new_at(kind: EntityKind, x: i32, y: i32) -> (e: Entity)
        ensures
            e == (Entity { kind, position: Position { x, y } }),
    {
        Entity { kind, position: Position::new(x, y) }
    }

    /// Marks the entity as destroyed garbage. Its position stays; destroying
    /// a wreck again changes nothing.
    pub fn destroy(&mut self)
        ensures
            *final(self) == old(self).wrecked(),
    {
        self.kind = EntityKind::Garbage;
    }
}

} // verus!
