//! The mathematical model of a field: a sequence of entities and a map from
//! cells to slots, with every operation of the game as a function on the two.
//!
//! A slot is an entity's place in the sequence. Entities are only ever
//! appended or changed in place, so a slot names the same entity for good,
//! and the index may store slots.

use vstd::prelude::*;
use crate::entity::Entity;
use crate::entity::EntityKind;
use crate::position::bounded_step;
use crate::position::Position;
use crate::position::FIELD_HEIGHT;
use crate::position::FIELD_WIDTH;
use crate::spatial_index::rebuilt_index;

verus! {

/// Which kinds a slot may hold: slot 0 the player or its wreck, every other
/// slot a robot or its wreck.
pub open spec fn slot_admits(slot: int, kind: EntityKind) -> bool {
    match kind {
        EntityKind::Player => slot == 0,
        EntityKind::Robot => slot > 0,
        EntityKind::Garbage => true,
    }
}

/// Whether some entity other than the one in slot `i` stands on the cell of
/// slot `i`.
pub open spec fn crowded(entities: Seq<Entity>, i: int) -> bool {
    exists|j: int|
        0 <= j < entities.len() && j != i && (#[trigger] entities[j]).position
            == entities[i].position
}

/// Entities and index of a field.
#[verifier::ext_equal]
pub struct FieldState {
    /// The entities by slot. Slot 0, once filled, is the player.
    pub entities: Seq<Entity>,
    /// The slot recorded for each cell that has an entry.
    pub index: Map<Position, usize>,
}

impl FieldState {
    /// The field without entities.
    pub open spec fn empty() -> FieldState {
        FieldState { entities: Seq::empty(), index: Map::empty() }
    }

    /// Validity of a field: every entity stands on the field, the player
    /// kind occurs in slot 0 only and the robot kind in the other slots
    /// only, and every index entry names an existing slot.
    pub open spec fn wf(self) -> bool {
        &&& self.entities.len() <= usize::MAX
        &&& forall|i: int|
            0 <= i < self.entities.len() ==> (#[trigger] self.entities[i]).position.in_field()
        &&& forall|i: int|
            0 <= i < self.entities.len() ==> slot_admits(i, (#[trigger] self.entities[i]).kind)
        &&& forall|p: Position| #[trigger]
            self.index.contains_key(p) ==> self.index[p] < self.entities.len()
    }

    /// The slot recorded for cell `p`, if any.
    pub open spec fn occupant(self, p: Position) -> Option<usize> {
        if self.index.contains_key(p) {
            Some(self.index[p])
        } else {
            None
        }
    }

    /// Whether some cell of the field has no index entry.
    pub open spec fn has_free_cell(self) -> bool {
        exists|p: Position| p.in_field() && !self.index.contains_key(p)
    }

    /// Whether `p` is the first cell of the field without an index entry,
    /// going through the rows from the top and through each row from the
    /// left.
    pub open spec fn first_free_cell_is(self, p: Position) -> bool {
        &&& p.in_field()
        &&& !self.index.contains_key(p)
        &&& forall|q: Position|
            q.in_field() && (q.y < p.y || (q.y == p.y && q.x < p.x))
                ==> #[trigger] self.index.contains_key(q)
    }

    /// What is shown for cell `p`: the kind of the entity that the index
    /// records there, or the mark of an empty cell.
    pub open spec fn glyph(self, p: Position) -> char {
        match self.occupant(p) {
            Some(slot) => match self.entities[slot as int].kind {
                EntityKind::Player => '@',
                EntityKind::Robot => '$',
                EntityKind::Garbage => '#',
            },
            None => '.',
        }
    }

    /// The field with `e` in a new last slot and that slot recorded for the
    /// cell of `e`, whatever the cell's entry was before.
    pub open spec fn append(self, e: Entity) -> FieldState {
        FieldState {
            entities: self.entities.push(e),
            index: self.index.insert(e.position, self.entities.len() as usize),
        }
    }

    /// The field with the entity in slot `i` destroyed.
    pub open spec fn wreck(self, i: int) -> FieldState {
        FieldState {
            entities: self.entities.update(i, self.entities[i].wrecked()),
            index: self.index,
        }
    }

    /// Collision resolution for slot `i`: where the index records another
    /// slot for the cell of `i`, both entities are destroyed. The index is
    /// only read.
    pub open spec fn check_collision(self, i: int) -> FieldState {
        match self.occupant(self.entities[i].position) {
            Some(other) => if other != i {
                self.wreck(i).wreck(other as int)
            } else {
                self
            },
            None => self,
        }
    }

    /// The field with the entity of slot 0 put on cell `p`; nothing else
    /// changes, the index included.
    pub open spec fn with_player_at(self, p: Position) -> FieldState {
        FieldState {
            entities: self.entities.update(0, self.entities[0].moved_to(p)),
            index: self.index,
        }
    }

    /// The cell that a player move by `(dx, dy)` ends on: on each axis the
    /// move is taken whole or, where it would leave the field, not at all.
    pub open spec fn player_target(self, dx: int, dy: int) -> Position {
        let at = self.entities[0].position;
        Position {
            x: (at.x + bounded_step(at.x as int, dx, FIELD_WIDTH as int)) as i32,
            y: (at.y + bounded_step(at.y as int, dy, FIELD_HEIGHT as int)) as i32,
        }
    }

    /// The field without the player's own entry: the entry of the cell of
    /// slot 0 is dropped where it names slot 0. An entry of that cell that
    /// names another slot stays, and so does every other entry.
    pub open spec fn without_player_entry(self) -> FieldState {
        if self.occupant(self.entities[0].position) == Some(0usize) {
            FieldState {
                entities: self.entities,
                index: self.index.remove(self.entities[0].position),
            }
        } else {
            self
        }
    }

    /// The player taken from its cell and put on cell `p`: the player's own
    /// entry is dropped, the player is put on `p`, the collision of slot 0
    /// is resolved against the entries that remain, and only then is slot 0
    /// recorded for `p`, whatever `p` had for an entry.
    pub open spec fn with_player_moved_to(self, p: Position) -> FieldState {
        let resolved = self.without_player_entry().with_player_at(p).check_collision(0);
        FieldState { entities: resolved.entities, index: resolved.index.insert(p, 0) }
    }

    /// A player move by `(dx, dy)`. A move that ends where it began changes
    /// nothing, the index included, and resolves no collision. Any other
    /// takes the player to its target as
    /// [`FieldState::with_player_moved_to`] says, so that the index follows
    /// the player.
    pub open spec fn move_player(self, dx: int, dy: int) -> FieldState {
        let target = self.player_target(dx, dy);
        if target == self.entities[0].position {
            self
        } else {
            self.with_player_moved_to(target)
        }
    }

    /// The field after the player moves of `moves`, taken in order.
    pub open spec fn after_moves(self, moves: Seq<(int, int)>) -> FieldState
        decreases moves.len(),
    {
        if moves.len() == 0 {
            self
        } else {
            self.after_moves(moves.drop_last()).move_player(moves.last().0, moves.last().1)
        }
    }

    /// A teleport of the player to cell `p`, which may be any cell, the
    /// player's own and a taken one included: the player is taken there as
    /// [`FieldState::with_player_moved_to`] says.
    pub open spec fn teleport_to(self, p: Position) -> FieldState {
        self.with_player_moved_to(p)
    }

    /// The entities after the pursuit step of a tick: every robot has taken
    /// one step toward the cell on which slot 0 stood before any of them
    /// moved. The player and the wrecks stay.
    pub open spec fn pursued(self) -> Seq<Entity> {
        Seq::new(
            self.entities.len(),
            |i: int|
                if self.entities[i].kind == EntityKind::Robot {
                    self.entities[i].moved_to(
                        self.entities[i].position.step_toward(self.entities[0].position),
                    )
                } else {
                    self.entities[i]
                },
        )
    }

    /// The field in the middle of a tick: the robots have taken their step
    /// and the index has been rebuilt from what is live, but no collision
    /// has been resolved yet.
    pub open spec fn regrouped(self) -> FieldState {
        FieldState { entities: self.pursued(), index: rebuilt_index(self.pursued()) }
    }

    /// The field after the collisions of the slots below `n` have been
    /// resolved, in ascending order.
    pub open spec fn resolved_below(self, n: nat) -> FieldState
        decreases n,
    {
        if n == 0 {
            self
        } else {
            self.resolved_below((n - 1) as nat).check_collision(n - 1)
        }
    }

    /// A whole tick. The robots step toward the player; the index is rebuilt
    /// from what is live after the step; then every entity that shares its
    /// cell with another one is destroyed, and no other.
    pub open spec fn tick(self) -> FieldState {
        let moved = self.pursued();
        FieldState {
            entities: Seq::new(
                moved.len(),
                |i: int|
                    if crowded(moved, i) {
                        moved[i].wrecked()
                    } else {
                        moved[i]
                    },
            ),
            index: rebuilt_index(moved),
        }
    }

    /// A field as it is first laid out: every entity is live, no two stand
    /// on one cell, and the index holds each entity under its cell and
    /// nothing else.
    pub open spec fn fresh(self) -> bool {
        &&& forall|i: int| 0 <= i < self.entities.len() ==> (#[trigger] self.entities[i]).is_live()
        &&& forall|i: int, j: int|
            0 <= i < j < self.entities.len() ==> (#[trigger] self.entities[i]).position != (
            #[trigger] self.entities[j]).position
        &&& self.index == rebuilt_index(self.entities)
    }

    /// Every live entity is recorded under the cell on which it stands. It
    /// follows that no two live entities share a cell. A fresh field has
    /// this, a tick brings it about, and the moves of the player keep it.
    pub open spec fn live_indexed(self) -> bool {
        forall|i: int|
            0 <= i < self.entities.len() && (#[trigger] self.entities[i]).is_live()
                ==> self.index.contains_key(self.entities[i].position)
                && self.index[self.entities[i].position] == i
    }

}

} // verus!
