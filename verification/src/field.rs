//! The game field: the entities, the index over their cells, and the moves
//! of the game.

use vstd::prelude::*;
use crate::entity::Entity;
use crate::entity::EntityKind;
use crate::chance::random_in_range;
use crate::command::Command;
use crate::laws::layout::lemma_append_keeps_fresh;
use crate::laws::layout::lemma_append_keeps_live_indexed;
use crate::laws::layout::lemma_fresh_field_has_free_cell;
use crate::laws::layout::lemma_fresh_is_indexed;
use crate::laws::moves::lemma_move_player_keeps_live_indexed;
use crate::laws::moves::lemma_teleport_keeps_live_indexed;
use crate::laws::moves::lemma_teleport_keeps_wf;
use crate::laws::tick::lemma_tick_indexes_live;
use crate::laws::tick::lemma_tick_in_steps;
use crate::position::bounded_step;
use crate::position::center;
use crate::position::clamp_delta;
use crate::position::Position;
use crate::position::FIELD_HEIGHT;
use crate::position::FIELD_WIDTH;
use crate::spatial_index::rebuilt_index;
use crate::spatial_index::SpatialIndex;
use crate::state::slot_admits;
use crate::state::FieldState;

verus! {

/// Computes the step that a move by `d` from `at` may take on an axis of
/// the given extent.
fn bound_step(at: i32, d: i32, extent: i32) -> (step: i32)
    ensures
        step == bounded_step(at as int, d as int, extent as int),
{
    let to: i64 = at as i64 + d as i64;
    if 0 <= to && to < extent as i64 {
        d
    } else {
        0
    }
}

/// All entities of a game and the index from cells to their slots.
pub struct GameField {
    /// Entities by slot. Slot 0 is always the player.
    entities: Vec<Entity>,
    /// Maps a cell to a slot of `entities`.
    pos_to_idx: SpatialIndex,
}

impl View for GameField {
    type V = FieldState;

    closed spec fn view(&self) -> FieldState {
        FieldState { entities: self.entities@, index: self.pos_to_idx@ }
    }
}

impl GameField {
    /// Validity of the field; see [`FieldState::wf`].
    pub open spec fn wf(&self) -> bool {
        self@.wf()
    }

    /// Creates a field without entities.
    pub fn empty() -> (field: GameField)
        ensures
            field@ == FieldState::empty(),
            field.wf(),
    {
        GameField { entities: Vec::new(), pos_to_idx: SpatialIndex::new() }
    }

    /// Makes a new field with the player in the middle and `robots` robots,
    /// each on a random cell of its own. A count below 1 gives a field with
    /// the player alone.
    ///
    /// The count has to leave the last robot a free cell, or the search for
    /// one could not end.
    pub fn new(robots: i32) -> (field: GameField)
        requires
            robots < FIELD_WIDTH * FIELD_HEIGHT,
        ensures
            field.wf(),
            field@.fresh(),
            field@.live_indexed(),
            field@.entities.len() == 1 + if robots > 0 { robots as int } else { 0 },
            field@.entities[0] == (Entity { kind: EntityKind::Player, position: center() }),
            forall|i: int|
                1 <= i < field@.entities.len() ==> (#[trigger] field@.entities[i]).kind
                    == EntityKind::Robot,
    {
        let mut new_field = GameField::empty();
        new_field.spawn_player();
        proof {
            assert(FieldState::empty().index =~= rebuilt_index(FieldState::empty().entities));
            lemma_append_keeps_fresh(FieldState::empty(), new_field@.entities[0]);
        }

        let mut spawned: i32 = 0;
        while spawned < robots
            invariant
                robots < FIELD_WIDTH * FIELD_HEIGHT,
                0 <= spawned,
                spawned == 0 || spawned <= robots,
                new_field.wf(),
                new_field@.fresh(),
                new_field@.entities.len() == 1 + spawned,
                new_field@.entities[0] == (Entity { kind: EntityKind::Player, position: center() }),
                forall|i: int|
                    1 <= i < new_field@.entities.len() ==> (#[trigger] new_field@.entities[i]).kind
                        == EntityKind::Robot,
            decreases robots - spawned,
        {
            let ghost before = new_field@;
            proof {
                lemma_fresh_field_has_free_cell(before);
            }
            new_field.spawn_robot();
            proof {
                let p = choose|p: Position|
                    p.in_field() && !before.index.contains_key(p) && new_field@ == before.append(
                        Entity { kind: EntityKind::Robot, position: p },
                    );
                lemma_append_keeps_fresh(before, Entity { kind: EntityKind::Robot, position: p });
            }
            spawned += 1;
        }
        proof {
            lemma_fresh_is_indexed(new_field@);
        }
        new_field
    }

    /// Returns the entities by slot.
    pub fn entities(&self) -> (entities: &Vec<Entity>)
        ensures
            entities@ == self@.entities,
    {
        &self.entities
    }

    /// Returns the slot recorded for the cell `(x, y)`, or `None` where the
    /// cell has no entry.
    pub fn index_at(&self, x: i32, y: i32) -> (slot: Option<usize>)
        ensures
            slot == self@.occupant(Position { x, y }),
    {
        self.pos_to_idx.occupant_at(x, y)
    }

    /// Returns the slot recorded for the cell `pos`, or `None` where the
    /// cell has no entry.
    pub fn index_at_pos(&self, pos: &Position) -> (slot: Option<usize>)
        ensures
            slot == self@.occupant(*pos),
    {
        self.index_at(pos.x, pos.y)
    }

    /// Returns whether the cell `(x, y)` has an index entry.
    pub fn has_entity_at(&self, x: i32, y: i32) -> (occupied: bool)
        ensures
            occupied == self@.index.contains_key(Position { x, y }),
    {
        self.index_at(x, y).is_some()
    }

    /// Appends `e` and records its slot for the cell on which it stands. An
    /// entry that the cell already had is overwritten: the index then names
    /// the newcomer, and the two are left for collision resolution to find.
    pub fn append_entity(&mut self, e: Entity)
        requires
            old(self).wf(),
            e.position.in_field(),
            slot_admits(old(self)@.entities.len() as int, e.kind),
        ensures
            final(self)@ == old(self)@.append(e),
            final(self).wf(),
    {
        let n: usize = self.entities.len();
        self.pos_to_idx.insert(e.position, n);
        self.entities.push(e);
        proof {
            // Unfolds the view of the field as it was on entry.
            assert(old(self)@.index == old(self).pos_to_idx@);
            // Brings in that a vector's length fits `usize`.
            assert(self.entities.len() == self.entities@.len());
        }
    }

    /// Spawns the player in the middle of the field. The player has to be
    /// the first entity, for slot 0 is where the game looks for it.
    pub fn spawn_player(&mut self)
        requires
            old(self).wf(),
            old(self)@.entities.len() == 0,
        ensures
            final(self)@ == old(self)@.append(
                Entity { kind: EntityKind::Player, position: center() },
            ),
            final(self).wf(),
    {
        let player = Entity::new_at(EntityKind::Player, FIELD_WIDTH / 2, FIELD_HEIGHT / 2);
        self.append_entity(player);
    }

    /// Spawns a robot on the cell `(x, y)` unless the cell has an index
    /// entry, and returns whether it did.
    pub fn try_spawn_robot_at(&mut self, x: i32, y: i32) -> (spawned: bool)
        requires
            old(self).wf(),
            old(self)@.entities.len() > 0,
            (Position { x, y }).in_field(),
        ensures
            spawned == !old(self)@.index.contains_key(Position { x, y }),
            final(self)@ == if spawned {
                old(self)@.append(Entity { kind: EntityKind::Robot, position: Position { x, y } })
            } else {
                old(self)@
            },
            old(self)@.live_indexed() ==> final(self)@.live_indexed(),
            final(self).wf(),
    {
        if self.has_entity_at(x, y) {
            return false;
        }
        let robot = Entity::new_at(EntityKind::Robot, x, y);
        self.append_entity(robot);
        proof {
            if old(self)@.live_indexed() {
                lemma_append_keeps_live_indexed(old(self)@, robot);
            }
        }
        true
    }

    /// Returns the first cell of the field without an index entry, going
    /// through the rows from the top and through each row from the left, or
    /// `None` where every cell has one.
    pub fn first_free_cell(&self) -> (cell: Option<Position>)
        ensures
            match cell {
                Some(p) => self@.first_free_cell_is(p),
                None => !self@.has_free_cell(),
            },
    {
        let mut y: i32 = 0;
        while y < FIELD_HEIGHT
            invariant
                0 <= y <= FIELD_HEIGHT,
                forall|q: Position|
                    q.in_field() && q.y < y ==> #[trigger] self@.index.contains_key(q),
            decreases FIELD_HEIGHT - y,
        {
            let mut x: i32 = 0;
            while x < FIELD_WIDTH
                invariant
                    0 <= y < FIELD_HEIGHT,
                    0 <= x <= FIELD_WIDTH,
                    forall|q: Position|
                        q.in_field() && (q.y < y || (q.y == y && q.x < x))
                            ==> #[trigger] self@.index.contains_key(q),
                decreases FIELD_WIDTH - x,
            {
                if !self.has_entity_at(x, y) {
                    return Some(Position::new(x, y));
                }
                x += 1;
            }
            y += 1;
        }
        None
    }

    /// Spawns a robot on a random cell without an index entry.
    ///
    /// Cells are drawn uniformly over the whole field, and a draw that hits
    /// a cell with an entry is thrown away and repeated. The draws are
    /// counted so that the call is known to return: should `u64::MAX` of
    /// them in a row hit a taken cell, the robot goes to the first free cell
    /// in row order.
    pub fn spawn_robot(&mut self)
        requires
            old(self).wf(),
            old(self)@.entities.len() > 0,
            old(self)@.has_free_cell(),
        ensures
            exists|p: Position|
                p.in_field() && !old(self)@.index.contains_key(p) && final(self)@
                    == old(self)@.append(Entity { kind: EntityKind::Robot, position: p }),
            old(self)@.live_indexed() ==> final(self)@.live_indexed(),
            final(self).wf(),
    {
        let mut draws_left: u64 = u64::MAX;
        while draws_left > 0
            invariant
                self@ == old(self)@,
                self.wf(),
                self@.entities.len() > 0,
            decreases draws_left,
        {
            let x: i32 = random_in_range(0, FIELD_WIDTH);
            let y: i32 = random_in_range(0, FIELD_HEIGHT);
            if self.try_spawn_robot_at(x, y) {
                proof {
                    let drawn = Position { x, y };
                    assert(drawn.in_field() && !old(self)@.index.contains_key(drawn) && self@
                        == old(self)@.append(Entity { kind: EntityKind::Robot, position: drawn }));
                }
                return;
            }
            draws_left -= 1;
        }
        let first = self.first_free_cell();
        if let Some(cell) = first {
            self.try_spawn_robot_at(cell.x, cell.y);
            proof {
                assert(cell.in_field() && !old(self)@.index.contains_key(cell) && self@
                    == old(self)@.append(Entity { kind: EntityKind::Robot, position: cell }));
            }
        }
    }

    /// Resolves the collision of slot `i`: where the index records another
    /// slot for the cell on which `i` stands, both entities are destroyed.
    pub fn check_collision(&mut self, i: usize)
        requires
            old(self).wf(),
            i < old(self)@.entities.len(),
        ensures
            final(self)@ == old(self)@.check_collision(i as int),
            final(self).wf(),
    {
        if let Some(other) = self.index_at_pos(&self.entities[i].position) {
            if other != i {
                self.entities[i].destroy();
                self.entities[other].destroy();
            }
        }
    }

    /// Returns the player, the entity of slot 0.
    pub fn player(&self) -> (player: &Entity)
        requires
            self@.entities.len() > 0,
        ensures
            *player == self@.entities[0],
    {
        &self.entities[0]
    }

    /// Runs one tick: every robot steps toward the cell on which the player
    /// stands at the start of the call, the index is rebuilt from the live
    /// entities, and the collisions of all slots are resolved in ascending
    /// order. Robots are not held back at the edges of the field: they step
    /// toward a player who is on it, and so they stay on it.
    pub fn move_robots(&mut self)
        requires
            old(self).wf(),
            old(self)@.entities.len() > 0,
        ensures
            final(self)@ == old(self)@.tick(),
            final(self)@.live_indexed(),
            final(self).wf(),
    {
        let px: i32 = self.player().position.x;
        let py: i32 = self.player().position.y;
        let count: usize = self.entities.len();

        let mut i: usize = 0;
        while i < count
            invariant
                old(self).wf(),
                i <= count == old(self)@.entities.len() == self.entities@.len(),
                px == old(self)@.entities[0].position.x,
                py == old(self)@.entities[0].position.y,
                forall|k: int| 0 <= k < i ==> self.entities@[k] == old(self)@.pursued()[k],
                forall|k: int| i <= k < count ==> self.entities@[k] == old(self)@.entities[k],
            decreases count - i,
        {
            if self.entities[i].kind == EntityKind::Robot {
                let dx: i32 = clamp_delta(px - self.entities[i].position.x);
                let dy: i32 = clamp_delta(py - self.entities[i].position.y);
                self.entities[i].position = self.entities[i].position.clone_add(dx, dy);
            }
            i += 1;
        }
        assert(self.entities@ =~= old(self)@.pursued());

        self.pos_to_idx.rebuild_full(&self.entities);
        let mut i: usize = 0;
        while i < count
            invariant
                self.wf(),
                i <= count == self@.entities.len(),
                self@ == old(self)@.regrouped().resolved_below(i as nat),
            decreases count - i,
        {
            self.check_collision(i);
            i += 1;
        }
        proof {
            lemma_tick_in_steps(old(self)@);
            lemma_tick_indexes_live(old(self)@);
        }
    }

    /// Drops the player's own index entry: the entry of the cell on which
    /// the player stands, where it names the player's slot.
    fn drop_player_entry(&mut self)
        requires
            old(self).wf(),
            old(self)@.entities.len() > 0,
        ensures
            final(self)@ == old(self)@.without_player_entry(),
            final(self).wf(),
    {
        let at: Position = self.entities[0].position;
        if let Some(slot) = self.index_at_pos(&at) {
            if slot == 0 {
                self.pos_to_idx.remove(at);
                proof {
                    // Unfolds the view of the field as it was on entry.
                    assert(old(self)@.index == old(self).pos_to_idx@);
                }
            }
        }
    }

    /// Moves the player by `(dx, dy)`, as far as the field allows: on an
    /// axis where the move would pass an edge the player stays, and the
    /// other axis is not affected. A move that goes nowhere changes nothing
    /// and resolves no collision. Any other takes the index along: the
    /// player's own entry is dropped, the player steps, the collision of its
    /// slot is resolved on the cell entered, so that a robot recorded there
    /// is destroyed together with the player, and at last the player's slot
    /// is recorded for that cell. The robots do not move.
    ///
    /// Every live entity that was recorded under its cell before the move
    /// is so after it.
    pub fn move_player(&mut self, dx: i32, dy: i32)
        requires
            old(self).wf(),
            old(self)@.entities.len() > 0,
        ensures
            final(self)@ == old(self)@.move_player(dx as int, dy as int),
            final(self)@.entities[0].position.in_field(),
            final(self)@.entities[0].position != old(self)@.entities[0].position
                ==> final(self)@.occupant(final(self)@.entities[0].position) == Some(0usize),
            old(self)@.live_indexed() ==> final(self)@.live_indexed(),
            final(self).wf(),
    {
        let px: i32 = self.entities[0].position.x;
        let py: i32 = self.entities[0].position.y;

        let dx: i32 = bound_step(px, dx, FIELD_WIDTH);
        let dy: i32 = bound_step(py, dy, FIELD_HEIGHT);

        if dx == 0 && dy == 0 {
            return;
        }
        self.drop_player_entry();
        self.entities[0].position = self.entities[0].position.clone_add(dx, dy);
        proof {
            assert(self@ == old(self)@.without_player_entry().with_player_at(
                old(self)@.player_target(dx as int, dy as int),
            ));
        }
        self.check_collision(0);
        self.pos_to_idx.insert(self.entities[0].position, 0);
        proof {
            assert(self@ == old(self)@.move_player(dx as int, dy as int));
            if old(self)@.live_indexed() {
                lemma_move_player_keeps_live_indexed(old(self)@, dx as int, dy as int);
            }
        }
    }

    /// Returns true iff the player has been destroyed.
    pub fn player_is_dead(&self) -> (dead: bool)
        requires
            self@.entities.len() > 0,
        ensures
            dead == !self@.entities[0].is_live(),
    {
        self.entities[0].kind == EntityKind::Garbage
    }

    /// Puts the player on the cell `(x, y)`, whether or not it is taken. The
    /// player's own entry is dropped; the collision of the player's slot is
    /// resolved on the new cell, so that a robot recorded there is destroyed
    /// together with the player; and at last the player's slot is recorded
    /// for the new cell.
    ///
    /// Every live entity that was recorded under its cell before the
    /// teleport is so after it.
    pub fn teleport_player_to(&mut self, x: i32, y: i32)
        requires
            old(self).wf(),
            old(self)@.entities.len() > 0,
            (Position { x, y }).in_field(),
        ensures
            final(self)@ == old(self)@.teleport_to(Position { x, y }),
            final(self)@.occupant(Position { x, y }) == Some(0usize),
            old(self)@.live_indexed() ==> final(self)@.live_indexed(),
            final(self).wf(),
    {
        self.drop_player_entry();
        self.entities[0].position = Position::new(x, y);
        proof {
            assert(self@ == old(self)@.without_player_entry().with_player_at(Position { x, y }));
        }
        self.check_collision(0);
        self.pos_to_idx.insert(self.entities[0].position, 0);
        proof {
            assert(self@ == old(self)@.teleport_to(Position { x, y }));
            if old(self)@.live_indexed() {
                lemma_teleport_keeps_live_indexed(old(self)@, Position { x, y });
            }
        }
    }

    /// Teleports the player to a random cell of the field, as
    /// [`GameField::teleport_player_to`] does for a given one.
    pub fn teleport_player(&mut self)
        requires
            old(self).wf(),
            old(self)@.entities.len() > 0,
        ensures
            exists|p: Position| p.in_field() && final(self)@ == old(self)@.teleport_to(p),
            final(self)@.occupant(final(self)@.entities[0].position) == Some(0usize),
            old(self)@.live_indexed() ==> final(self)@.live_indexed(),
            final(self).wf(),
    {
        let x: i32 = random_in_range(0, FIELD_WIDTH);
        let y: i32 = random_in_range(0, FIELD_HEIGHT);
        self.teleport_player_to(x, y);
        proof {
            let drawn = Position { x, y };
            assert(drawn.in_field() && self@ == old(self)@.teleport_to(drawn));
            lemma_teleport_keeps_wf(old(self)@, drawn);
        }
    }

    /// Plays one turn. A step command moves the player and then runs a
    /// tick; waiting runs the tick alone; a teleport moves the player and
    /// leaves the robots where they are; quitting changes nothing. Returns
    /// whether the session goes on, which it does after every command but
    /// the one to quit. No command undoes that every live entity is recorded
    /// under its cell.
    pub fn play(&mut self, command: Command) -> (go_on: bool)
        requires
            old(self).wf(),
            old(self)@.entities.len() > 0,
        ensures
            go_on == (command != Command::Quit),
            command == Command::Quit ==> final(self)@ == old(self)@,
            command == Command::Wait ==> final(self)@ == old(self)@.tick(),
            command == Command::Teleport ==> exists|p: Position|
                p.in_field() && final(self)@ == old(self)@.teleport_to(p),
            command.step() matches Some(step) ==> final(self)@ == old(self)@.move_player(
                step.0,
                step.1,
            ).tick(),
            old(self)@.live_indexed() ==> final(self)@.live_indexed(),
            final(self).wf(),
    {
        match command {
            Command::Wait => {
                self.move_robots();
            },
            Command::Quit => {
                return false;
            },
            Command::Up => {
                self.move_player(0, -1);
                self.move_robots();
            },
            Command::Left => {
                self.move_player(-1, 0);
                self.move_robots();
            },
            Command::Down => {
                self.move_player(0, 1);
                self.move_robots();
            },
            Command::Right => {
                self.move_player(1, 0);
                self.move_robots();
            },
            Command::Teleport => {
                self.teleport_player();
                proof {
                    let drawn = choose|p: Position|
                        p.in_field() && self@ == old(self)@.teleport_to(p);
                    assert(drawn.in_field() && self@ == old(self)@.teleport_to(drawn));
                }
            },
        }
        true
    }

    /// Returns what is shown for the cell `(x, y)`.
    pub fn glyph_at(&self, x: i32, y: i32) -> (glyph: char)
        requires
            self.wf(),
        ensures
            glyph == self@.glyph(Position { x, y }),
    {
        match self.index_at(x, y) {
            Some(idx) => match self.entities[idx].kind {
                EntityKind::Player => '@',
                EntityKind::Robot => '$',
                EntityKind::Garbage => '#',
            },
            None => '.',
        }
    }

    /// Returns the picture of the field: one row of glyphs for each row of
    /// cells, from the top, each row from the left.
    pub fn render(&self) -> (rows: Vec<Vec<char>>)
        requires
            self.wf(),
        ensures
            rows@.len() == FIELD_HEIGHT,
            forall|y: int| 0 <= y < FIELD_HEIGHT ==> (#[trigger] rows@[y])@.len() == FIELD_WIDTH,
            forall|x: int, y: int|
                0 <= x < FIELD_WIDTH && 0 <= y < FIELD_HEIGHT ==> (#[trigger] rows@[y]@[x])
                    == self@.glyph(Position { x: x as i32, y: y as i32 }),
    {
        let mut rows: Vec<Vec<char>> = Vec::new();
        let mut y: i32 = 0;
        while y < FIELD_HEIGHT
            invariant
                self.wf(),
                0 <= y <= FIELD_HEIGHT,
                rows@.len() == y,
                forall|v: int| 0 <= v < y ==> (#[trigger] rows@[v])@.len() == FIELD_WIDTH,
                forall|u: int, v: int|
                    0 <= u < FIELD_WIDTH && 0 <= v < y ==> (#[trigger] rows@[v]@[u]) == self@.glyph(
                        Position { x: u as i32, y: v as i32 },
                    ),
            decreases FIELD_HEIGHT - y,
        {
            let mut row: Vec<char> = Vec::new();
            let mut x: i32 = 0;
            while x < FIELD_WIDTH
                invariant
                    self.wf(),
                    0 <= y < FIELD_HEIGHT,
                    0 <= x <= FIELD_WIDTH,
                    row@.len() == x,
                    forall|u: int|
                        0 <= u < x ==> (#[trigger] row@[u]) == self@.glyph(
                            Position { x: u as i32, y },
                        ),
                decreases FIELD_WIDTH - x,
            {
                row.push(self.glyph_at(x, y));
                x += 1;
            }
            rows.push(row);
            y += 1;
        }
        rows
    }
}

} // verus!
