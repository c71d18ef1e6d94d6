//! The moves of the player: steps within the field and teleports.

use vstd::prelude::*;
use crate::laws::collision::lemma_check_collision_keeps_wf;
use crate::position::Position;
use crate::position::FIELD_HEIGHT;
use crate::position::FIELD_WIDTH;
use crate::state::FieldState;

verus! {

/// Taking the player to a cell of the field keeps the field valid. The
/// player ends on that cell and slot 0 is recorded for it; nobody else
/// moves and nothing is revived. Of the other entries only the player's own
/// goes: the entry of the cell left, where it named slot 0.
pub proof fn lemma_player_moved_to(s: FieldState, p: Position)
    requires
        s.wf(),
        s.entities.len() > 0,
        p.in_field(),
    ensures
        s.with_player_moved_to(p).wf(),
        s.with_player_moved_to(p).entities.len() == s.entities.len(),
        s.with_player_moved_to(p).entities[0].position == p,
        s.with_player_moved_to(p).occupant(p) == Some(0usize),
        forall|k: int|
            1 <= k < s.entities.len() ==> (#[trigger] s.with_player_moved_to(
                p,
            ).entities[k]).position == s.entities[k].position,
        forall|k: int|
            0 <= k < s.entities.len() && !s.entities[k].is_live() ==> !(
            #[trigger] s.with_player_moved_to(p).entities[k]).is_live(),
        forall|q: Position|
            q != p ==> #[trigger] s.with_player_moved_to(p).occupant(q) == if q
                == s.entities[0].position && s.occupant(q) == Some(0usize) {
                None
            } else {
                s.occupant(q)
            },
{
    lemma_check_collision_keeps_wf(s.without_player_entry().with_player_at(p), 0);
}

/// Taking the player to a cell of the field keeps every live entity
/// recorded under its cell: the player is recorded for the cell it enters,
/// a live robot that stood there has been found through its entry and
/// destroyed, and no entry of another live entity is touched.
pub proof fn lemma_player_moved_to_keeps_live_indexed(s: FieldState, p: Position)
    requires
        s.wf(),
        s.entities.len() > 0,
        p.in_field(),
        s.live_indexed(),
    ensures
        s.with_player_moved_to(p).live_indexed(),
{
    lemma_player_moved_to(s, p);
    let landed = s.without_player_entry().with_player_at(p);
    let after = s.with_player_moved_to(p);
    lemma_check_collision_keeps_wf(landed, 0);
    assert forall|i: int|
        0 <= i < after.entities.len() && (#[trigger] after.entities[i]).is_live() implies {
        &&& after.index.contains_key(after.entities[i].position)
        &&& after.index[after.entities[i].position] == i
    } by {
        if i > 0 {
            assert(landed.entities[i] == s.entities[i]);
            assert(s.entities[i].is_live());
        }
    }
}

/// A player move keeps a field valid and the player on the field. Where
/// the move changes the cell, slot 0 is recorded for the cell entered.
/// Nobody else moves and nothing is revived.
pub proof fn lemma_move_player_keeps_wf(s: FieldState, dx: int, dy: int)
    requires
        s.wf(),
        s.entities.len() > 0,
    ensures
        s.move_player(dx, dy).wf(),
        s.move_player(dx, dy).entities.len() == s.entities.len(),
        s.move_player(dx, dy).entities[0].position == s.player_target(dx, dy),
        s.player_target(dx, dy).in_field(),
        s.player_target(dx, dy) != s.entities[0].position ==> s.move_player(dx, dy).occupant(
            s.player_target(dx, dy),
        ) == Some(0usize),
        forall|k: int|
            1 <= k < s.entities.len() ==> (#[trigger] s.move_player(dx, dy).entities[k]).position
                == s.entities[k].position,
        forall|k: int|
            0 <= k < s.entities.len() && !s.entities[k].is_live() ==> !(#[trigger] s.move_player(
                dx,
                dy,
            ).entities[k]).is_live(),
{
    let target = s.player_target(dx, dy);
    if target != s.entities[0].position {
        lemma_player_moved_to(s, target);
    }
}

/// A player move keeps every live entity recorded under its cell.
pub proof fn lemma_move_player_keeps_live_indexed(s: FieldState, dx: int, dy: int)
    requires
        s.wf(),
        s.entities.len() > 0,
        s.live_indexed(),
    ensures
        s.move_player(dx, dy).live_indexed(),
{
    lemma_move_player_keeps_wf(s, dx, dy);
    let target = s.player_target(dx, dy);
    if target != s.entities[0].position {
        lemma_player_moved_to_keeps_live_indexed(s, target);
    }
}

/// A move off an edge of the field leaves the player where it is on that
/// axis.
pub proof fn lemma_player_stops_at_edges(s: FieldState, dx: int, dy: int)
    requires
        s.wf(),
        s.entities.len() > 0,
    ensures
        s.entities[0].position.x + dx < 0 || s.entities[0].position.x + dx >= FIELD_WIDTH
            ==> s.player_target(dx, dy).x == s.entities[0].position.x,
        s.entities[0].position.y + dy < 0 || s.entities[0].position.y + dy >= FIELD_HEIGHT
            ==> s.player_target(dx, dy).y == s.entities[0].position.y,
        0 <= s.entities[0].position.x + dx < FIELD_WIDTH ==> s.player_target(dx, dy).x
            == s.entities[0].position.x + dx,
        0 <= s.entities[0].position.y + dy < FIELD_HEIGHT ==> s.player_target(dx, dy).y
            == s.entities[0].position.y + dy,
{
}

/// A player alone on the field is never destroyed by its own moves,
/// whatever they are and however many; and where it was recorded under its
/// cell before them, it is so after them.
pub proof fn lemma_lone_player_survives(s: FieldState, moves: Seq<(int, int)>)
    requires
        s.wf(),
        s.entities.len() == 1,
        s.entities[0].is_live(),
    ensures
        s.after_moves(moves).wf(),
        s.after_moves(moves).entities.len() == 1,
        s.after_moves(moves).entities[0].is_live(),
        s.live_indexed() ==> s.after_moves(moves).live_indexed(),
    decreases moves.len(),
{
    if moves.len() > 0 {
        lemma_lone_player_survives(s, moves.drop_last());
        let before = s.after_moves(moves.drop_last());
        lemma_move_player_keeps_wf(before, moves.last().0, moves.last().1);
        if s.live_indexed() {
            lemma_move_player_keeps_live_indexed(before, moves.last().0, moves.last().1);
        }
    }
}

/// A teleport keeps a field valid, puts the player on the chosen cell and
/// records slot 0 for it. Nobody else moves and nothing is revived.
pub proof fn lemma_teleport_keeps_wf(s: FieldState, p: Position)
    requires
        s.wf(),
        s.entities.len() > 0,
        p.in_field(),
    ensures
        s.teleport_to(p).wf(),
        s.teleport_to(p).entities.len() == s.entities.len(),
        s.teleport_to(p).entities[0].position == p,
        s.teleport_to(p).occupant(p) == Some(0usize),
        forall|k: int|
            1 <= k < s.entities.len() ==> (#[trigger] s.teleport_to(p).entities[k]).position
                == s.entities[k].position,
        forall|k: int|
            0 <= k < s.entities.len() && !s.entities[k].is_live() ==> !(#[trigger] s.teleport_to(
                p,
            ).entities[k]).is_live(),
{
    lemma_player_moved_to(s, p);
}

/// A teleport keeps every live entity recorded under its cell.
pub proof fn lemma_teleport_keeps_live_indexed(s: FieldState, p: Position)
    requires
        s.wf(),
        s.entities.len() > 0,
        p.in_field(),
        s.live_indexed(),
    ensures
        s.teleport_to(p).live_indexed(),
{
    lemma_player_moved_to_keeps_live_indexed(s, p);
}

} // verus!
