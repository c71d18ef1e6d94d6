//! Destruction and the resolution of a single collision.

use vstd::prelude::*;
use crate::entity::Entity;
use crate::state::FieldState;

verus! {

/// Destroying is idempotent: a wreck that is destroyed again stays the wreck
/// it was.
pub proof fn lemma_wrecked_twice(e: Entity)
    ensures
        e.wrecked().wrecked() == e.wrecked(),
        !e.wrecked().is_live(),
        !e.is_live() ==> e.wrecked() == e,
{
}

/// Collision resolution keeps a field valid and destroys without moving:
/// the number of entities, their cells and the index stay.
pub proof fn lemma_check_collision_keeps_wf(s: FieldState, i: int)
    requires
        s.wf(),
        0 <= i < s.entities.len(),
    ensures
        s.check_collision(i).wf(),
        s.check_collision(i).index == s.index,
        s.check_collision(i).entities.len() == s.entities.len(),
        forall|k: int|
            0 <= k < s.entities.len() ==> (#[trigger] s.check_collision(i).entities[k]).position
                == s.entities[k].position,
        forall|k: int|
            0 <= k < s.entities.len() ==> (#[trigger] s.check_collision(i).entities[k])
                == s.entities[k] || s.check_collision(i).entities[k] == s.entities[k].wrecked(),
{
}

/// Collision resolution is idempotent: resolving a slot a second time, with
/// nothing done in between, destroys nothing more.
pub proof fn lemma_check_collision_idempotent(s: FieldState, i: int)
    requires
        s.wf(),
        0 <= i < s.entities.len(),
    ensures
        s.check_collision(i).check_collision(i) == s.check_collision(i),
{
    let once = s.check_collision(i);
    assert(once.check_collision(i).entities =~= once.entities);
}

} // verus!
