//! The tick: the pursuit step of the robots and who is left after it.

use vstd::prelude::*;
use crate::entity::Entity;
use crate::entity::EntityKind;
use crate::position::sign;
use crate::position::Position;
use crate::spatial_index::lemma_rebuilt_index_entries;
use crate::spatial_index::rebuilt_index;
use crate::state::crowded;
use crate::state::FieldState;

verus! {

/// A pursuit delta is a single step or none, and none exactly where no
/// distance is left.
pub proof fn lemma_sign_is_unit(i: int)
    ensures
        -1 <= sign(i) <= 1,
        sign(i) == 0 <==> i == 0,
{
}

/// A pursuit step goes one cell toward the target on every axis on which
/// the two are apart, without passing it, and stays on an axis on which they
/// are level. A robot on the field that steps toward a target on the field
/// stays on the field.
pub proof fn lemma_pursuit_step(from: Position, target: Position)
    ensures
        from.step_toward(target).x == from.x + sign(target.x - from.x),
        from.step_toward(target).y == from.y + sign(target.y - from.y),
        from.x == target.x ==> from.step_toward(target).x == from.x,
        from.y == target.y ==> from.step_toward(target).y == from.y,
        from.x < target.x ==> from.x < from.step_toward(target).x <= target.x,
        from.x > target.x ==> target.x <= from.step_toward(target).x < from.x,
        from.y < target.y ==> from.y < from.step_toward(target).y <= target.y,
        from.y > target.y ==> target.y <= from.step_toward(target).y < from.y,
        from.in_field() && target.in_field() ==> from.step_toward(target).in_field(),
{
}

/// A tick keeps a field valid. It moves robots only, each by its pursuit
/// step, and it never revives anything.
pub proof fn lemma_tick_keeps_wf(s: FieldState)
    requires
        s.wf(),
        s.entities.len() > 0,
    ensures
        s.tick().wf(),
        s.tick().entities.len() == s.entities.len(),
        forall|i: int|
            0 <= i < s.entities.len() ==> (#[trigger] s.tick().entities[i]).position
                == s.pursued()[i].position,
        forall|i: int|
            0 <= i < s.entities.len() && s.entities[i].kind == EntityKind::Robot ==> (
            #[trigger] s.tick().entities[i]).position == s.entities[i].position.step_toward(
                s.entities[0].position,
            ),
        forall|i: int|
            0 <= i < s.entities.len() && s.entities[i].kind != EntityKind::Robot ==> (
            #[trigger] s.tick().entities[i]).position == s.entities[i].position,
        forall|i: int|
            0 <= i < s.entities.len() && !s.entities[i].is_live() ==> !(
            #[trigger] s.tick().entities[i]).is_live(),
{
    lemma_rebuilt_index_entries(s.pursued());
}

/// In a tick no entity moves by more than one cell on either axis, and a
/// robot that is level with the player on an axis stays on that axis.
pub proof fn lemma_tick_steps_are_single(s: FieldState, i: int)
    requires
        s.wf(),
        0 <= i < s.entities.len(),
    ensures
        -1 <= s.tick().entities[i].position.x - s.entities[i].position.x <= 1,
        -1 <= s.tick().entities[i].position.y - s.entities[i].position.y <= 1,
        s.entities[i].position.x == s.entities[0].position.x ==> s.tick().entities[i].position.x
            == s.entities[i].position.x,
        s.entities[i].position.y == s.entities[0].position.y ==> s.tick().entities[i].position.y
            == s.entities[i].position.y,
{
    lemma_pursuit_step(s.entities[i].position, s.entities[0].position);
}

/// After a tick, two entities on one cell are both destroyed.
pub proof fn lemma_tick_destroys_sharers(s: FieldState, i: int, j: int)
    requires
        s.wf(),
        0 <= i < s.entities.len(),
        0 <= j < s.entities.len(),
        i != j,
        s.tick().entities[i].position == s.tick().entities[j].position,
    ensures
        !s.tick().entities[i].is_live(),
        !s.tick().entities[j].is_live(),
{
    let moved = s.pursued();
    assert(moved[j].position == moved[i].position);
    assert(crowded(moved, i));
    assert(crowded(moved, j));
}

/// A tick leaves the kind of an entity alone that ends it on a cell of its
/// own.
pub proof fn lemma_tick_spares_loners(s: FieldState, k: int)
    requires
        s.wf(),
        0 <= k < s.entities.len(),
        forall|j: int|
            0 <= j < s.entities.len() && j != k ==> (#[trigger] s.tick().entities[j]).position
                != s.tick().entities[k].position,
    ensures
        s.tick().entities[k].kind == s.entities[k].kind,
{
    let moved = s.pursued();
    if crowded(moved, k) {
        let j = choose|j: int|
            0 <= j < moved.len() && j != k && (#[trigger] moved[j]).position == moved[k].position;
        assert(s.tick().entities[j].position == s.tick().entities[k].position);
    }
}

/// After a tick every live entity has its cell to itself and is recorded
/// under it.
pub proof fn lemma_tick_indexes_live(s: FieldState)
    requires
        s.wf(),
        s.entities.len() > 0,
    ensures
        s.tick().live_indexed(),
        forall|i: int, j: int|
            0 <= i < s.entities.len() && 0 <= j < s.entities.len() && i != j && (
            #[trigger] s.tick().entities[i]).is_live() ==> s.tick().entities[i].position != (
            #[trigger] s.tick().entities[j]).position,
{
    let moved = s.pursued();
    let after = s.tick();
    lemma_rebuilt_index_entries(moved);
    assert forall|i: int, j: int|
        0 <= i < s.entities.len() && 0 <= j < s.entities.len() && i != j && (
        #[trigger] after.entities[i]).is_live() implies after.entities[i].position != (
        #[trigger] after.entities[j]).position by {
        if moved[j].position == moved[i].position {
            assert(crowded(moved, i));
        }
    }
    assert forall|i: int|
        0 <= i < after.entities.len() && (#[trigger] after.entities[i]).is_live() implies {
        &&& after.index.contains_key(after.entities[i].position)
        &&& after.index[after.entities[i].position] == i
    } by {
        assert(moved[i].is_live());
        let t = after.index[moved[i].position] as int;
        if t != i {
            assert(moved[t].position == moved[i].position);
            assert(crowded(moved, i));
        }
    }
}

/// Whether resolving slot `j` destroys anything: the index records another
/// slot for the cell of `j`.
spec fn collides(entities: Seq<Entity>, index: Map<Position, usize>, j: int) -> bool {
    index.contains_key(entities[j].position) && index[entities[j].position] != j
}

/// Whether resolving one of the slots below `n` destroys slot `k`.
spec fn struck(entities: Seq<Entity>, index: Map<Position, usize>, k: int, n: int) -> bool {
    exists|j: int|
        0 <= j < n && #[trigger] collides(entities, index, j) && (k == j || k
            == index[entities[j].position])
}

/// The entities that `moved` become once the slots below `n` have been
/// resolved against the rebuilt index, in closed form.
spec fn wrecked_where_struck(moved: Seq<Entity>, n: int) -> Seq<Entity> {
    Seq::new(
        moved.len(),
        |k: int|
            if struck(moved, rebuilt_index(moved), k, n) {
                moved[k].wrecked()
            } else {
                moved[k]
            },
    )
}

/// Resolving slot `n` after the slots below it.
proof fn lemma_resolve_next(moved: Seq<Entity>, n: int)
    requires
        0 <= n < moved.len() <= usize::MAX,
    ensures
        (FieldState {
            entities: wrecked_where_struck(moved, n),
            index: rebuilt_index(moved),
        }).check_collision(n).entities == wrecked_where_struck(moved, n + 1),
{
    let index = rebuilt_index(moved);
    let before = FieldState { entities: wrecked_where_struck(moved, n), index };
    let after = before.check_collision(n);
    lemma_rebuilt_index_entries(moved);
    assert forall|k: int| 0 <= k < moved.len() implies after.entities[k] == wrecked_where_struck(
        moved,
        n + 1,
    )[k] by {
        if struck(moved, index, k, n + 1) {
            let j = choose|j: int|
                0 <= j < n + 1 && #[trigger] collides(moved, index, j) && (k == j || k
                    == index[moved[j].position]);
            if j < n {
                assert(struck(moved, index, k, n));
            }
        }
        if struck(moved, index, k, n) {
            let j = choose|j: int|
                0 <= j < n && #[trigger] collides(moved, index, j) && (k == j || k
                    == index[moved[j].position]);
            assert(struck(moved, index, k, n + 1));
        }
        if collides(moved, index, n) && (k == n || k == index[moved[n].position]) {
            assert(struck(moved, index, k, n + 1));
        }
    }
    assert(after.entities =~= wrecked_where_struck(moved, n + 1));
}

/// With every slot resolved, exactly the entities that share their cell
/// have been destroyed.
proof fn lemma_resolve_all(start: FieldState)
    requires
        start.wf(),
        start.entities.len() > 0,
    ensures
        wrecked_where_struck(start.pursued(), start.entities.len() as int)
            == start.tick().entities,
{
    let moved = start.pursued();
    let index = rebuilt_index(moved);
    let n = moved.len() as int;
    lemma_rebuilt_index_entries(moved);
    assert forall|k: int| 0 <= k < n implies wrecked_where_struck(moved, n)[k]
        == start.tick().entities[k] by {
        if struck(moved, index, k, n) {
            let j = choose|j: int|
                0 <= j < n && #[trigger] collides(moved, index, j) && (k == j || k
                    == index[moved[j].position]);
            let t = index[moved[j].position] as int;
            if k == j {
                assert(moved[t].position == moved[k].position);
            } else {
                assert(moved[j].position == moved[k].position);
            }
            assert(crowded(moved, k));
        } else if crowded(moved, k) {
            let j = choose|j: int|
                0 <= j < moved.len() && j != k && (#[trigger] moved[j]).position
                    == moved[k].position;
            if index.contains_key(moved[k].position) {
                if index[moved[k].position] != k {
                    assert(collides(moved, index, k));
                } else {
                    assert(collides(moved, index, j));
                }
                assert(false);
            }
            assert(!moved[k].is_live());
        }
    }
    assert(wrecked_where_struck(moved, n) =~= start.tick().entities);
}

/// Resolving the slots below `n` one after the other gives the closed form.
proof fn lemma_resolved_below(s: FieldState, n: nat)
    requires
        s.wf(),
        s.entities.len() > 0,
        n <= s.entities.len(),
    ensures
        s.regrouped().resolved_below(n) == (FieldState {
            entities: wrecked_where_struck(s.pursued(), n as int),
            index: rebuilt_index(s.pursued()),
        }),
    decreases n,
{
    if n == 0 {
        assert(s.pursued() =~= wrecked_where_struck(s.pursued(), 0));
    } else {
        lemma_resolved_below(s, (n - 1) as nat);
        lemma_resolve_next(s.pursued(), n - 1);
    }
}

/// A tick is what its steps make it: the robots move, the index is rebuilt,
/// and the collisions of all slots are resolved in ascending order.
pub proof fn lemma_tick_in_steps(s: FieldState)
    requires
        s.wf(),
        s.entities.len() > 0,
    ensures
        s.regrouped().resolved_below(s.entities.len()) == s.tick(),
{
    lemma_resolved_below(s, s.entities.len());
    lemma_resolve_all(s);
}

/// Resolving collisions again right after a tick destroys nothing more,
/// however many slots are gone through.
pub proof fn lemma_tick_leaves_nothing_to_resolve(s: FieldState, n: nat)
    requires
        s.wf(),
        s.entities.len() > 0,
        n <= s.entities.len(),
    ensures
        s.tick().resolved_below(n) == s.tick(),
    decreases n,
{
    if n > 0 {
        lemma_tick_leaves_nothing_to_resolve(s, (n - 1) as nat);
        let moved = s.pursued();
        let after = s.tick();
        lemma_rebuilt_index_entries(moved);
        let i = n - 1;
        if after.index.contains_key(after.entities[i].position) {
            let t = after.index[after.entities[i].position] as int;
            if t != i {
                assert(moved[t].position == moved[i].position);
                assert(crowded(moved, i));
                assert(crowded(moved, t));
            }
        }
        assert(after.check_collision(i).entities =~= after.entities);
    }
}

} // verus!
