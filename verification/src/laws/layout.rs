//! How a field is laid out: the cells there are, what appending keeps, and
//! what holds of a field that has only been filled so far.

use vstd::prelude::*;
use vstd::relations::injective_on;
use vstd::set_lib::lemma_int_range;
use vstd::set_lib::lemma_len_subset;
use vstd::set_lib::lemma_map_size;
use vstd::set_lib::set_int_range;
use crate::entity::Entity;
use crate::position::Position;
use crate::position::FIELD_HEIGHT;
use crate::position::FIELD_WIDTH;
use crate::spatial_index::lemma_rebuilt_index_entries;
use crate::spatial_index::lemma_rebuilt_index_next;
use crate::spatial_index::lemma_rebuilt_index_size;
use crate::state::slot_admits;
use crate::state::FieldState;

verus! {

/// The cells of the field.
pub open spec fn field_cells() -> Set<Position> {
    Set::new(|p: Position| p.in_field())
}

/// The field has as many cells as its width times its height.
pub proof fn lemma_field_cell_count()
    ensures
        field_cells().finite(),
        field_cells().len() == FIELD_WIDTH * FIELD_HEIGHT,
{
    let numbers = set_int_range(0, FIELD_WIDTH * FIELD_HEIGHT);
    let cell = |n: int|
        Position { x: (n % FIELD_WIDTH as int) as i32, y: (n / FIELD_WIDTH as int) as i32 };
    lemma_int_range(0, FIELD_WIDTH * FIELD_HEIGHT);
    assert(injective_on(cell, numbers));
    assert forall|p: Position| field_cells().contains(p) implies numbers.map(cell).contains(p) by {
        let n = p.y * FIELD_WIDTH + p.x;
        assert(numbers.contains(n) && cell(n) == p);
    }
    assert(numbers.map(cell) =~= field_cells());
    lemma_map_size(numbers, field_cells(), cell);
}

/// An index with fewer entries than the field has cells leaves a cell free.
pub proof fn lemma_small_index_leaves_free_cell(s: FieldState)
    requires
        s.index.dom().finite(),
        s.index.dom().len() < FIELD_WIDTH * FIELD_HEIGHT,
    ensures
        s.has_free_cell(),
{
    lemma_field_cell_count();
    if !s.has_free_cell() {
        assert(field_cells().subset_of(s.index.dom()));
        lemma_len_subset(field_cells(), s.index.dom());
    }
}

/// Appending keeps a field valid, as long as the newcomer stands on the
/// field and its kind suits its slot.
pub proof fn lemma_append_keeps_wf(s: FieldState, e: Entity)
    requires
        s.wf(),
        s.entities.len() < usize::MAX,
        e.position.in_field(),
        slot_admits(s.entities.len() as int, e.kind),
    ensures
        s.append(e).wf(),
{
}

/// Appending a live entity on a cell without an entry keeps a freshly laid
/// out field fresh.
pub proof fn lemma_append_keeps_fresh(s: FieldState, e: Entity)
    requires
        s.fresh(),
        s.entities.len() < usize::MAX,
        e.is_live(),
        !s.index.contains_key(e.position),
    ensures
        s.append(e).fresh(),
{
    let longer = s.entities.push(e);
    let n = s.entities.len() as int;
    assert(longer.take(n) =~= s.entities);
    assert(longer.take(n + 1) =~= longer);
    lemma_rebuilt_index_next(longer, n);
    lemma_rebuilt_index_entries(s.entities);
}

/// Appending on a cell without an entry keeps every live entity recorded
/// under its cell.
pub proof fn lemma_append_keeps_live_indexed(s: FieldState, e: Entity)
    requires
        s.live_indexed(),
        s.entities.len() < usize::MAX,
        !s.index.contains_key(e.position),
    ensures
        s.append(e).live_indexed(),
{
}

/// A freshly laid out field with fewer entities than cells has a free cell.
pub proof fn lemma_fresh_field_has_free_cell(s: FieldState)
    requires
        s.fresh(),
        s.entities.len() < FIELD_WIDTH * FIELD_HEIGHT,
    ensures
        s.has_free_cell(),
{
    lemma_rebuilt_index_size(s.entities);
    lemma_small_index_leaves_free_cell(s);
}

/// A freshly laid out field has every entity recorded under its cell.
pub proof fn lemma_fresh_is_indexed(s: FieldState)
    requires
        s.fresh(),
        s.entities.len() <= usize::MAX,
    ensures
        s.live_indexed(),
{
    lemma_rebuilt_index_entries(s.entities);
    assert forall|i: int|
        0 <= i < s.entities.len() && (#[trigger] s.entities[i]).is_live() implies {
        &&& s.index.contains_key(s.entities[i].position)
        &&& s.index[s.entities[i].position] == i
    } by {
        let t = s.index[s.entities[i].position] as int;
        if t < i {
            assert(s.entities[t].position != s.entities[i].position);
        } else if i < t {
            assert(s.entities[i].position != s.entities[t].position);
        }
    }
}

} // verus!
