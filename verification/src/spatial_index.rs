//! Occupancy lookup: which slot owns a cell.
//!
//! The index is a hash map keyed by one integer per cell. Its view is the map
//! from cells to slots that the rest of the crate reasons about; the integer
//! keys never show outside this file.

use std::collections::HashMap;
use vstd::prelude::*;
use vstd::set_lib::lemma_int_range;
use vstd::set_lib::lemma_len_subset;
use vstd::set_lib::lemma_map_size_bound;
use vstd::set_lib::set_int_range;
use crate::entity::Entity;
use crate::entity::EntityKind;
use crate::position::Position;

verus! {

/// The integer that stands for a cell as a map key. Distinct cells get
/// distinct keys: `y` shifted into `0 .. 2^32` fills the low half, `x` the
/// high half.
spec fn key_of(p: Position) -> int {
    p.x * 0x1_0000_0000 + (p.y + 0x8000_0000)
}

/// Keys fit the key type, and two cells share a key only if they are one
/// cell.
proof fn lemma_key_of_injective(p: Position, q: Position)
    ensures
        key_of(p) == key_of(q) <==> p == q,
        i64::MIN <= key_of(p) <= i64::MAX,
{
}

/// Computes the map key of the cell `(x, y)`.
fn cell_key(x: i32, y: i32) -> (k: i64)
    ensures
        k == key_of(Position { x, y }),
{
    (x as i64) * 0x1_0000_0000 + ((y as i64) + 0x8000_0000)
}

/// Whether slot `j` holds the live entity with the highest slot number among
/// those standing on `p`.
pub open spec fn top_live_at(entities: Seq<Entity>, p: Position, j: int) -> bool {
    &&& 0 <= j < entities.len()
    &&& entities[j].is_live()
    &&& entities[j].position == p
    &&& forall|k: int|
        j < k < entities.len() ==> !(#[trigger] entities[k].is_live() && entities[k].position == p)
}

/// The index of a full rebuild: every cell on which a live entity stands,
/// mapped to the highest slot of a live entity there. Wrecks get no entry.
pub open spec fn rebuilt_index(entities: Seq<Entity>) -> Map<Position, usize> {
    Map::new(
        |p: Position| exists|j: int| top_live_at(entities, p, j),
        |p: Position| (choose|j: int| top_live_at(entities, p, j)) as usize,
    )
}

/// At most one slot is the top live slot of a cell.
pub proof fn lemma_top_live_unique(entities: Seq<Entity>, p: Position, j: int, k: int)
    requires
        top_live_at(entities, p, j),
        top_live_at(entities, p, k),
    ensures
        j == k,
{
    if j < k {
        assert(entities[k].is_live());
    } else if k < j {
        assert(entities[j].is_live());
    }
}

/// A cell on which a live entity stands has a top live slot, at or above
/// that entity's slot.
pub proof fn lemma_top_live_exists(entities: Seq<Entity>, j: int) -> (t: int)
    requires
        0 <= j < entities.len(),
        entities[j].is_live(),
    ensures
        top_live_at(entities, entities[j].position, t),
        j <= t,
    decreases entities.len() - j,
{
    let p = entities[j].position;
    if exists|k: int|
        j < k < entities.len() && #[trigger] entities[k].is_live() && entities[k].position == p {
        let k = choose|k: int|
            j < k < entities.len() && #[trigger] entities[k].is_live() && entities[k].position
                == p;
        lemma_top_live_exists(entities, k)
    } else {
        j
    }
}

/// What a full rebuild records, cell by cell: a cell has an entry exactly
/// when a live entity stands on it, and the entry is the top live slot.
pub proof fn lemma_rebuilt_index_entries(entities: Seq<Entity>)
    requires
        entities.len() <= usize::MAX,
    ensures
        forall|p: Position| #[trigger]
            rebuilt_index(entities).contains_key(p) ==> top_live_at(
                entities,
                p,
                rebuilt_index(entities)[p] as int,
            ),
        forall|j: int|
            0 <= j < entities.len() && (#[trigger] entities[j]).is_live() ==> rebuilt_index(
                entities,
            ).contains_key(entities[j].position),
{
    assert forall|j: int|
        0 <= j < entities.len() && (#[trigger] entities[j]).is_live() implies rebuilt_index(
        entities,
    ).contains_key(entities[j].position) by {
        let t = lemma_top_live_exists(entities, j);
    }
}

/// Rebuilding over one more slot: a live entity takes over the entry of its
/// cell, a wreck leaves the index as it was.
pub proof fn lemma_rebuilt_index_next(entities: Seq<Entity>, n: int)
    requires
        0 <= n < entities.len(),
    ensures
        rebuilt_index(entities.take(n + 1)) == if entities[n].is_live() {
            rebuilt_index(entities.take(n)).insert(entities[n].position, n as usize)
        } else {
            rebuilt_index(entities.take(n))
        },
{
    let shorter = entities.take(n);
    let longer = entities.take(n + 1);
    let next = if entities[n].is_live() {
        rebuilt_index(shorter).insert(entities[n].position, n as usize)
    } else {
        rebuilt_index(shorter)
    };
    assert forall|p: Position, j: int|
        !(entities[n].is_live() && entities[n].position == p) implies (top_live_at(longer, p, j)
        <==> top_live_at(shorter, p, j)) by {
        if top_live_at(shorter, p, j) {
            assert forall|k: int| j < k < longer.len() implies !(#[trigger] longer[k].is_live()
                && longer[k].position == p) by {
                if k < n {
                    assert(shorter[k] == longer[k]);
                }
            }
        }
        if top_live_at(longer, p, j) {
            assert forall|k: int| j < k < shorter.len() implies !(#[trigger] shorter[k].is_live()
                && shorter[k].position == p) by {
                assert(shorter[k] == longer[k]);
            }
        }
    }
    assert forall|p: Position| rebuilt_index(longer).contains_key(p) == next.contains_key(p) by {
        if entities[n].is_live() && entities[n].position == p {
            assert(top_live_at(longer, p, n));
        } else if rebuilt_index(longer).contains_key(p) {
            let j = choose|j: int| top_live_at(longer, p, j);
            assert(top_live_at(shorter, p, j));
        } else if next.contains_key(p) {
            let j = choose|j: int| top_live_at(shorter, p, j);
            assert(top_live_at(longer, p, j));
        }
    }
    assert forall|p: Position| rebuilt_index(longer).contains_key(p) implies rebuilt_index(
        longer,
    )[p] == next[p] by {
        let j = choose|j: int| top_live_at(longer, p, j);
        if entities[n].is_live() && entities[n].position == p {
            assert(top_live_at(longer, p, n));
            lemma_top_live_unique(longer, p, j, n);
        } else {
            assert(top_live_at(shorter, p, j));
            let i = choose|i: int| top_live_at(shorter, p, i);
            assert(top_live_at(longer, p, i));
            lemma_top_live_unique(longer, p, j, i);
        }
    }
    assert(rebuilt_index(longer) =~= next);
}

/// A full rebuild has at most one entry per entity.
pub proof fn lemma_rebuilt_index_size(entities: Seq<Entity>)
    ensures
        rebuilt_index(entities).dom().finite(),
        rebuilt_index(entities).dom().len() <= entities.len(),
{
    let slots = set_int_range(0, entities.len() as int);
    let cell_of = |j: int| entities[j].position;
    lemma_int_range(0, entities.len() as int);
    lemma_map_size_bound(slots, slots.map(cell_of), cell_of);
    assert forall|p: Position| rebuilt_index(entities).dom().contains(p) implies slots.map(
        cell_of,
    ).contains(p) by {
        let j = choose|j: int| top_live_at(entities, p, j);
        assert(slots.contains(j) && cell_of(j) == p);
    }
    lemma_len_subset(rebuilt_index(entities).dom(), slots.map(cell_of));
}

/// A map from cells to the slot that owns them.
pub struct SpatialIndex {
    cells: HashMap<i64, usize>,
}

impl View for SpatialIndex {
    type V = Map<Position, usize>;

    closed spec fn view(&self) -> Map<Position, usize> {
        Map::new(
            |p: Position| self.cells@.contains_key(key_of(p) as i64),
            |p: Position| self.cells@[key_of(p) as i64],
        )
    }
}

impl SpatialIndex {
    /// Creates an index without entries.
    pub fn new() -> (index: SpatialIndex)
        ensures
            index@ == Map::<Position, usize>::empty(),
    {
        let index = SpatialIndex { cells: HashMap::new() };
        assert(index@ =~= Map::<Position, usize>::empty());
        index
    }

    /// Returns the slot recorded for the cell `(x, y)`, or `None` where the
    /// cell has no entry.
    pub fn occupant_at(&self, x: i32, y: i32) -> (slot: Option<usize>)
        ensures
            slot == (if self@.contains_key(Position { x, y }) {
                Some(self@[Position { x, y }])
            } else {
                None
            }),
    {
        let key: i64 = cell_key(x, y);
        match self.cells.get(&key) {
            Some(slot) => Some(*slot),
            None => None,
        }
    }

    /// Records `slot` as the owner of `position`. An entry that the cell
    /// already had is overwritten.
    pub fn insert(&mut self, position: Position, slot: usize)
        ensures
            final(self)@ == old(self)@.insert(position, slot),
    {
        let key: i64 = cell_key(position.x, position.y);
        self.cells.insert(key, slot);
        proof {
            assert forall|q: Position| key_of(q) == key_of(position) implies q == position by {
                lemma_key_of_injective(q, position);
            }
            assert(self@ =~= old(self)@.insert(position, slot));
        }
    }

    /// Clears the index and records every live entity under its cell, in
    /// slot order, so that where several stand on one cell the highest slot
    /// keeps the entry. Wrecks are left out.
    pub fn rebuild_full(&mut self, entities: &Vec<Entity>)
        ensures
            final(self)@ == rebuilt_index(entities@),
    {
        self.cells.clear();
        assert(self@ =~= rebuilt_index(entities@.take(0)));
        let mut i: usize = 0;
        while i < entities.len()
            invariant
                i <= entities.len(),
                self@ == rebuilt_index(entities@.take(i as int)),
            decreases entities.len() - i,
        {
            if entities[i].kind != EntityKind::Garbage {
                self.insert(entities[i].position, i);
            }
            proof {
                lemma_rebuilt_index_next(entities@, i as int);
            }
            i += 1;
        }
        assert(entities@.take(entities.len() as int) =~= entities@);
    }

    /// Drops the entry of `position`, if it has one.
    pub fn remove(&mut self, position: Position)
        ensures
            final(self)@ == old(self)@.remove(position),
    {
        let key: i64 = cell_key(position.x, position.y);
        self.cells.remove(&key);
        proof {
            assert forall|q: Position| key_of(q) == key_of(position) implies q == position by {
                lemma_key_of_injective(q, position);
            }
            assert(self@ =~= old(self)@.remove(position));
        }
    }
}

} // verus!
