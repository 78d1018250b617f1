//! The live entity set and shared game state: item entities with their kind,
//! position and velocity, the held-item reference, the id counter, and the
//! one-shot win flag, together with the state's well-formedness invariant and
//! the shared spawn operation used by both the spawner and the merge engine.

use crate::geom::{Vec2i, Velocity2};
use crate::item::Item;
use vstd::prelude::*;

verus! {

/// A live physics-bound item: an opaque id, its kind, and the transform and
/// velocity last synchronized from the physics world.
#[derive(Debug, Clone, Copy, PartialEq, Eq, Structural)]
pub struct ItemEntity {
    pub id: u64,
    pub kind: Item,
    pub pos: Vec2i,
    pub vel: Velocity2,
}

/// The mathematical model of the game state, used by every contract.
pub struct WorldModel {
    /// The live items, in spawn order.
    pub items: Seq<ItemEntity>,
    /// The id of the item currently captured by the pointer, if any.
    pub grabbed: Option<u64>,
    /// The id the next spawned item will get.
    pub next_id: u64,
    /// Whether the terminal item has been produced (a one-shot flag).
    pub won: bool,
}

/// The game state owned by this crate: the physics world owns the
/// authoritative transforms, which the driver synchronizes into `items`
/// before each tick of game logic.
pub struct World {
    pub items: Vec<ItemEntity>,
    pub grabbed: Option<u64>,
    pub next_id: u64,
    pub won: bool,
}

impl View for World {
    type V = WorldModel;

    open spec fn view(&self) -> WorldModel {
        WorldModel {
            items: self.items@,
            grabbed: self.grabbed,
            next_id: self.next_id,
            won: self.won,
        }
    }
}

/// An entity's coordinates and velocities stay within the fixed world bounds.
pub open spec fn spec_entity_wf(e: ItemEntity) -> bool {
    &&& -crate::COORD_LIMIT <= e.pos.x <= crate::COORD_LIMIT
    &&& -crate::COORD_LIMIT <= e.pos.y <= crate::COORD_LIMIT
    &&& -crate::VEL_LIMIT <= e.vel.linvel.x <= crate::VEL_LIMIT
    &&& -crate::VEL_LIMIT <= e.vel.linvel.y <= crate::VEL_LIMIT
    &&& -crate::ANG_LIMIT <= e.vel.angvel <= crate::ANG_LIMIT
}

/// Whether some live item carries this id.
pub open spec fn spec_has_id(items: Seq<ItemEntity>, id: u64) -> bool {
    exists|i: int| 0 <= i < items.len() && (#[trigger] items[i]).id == id
}

/// The index of the live item carrying this id (unique under `wf`).
pub open spec fn spec_idx_of(items: Seq<ItemEntity>, id: u64) -> int {
    choose|i: int| 0 <= i < items.len() && (#[trigger] items[i]).id == id
}

impl WorldModel {
    /// Well-formedness: ids are unique and below the id counter, every
    /// entity is within the world bounds, and the held reference (when set)
    /// points at a live item.
    pub open spec fn wf(self) -> bool {
        &&& forall|i: int|
            0 <= i < self.items.len() ==> (#[trigger] self.items[i]).id < self.next_id
                && spec_entity_wf(self.items[i])
        &&& forall|i: int, j: int|
            0 <= i < j < self.items.len() ==> (#[trigger] self.items[i]).id != (
            #[trigger] self.items[j]).id
        &&& self.grabbed matches Some(h) ==> spec_has_id(self.items, h)
    }
}

/// Under unique ids, any index holding `id` is the one `spec_idx_of` picks.
pub proof fn lemma_idx_of_unique(items: Seq<ItemEntity>, id: u64, i: int)
    requires
        forall|p: int, q: int|
            0 <= p < q < items.len() ==> (#[trigger] items[p]).id != (#[trigger] items[q]).id,
        0 <= i < items.len(),
        items[i].id == id,
    ensures
        spec_has_id(items, id),
        spec_idx_of(items, id) == i,
{
    assert(spec_has_id(items, id));
    let j = spec_idx_of(items, id);
    if j < i {
        assert(items[j].id != items[i].id);
    } else if j > i {
        assert(items[i].id != items[j].id);
    }
}

impl World {
    /// Well-formedness of the executable state (see `WorldModel::wf`).
    pub open spec fn wf(self) -> bool {
        self@.wf()
    }

    /// An empty board: no items, nothing held, the game not yet won.
    pub fn new() -> (r: World)
        ensures
            r.wf(),
            r@.items.len() == 0,
            r@.grabbed is None,
            r@.next_id == 0,
            !r@.won,
    {
        World { items: Vec::new(), grabbed: None, next_id: 0, won: false }
    }

    /// The shared spawn operation: appends one live item with a fresh id and
    /// the given kind, position and velocity, and returns its id. Used by the
    /// spawner (basic kinds) and by the merge engine (combined kinds).
    pub fn spawn_item(&mut self, kind: Item, pos: Vec2i, vel: Velocity2) -> (id: u64)
        requires
            old(self).wf(),
            old(self)@.next_id < u64::MAX,
            -crate::COORD_LIMIT <= pos.x <= crate::COORD_LIMIT,
            -crate::COORD_LIMIT <= pos.y <= crate::COORD_LIMIT,
            -crate::VEL_LIMIT <= vel.linvel.x <= crate::VEL_LIMIT,
            -crate::VEL_LIMIT <= vel.linvel.y <= crate::VEL_LIMIT,
            -crate::ANG_LIMIT <= vel.angvel <= crate::ANG_LIMIT,
        ensures
            final(self).wf(),
            id == old(self)@.next_id,
            final(self)@.items == old(self)@.items.push(ItemEntity { id, kind, pos, vel }),
            final(self)@.next_id == old(self)@.next_id + 1,
            final(self)@.grabbed == old(self)@.grabbed,
            final(self)@.won == old(self)@.won,
    {
        let id = self.next_id;
        self.next_id = self.next_id + 1;
        self.items.push(ItemEntity { id, kind, pos, vel });
        proof {
            let items = self.items@;
            let prev = old(self).items@;
            assert(forall|i: int| 0 <= i < prev.len() ==> items[i] == prev[i]);
            match old(self).grabbed {
                Some(h) => {
                    let w = spec_idx_of(prev, h);
                    assert(items[w].id == h);
                },
                None => {},
            }
        }
        id
    }

    /// Finds the index of the live item carrying `id`, scanning in spawn
    /// order; `None` exactly when no live item has that id.
    pub fn find_index(&self, id: u64) -> (r: Option<usize>)
        ensures
            match r {
                Some(i) => i < self@.items.len() && self@.items[i as int].id == id,
                None => !spec_has_id(self@.items, id),
            },
    {
        let n = self.items.len();
        let mut i: usize = 0;
        while i < n
            invariant
                n == self@.items.len(),
                i <= n,
                forall|j: int| 0 <= j < i ==> (#[trigger] self@.items[j]).id != id,
            decreases n - i,
        {
            if self.items[i].id == id {
                return Some(i);
            }
            i = i + 1;
        }
        None
    }

    /// Synchronizes one item's transform and velocity from the physics
    /// world. Returns whether an item with that id is live.
    pub fn sync_body(&mut self, id: u64, pos: Vec2i, vel: Velocity2) -> (found: bool)
        requires
            old(self).wf(),
            -crate::COORD_LIMIT <= pos.x <= crate::COORD_LIMIT,
            -crate::COORD_LIMIT <= pos.y <= crate::COORD_LIMIT,
            -crate::VEL_LIMIT <= vel.linvel.x <= crate::VEL_LIMIT,
            -crate::VEL_LIMIT <= vel.linvel.y <= crate::VEL_LIMIT,
            -crate::ANG_LIMIT <= vel.angvel <= crate::ANG_LIMIT,
        ensures
            final(self).wf(),
            found == spec_has_id(old(self)@.items, id),
            found ==> {
                let i = spec_idx_of(old(self)@.items, id);
                let e = old(self)@.items[i];
                final(self)@.items == old(self)@.items.update(
                    i,
                    ItemEntity { id: e.id, kind: e.kind, pos, vel },
                )
            },
            !found ==> final(self)@.items == old(self)@.items,
            final(self)@.grabbed == old(self)@.grabbed,
            final(self)@.next_id == old(self)@.next_id,
            final(self)@.won == old(self)@.won,
    {
        match self.find_index(id) {
            Some(i) => {
                proof {
                    lemma_idx_of_unique(self.items@, id, i as int);
                }
                let e = self.items[i];
                self.items.set(i, ItemEntity { id: e.id, kind: e.kind, pos, vel });
                proof {
                    let items = self.items@;
                    let prev = old(self).items@;
                    assert(forall|j: int|
                        0 <= j < prev.len() && j != i ==> items[j] == prev[j]);
                    match old(self).grabbed {
                        Some(h) => {
                            let w = spec_idx_of(prev, h);
                            assert(items[w].id == h);
                        },
                        None => {},
                    }
                }
                true
            },
            None => false,
        }
    }
}

} // verus!
