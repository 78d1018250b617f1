//! The drag controller: on pointer release, caps the held item's throw speed
//! and drops it; on pointer press, picks the first live item whose collider
//! contains the pointer and plays its cue; while an item is held, overrides
//! its linear velocity to chase the pointer and damps its spin.

use crate::geom::{
    clamp_linear_speed, spec_clamp_linear, spec_scale_toward_zero, spec_speed_sq, Vec2i,
    Velocity2,
};
use crate::item::{spec_collider_half_extents, Item};
use crate::world::{
    lemma_idx_of_unique, spec_has_id, spec_idx_of, ItemEntity, World, WorldModel,
};
use vstd::prelude::*;

verus! {

/// The maximum linear speed an item may keep when thrown (500 pixels/s).
pub const THROW_CAP: i64 = 5_000_000;

/// The spring gain chasing the pointer: held velocity is
/// `(pointer - position) * CHASE_GAIN` per tick.
pub const CHASE_GAIN: i64 = 10;

/// Angular velocity decays to `ANG_DECAY_NUM / ANG_DECAY_DEN` of itself each
/// tick while the item is held.
pub const ANG_DECAY_NUM: i64 = 9;

/// See `ANG_DECAY_NUM`.
pub const ANG_DECAY_DEN: i64 = 10;

/// The pointer input sampled once per tick: world-space position and
/// edge-triggered button flags for the primary button.
#[derive(Debug, Clone, Copy, PartialEq, Eq, Structural)]
pub struct PointerState {
    pub position: Vec2i,
    pub just_pressed: bool,
    pub just_released: bool,
}

/// What one drag tick hands back to the driver: the kind whose pick cue
/// plays this tick, if an item was just picked.
pub struct DragOutcome {
    pub cue: Option<Item>,
}

/// Whether the point lies inside the item's axis-aligned collider box.
pub open spec fn spec_contains_point(e: ItemEntity, p: Vec2i) -> bool {
    let he = spec_collider_half_extents(e.kind);
    &&& -he.x <= p.x - e.pos.x <= he.x
    &&& -he.y <= p.y - e.pos.y <= he.y
}

/// The id of the first live item, in iteration order, whose collider
/// contains the point; the pick made on pointer press.
pub open spec fn spec_pick(items: Seq<ItemEntity>, p: Vec2i) -> Option<u64>
    decreases items.len(),
{
    if items.len() == 0 {
        None
    } else if spec_contains_point(items[0], p) {
        Some(items[0].id)
    } else {
        spec_pick(items.drop_first(), p)
    }
}

/// The velocity of a held item: linear velocity chases the pointer with gain
/// `CHASE_GAIN`, angular velocity decays by `ANG_DECAY_NUM / ANG_DECAY_DEN`.
pub open spec fn spec_chase_velocity(e: ItemEntity, pointer: Vec2i) -> Velocity2 {
    Velocity2 {
        linvel: Vec2i {
            x: ((pointer.x - e.pos.x) * CHASE_GAIN) as i64,
            y: ((pointer.y - e.pos.y) * CHASE_GAIN) as i64,
        },
        angvel: spec_scale_toward_zero(
            e.vel.angvel as int,
            ANG_DECAY_NUM as int,
            ANG_DECAY_DEN as int,
        ) as i64,
    }
}

/// One drag tick as a function of the state and the pointer input: the next
/// state and the cue to play. Release handling comes first and ends the
/// tick; otherwise a press picks an item, and a held item (new or carried
/// over) is driven toward the pointer.
pub open spec fn spec_drag_tick(m: WorldModel, ptr: PointerState) -> (WorldModel, Option<Item>) {
    if ptr.just_released {
        match m.grabbed {
            Some(h) => {
                let i = spec_idx_of(m.items, h);
                let e = m.items[i];
                let e2 = ItemEntity {
                    id: e.id,
                    kind: e.kind,
                    pos: e.pos,
                    vel: Velocity2 {
                        linvel: spec_clamp_linear(e.vel.linvel, THROW_CAP),
                        angvel: e.vel.angvel,
                    },
                };
                (
                    WorldModel {
                        items: m.items.update(i, e2),
                        grabbed: None,
                        next_id: m.next_id,
                        won: m.won,
                    },
                    None,
                )
            },
            None => (m, None),
        }
    } else {
        let g = if ptr.just_pressed {
            spec_pick(m.items, ptr.position)
        } else {
            m.grabbed
        };
        let cue = if ptr.just_pressed {
            match g {
                Some(h) => Some(m.items[spec_idx_of(m.items, h)].kind),
                None => None,
            }
        } else {
            None
        };
        match g {
            Some(h) => {
                let i = spec_idx_of(m.items, h);
                let e = m.items[i];
                let e2 = ItemEntity {
                    id: e.id,
                    kind: e.kind,
                    pos: e.pos,
                    vel: spec_chase_velocity(e, ptr.position),
                };
                (
                    WorldModel {
                        items: m.items.update(i, e2),
                        grabbed: g,
                        next_id: m.next_id,
                        won: m.won,
                    },
                    cue,
                )
            },
            None => (
                WorldModel { items: m.items, grabbed: g, next_id: m.next_id, won: m.won },
                cue,
            ),
        }
    }
}

/// Whether the pointer at `p` hits this item's collider.
fn contains_point(e: &ItemEntity, p: Vec2i) -> (r: bool)
    requires
        -crate::COORD_LIMIT <= e.pos.x <= crate::COORD_LIMIT,
        -crate::COORD_LIMIT <= e.pos.y <= crate::COORD_LIMIT,
        -crate::COORD_LIMIT <= p.x <= crate::COORD_LIMIT,
        -crate::COORD_LIMIT <= p.y <= crate::COORD_LIMIT,
    ensures
        r == spec_contains_point(*e, p),
{
    let he = e.kind.collider_half_extents();
    let dx = p.x - e.pos.x;
    let dy = p.y - e.pos.y;
    -he.x <= dx && dx <= he.x && -he.y <= dy && dy <= he.y
}

/// The hit test on pointer press: scans the live items in iteration order
/// and picks the first whose collider contains the pointer.
fn pick_item(world: &World, p: Vec2i) -> (r: Option<u64>)
    requires
        world.wf(),
        -crate::COORD_LIMIT <= p.x <= crate::COORD_LIMIT,
        -crate::COORD_LIMIT <= p.y <= crate::COORD_LIMIT,
    ensures
        r == spec_pick(world@.items, p),
        r matches Some(id) ==> spec_has_id(world@.items, id),
{
    let ghost items = world@.items;
    let n = world.items.len();
    let mut i: usize = 0;
    proof {
        assert(items.skip(0) =~= items);
    }
    while i < n
        invariant
            world.wf(),
            items == world@.items,
            n == items.len(),
            i <= n,
            spec_pick(items, p) == spec_pick(items.skip(i as int), p),
            -crate::COORD_LIMIT <= p.x <= crate::COORD_LIMIT,
            -crate::COORD_LIMIT <= p.y <= crate::COORD_LIMIT,
        decreases n - i,
    {
        proof {
            assert(items.skip(i as int)[0] == items[i as int]);
        }
        let e = world.items[i];
        if contains_point(&e, p) {
            assert(spec_pick(items.skip(i as int), p) == Some(e.id));
            assert(spec_has_id(items, e.id));
            return Some(e.id);
        }
        proof {
            assert(items.skip(i as int).drop_first() =~= items.skip(i as int + 1));
        }
        i = i + 1;
    }
    proof {
        assert(items.skip(n as int) =~= Seq::<ItemEntity>::empty());
    }
    None
}

/// The damped angular velocity of a held item.
fn decay_angvel(a: i64) -> (r: i64)
    requires
        -crate::ANG_LIMIT <= a <= crate::ANG_LIMIT,
    ensures
        r == spec_scale_toward_zero(a as int, ANG_DECAY_NUM as int, ANG_DECAY_DEN as int),
        -crate::ANG_LIMIT <= r <= crate::ANG_LIMIT,
{
    if a >= 0 {
        a * ANG_DECAY_NUM / ANG_DECAY_DEN
    } else {
        -((-a) * ANG_DECAY_NUM / ANG_DECAY_DEN)
    }
}

impl World {
    /// One tick of the drag controller, in the order the game runs it:
    /// release first (cap the throw speed and drop the item, ending the
    /// tick), then press (pick the first item under the pointer and play its
    /// cue), then the pointer chase of whatever item is held. The throw cap
    /// guarantees a released item never keeps a linear speed above
    /// `THROW_CAP`.
    pub fn drag_and_drop_item(&mut self, pointer: PointerState) -> (r: DragOutcome)
        requires
            old(self).wf(),
            -crate::COORD_LIMIT <= pointer.position.x <= crate::COORD_LIMIT,
            -crate::COORD_LIMIT <= pointer.position.y <= crate::COORD_LIMIT,
        ensures
            final(self).wf(),
            (final(self)@, r.cue) == spec_drag_tick(old(self)@, pointer),
            pointer.just_released ==> (old(self)@.grabbed matches Some(h) ==> spec_speed_sq(
                final(self)@.items[spec_idx_of(old(self)@.items, h)].vel.linvel,
            ) <= THROW_CAP * THROW_CAP),
            final(self)@.grabbed matches Some(h) ==> spec_has_id(final(self)@.items, h),
    {
        if pointer.just_released {
            let held = self.grabbed;
            match held {
                Some(h) => {
                    // The merge engine clears the reference whenever it
                    // consumes the held item, so the id is always live here.
                    let i = match self.find_index(h) {
                        Some(i) => i,
                        None => vstd::pervasive::unreached(),
                    };
                    proof {
                        lemma_idx_of_unique(self.items@, h, i as int);
                    }
                    let e = self.items[i];
                    let capped = clamp_linear_speed(e.vel.linvel, THROW_CAP);
                    proof {
                        assert(-5_000_000 <= capped.x <= 5_000_000 && -5_000_000 <= capped.y
                            <= 5_000_000) by (nonlinear_arith)
                            requires
                                capped.x * capped.x + capped.y * capped.y
                                    <= 25_000_000_000_000i64,
                        ;
                    }
                    let e2 = ItemEntity {
                        id: e.id,
                        kind: e.kind,
                        pos: e.pos,
                        vel: Velocity2 { linvel: capped, angvel: e.vel.angvel },
                    };
                    self.items.set(i, e2);
                    self.grabbed = None;
                    proof {
                        lemma_update_same_id_wf(old(self)@, self@, i as int);
                    }
                    DragOutcome { cue: None }
                },
                None => DragOutcome { cue: None },
            }
        } else {
            let mut cue: Option<Item> = None;
            if pointer.just_pressed {
                let picked = pick_item(self, pointer.position);
                self.grabbed = picked;
                match picked {
                    Some(h) => {
                        let i = match self.find_index(h) {
                            Some(i) => i,
                            None => vstd::pervasive::unreached(),
                        };
                        proof {
                            lemma_idx_of_unique(self.items@, h, i as int);
                        }
                        cue = Some(self.items[i].kind);
                    },
                    None => {},
                }
            }
            let held = self.grabbed;
            match held {
                Some(h) => {
                    let i = match self.find_index(h) {
                        Some(i) => i,
                        None => vstd::pervasive::unreached(),
                    };
                    proof {
                        lemma_idx_of_unique(self.items@, h, i as int);
                    }
                    let e = self.items[i];
                    let vx = (pointer.position.x - e.pos.x) * CHASE_GAIN;
                    let vy = (pointer.position.y - e.pos.y) * CHASE_GAIN;
                    let e2 = ItemEntity {
                        id: e.id,
                        kind: e.kind,
                        pos: e.pos,
                        vel: Velocity2 {
                            linvel: Vec2i { x: vx, y: vy },
                            angvel: decay_angvel(e.vel.angvel),
                        },
                    };
                    self.items.set(i, e2);
                    proof {
                        lemma_update_same_id_wf(old(self)@, self@, i as int);
                    }
                    DragOutcome { cue }
                },
                None => DragOutcome { cue },
            }
        }
    }
}

/// Updating one item in place (same id, bounded transform and velocity)
/// keeps the state well-formed and every id lookup unchanged.
proof fn lemma_update_same_id_wf(m: WorldModel, after: WorldModel, i: int)
    requires
        m.wf(),
        0 <= i < m.items.len(),
        after.items.len() == m.items.len(),
        after.items == m.items.update(i, after.items[i]),
        after.items[i].id == m.items[i].id,
        crate::world::spec_entity_wf(after.items[i]),
        after.next_id == m.next_id,
        after.grabbed matches Some(h) ==> spec_has_id(m.items, h),
    ensures
        after.wf(),
{
    assert(forall|j: int| 0 <= j < m.items.len() && j != i ==> after.items[j] == m.items[j]);
    match after.grabbed {
        Some(h) => {
            let w = spec_idx_of(m.items, h);
            assert(m.items[w].id == h);
            assert(after.items[w].id == h);
        },
        None => {},
    }
}

} // verus!
