//! The spawner: a repeating countdown timer that, each time it fires, drops
//! one random basic item just outside a random side of the visible play
//! area, with a random inward-and-upward velocity and a random spin.

use crate::geom::{Vec2i, Velocity2};
use crate::item::{basic_pool, spec_basic_pool, Item};
use crate::rng::rand_range;
use crate::world::World;
use vstd::prelude::*;

verus! {

/// The spawner's fixed period (one drop every three seconds).
pub const SPAWN_PERIOD_MS: u64 = 3_000;

/// Half the width of the visible play area (the window is 800 pixels wide).
pub const VISIBLE_HALF_WIDTH: i64 = 4_000_000;

/// How far from the center a new item appears: strictly outside the visible
/// play area (450 pixels, against a 400 pixel half-width).
pub const SPAWN_EDGE_X: i64 = 4_500_000;

/// New items appear at a random height in `[0, SPAWN_Y_MAX)` (0 to 300
/// pixels above the center).
pub const SPAWN_Y_MAX: i64 = 3_000_000;

/// The random launch speed lies in `[SPAWN_SPEED_MIN, SPAWN_SPEED_MAX)`
/// (150 to 200 pixels/s), applied inward on x and upward on y.
pub const SPAWN_SPEED_MIN: i64 = 1_500_000;

/// See `SPAWN_SPEED_MIN`.
pub const SPAWN_SPEED_MAX: i64 = 2_000_000;

/// The random initial spin lies in `[-SPAWN_SPIN_MAX, SPAWN_SPIN_MAX)`
/// (5 radians/s either way, in milliradians/s).
pub const SPAWN_SPIN_MAX: i64 = 5_000;

/// The repeating spawn timer: counts `remaining_ms` down each tick and
/// resets to the full period on firing, regardless of how full the board is
/// (spawning has no backpressure).
pub struct Spawner {
    pub period_ms: u64,
    pub remaining_ms: u64,
}

impl Spawner {
    /// A positive period, with no more than a full period outstanding.
    pub open spec fn wf(self) -> bool {
        0 < self.remaining_ms <= self.period_ms
    }

    /// A fresh timer with a full period to run.
    pub fn new(period_ms: u64) -> (r: Spawner)
        requires
            period_ms > 0,
        ensures
            r.wf(),
            r.period_ms == period_ms,
            r.remaining_ms == period_ms,
    {
        Spawner { period_ms, remaining_ms: period_ms }
    }
}

/// One tick of the spawner: runs the timer down by `dt_ms` and, exactly when
/// it elapses, spawns one random basic item at a random edge position with
/// an inward and upward velocity, returning its kind. The new item sits
/// strictly outside the visible play area and its horizontal velocity points
/// back toward the center (its sign is opposite the spawn side's).
pub fn spawn_incoming_items(world: &mut World, spawner: &mut Spawner, dt_ms: u64) -> (r: Option<
    Item,
>)
    requires
        old(world).wf(),
        old(spawner).wf(),
        old(world)@.next_id < u64::MAX,
    ensures
        final(world).wf(),
        final(spawner).wf(),
        final(spawner).period_ms == old(spawner).period_ms,
        r is Some <==> dt_ms >= old(spawner).remaining_ms,
        r is None ==> final(world)@ == old(world)@ && final(spawner).remaining_ms == old(
            spawner,
        ).remaining_ms - dt_ms,
        r matches Some(kind) ==> {
            let e = final(world)@.items.last();
            &&& final(spawner).remaining_ms == old(spawner).period_ms
            &&& final(world)@.items == old(world)@.items.push(e)
            &&& final(world)@.next_id == old(world)@.next_id + 1
            &&& final(world)@.grabbed == old(world)@.grabbed
            &&& final(world)@.won == old(world)@.won
            &&& e.id == old(world)@.next_id
            &&& e.kind == kind
            &&& spec_basic_pool().contains(e.kind)
            &&& (e.pos.x == SPAWN_EDGE_X || e.pos.x == -SPAWN_EDGE_X)
            &&& (e.pos.x > VISIBLE_HALF_WIDTH || e.pos.x < -VISIBLE_HALF_WIDTH)
            &&& 0 <= e.pos.y < SPAWN_Y_MAX
            &&& SPAWN_SPEED_MIN <= e.vel.linvel.y < SPAWN_SPEED_MAX
            &&& (e.pos.x > 0 ==> e.vel.linvel.x == -e.vel.linvel.y)
            &&& (e.pos.x < 0 ==> e.vel.linvel.x == e.vel.linvel.y)
            &&& (e.pos.x > 0 ==> e.vel.linvel.x < 0)
            &&& (e.pos.x < 0 ==> e.vel.linvel.x > 0)
            &&& -SPAWN_SPIN_MAX <= e.vel.angvel < SPAWN_SPIN_MAX
        },
{
    if dt_ms < spawner.remaining_ms {
        spawner.remaining_ms = spawner.remaining_ms - dt_ms;
        return None;
    }
    spawner.remaining_ms = spawner.period_ms;

    let pool = basic_pool();
    let idx = rand_range(0, 11);
    let kind = pool[idx as usize];
    assert(spec_basic_pool().contains(kind)) by {
        assert(spec_basic_pool()[idx as int] == kind);
    }

    let side = rand_range(0, 2);
    let y = rand_range(0, SPAWN_Y_MAX);
    let speed = rand_range(SPAWN_SPEED_MIN, SPAWN_SPEED_MAX);
    let spin = rand_range(-SPAWN_SPIN_MAX, SPAWN_SPIN_MAX);

    let pos = Vec2i { x: if side == 0 { -SPAWN_EDGE_X } else { SPAWN_EDGE_X }, y };
    let vel = Velocity2 {
        linvel: Vec2i { x: if side == 0 { speed } else { -speed }, y: speed },
        angvel: spin,
    };
    world.spawn_item(kind, pos, vel);
    Some(kind)
}

} // verus!
