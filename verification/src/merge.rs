//! The merge engine: drains a tick's collision events, normalizes and
//! deduplicates the unordered pairs, and for each distinct pair of live items
//! whose kinds combine, atomically replaces the two items with the combined
//! item at their midpoint, clearing the held reference when it pointed at a
//! consumed item and raising the one-shot win flag on the terminal kind.

use crate::geom::{spec_midpoint, Vec2i, Velocity2};
use crate::item::{spec_combine, spec_is_terminal, Item};
use crate::world::{
    lemma_idx_of_unique, spec_has_id, spec_idx_of, ItemEntity, World, WorldModel,
};
use vstd::prelude::*;
use vstd::seq_lib::*;

verus! {

/// A collision event reported by the physics world for one tick. Only
/// `Started` events drive merging; `Stopped` events are discarded.
#[derive(Debug, Clone, Copy, PartialEq, Eq, Structural)]
pub enum CollisionEvent {
    Started(u64, u64),
    Stopped(u64, u64),
}

/// An unordered id pair in canonical order (smaller id first).
pub open spec fn spec_norm_pair(a: u64, b: u64) -> (u64, u64) {
    if a <= b {
        (a, b)
    } else {
        (b, a)
    }
}

/// Whether an event is a collision start of exactly this canonical pair.
pub open spec fn spec_event_starts_pair(e: CollisionEvent, p: (u64, u64)) -> bool {
    e matches CollisionEvent::Started(a, b) && spec_norm_pair(a, b) == p
}

/// The distinct canonical pairs of the tick's collision-start events, in
/// order of first report; collision-end events are dropped.
pub open spec fn spec_normalize(evs: Seq<CollisionEvent>) -> Seq<(u64, u64)>
    decreases evs.len(),
{
    if evs.len() == 0 {
        Seq::empty()
    } else {
        let prev = spec_normalize(evs.drop_last());
        match evs.last() {
            CollisionEvent::Started(a, b) => {
                let p = spec_norm_pair(a, b);
                if prev.contains(p) {
                    prev
                } else {
                    prev.push(p)
                }
            },
            CollisionEvent::Stopped(_, _) => prev,
        }
    }
}

/// Normalization never lengthens the event list.
pub proof fn lemma_normalize_len(evs: Seq<CollisionEvent>)
    ensures
        spec_normalize(evs).len() <= evs.len(),
    decreases evs.len(),
{
    if evs.len() > 0 {
        lemma_normalize_len(evs.drop_last());
    }
}

/// Deduplication: the normalized pair list holds no pair twice, and holds a
/// pair exactly when some collision-start event reported it, in either order.
pub proof fn lemma_normalize_dedup(evs: Seq<CollisionEvent>)
    ensures
        forall|i: int, j: int|
            0 <= i < j < spec_normalize(evs).len() ==> #[trigger] spec_normalize(evs)[i] != (
            #[trigger] spec_normalize(evs)[j]),
        forall|p: (u64, u64)|
            #[trigger] spec_normalize(evs).contains(p) <==> exists|k: int|
                0 <= k < evs.len() && spec_event_starts_pair(#[trigger] evs[k], p),
    decreases evs.len(),
{
    if evs.len() == 0 {
        assert forall|p: (u64, u64)| !spec_normalize(evs).contains(p) by {
            assert(spec_normalize(evs).len() == 0);
        }
    } else {
        let head = evs.drop_last();
        lemma_normalize_dedup(head);
        let prev = spec_normalize(head);
        let cur = spec_normalize(evs);
        assert forall|p: (u64, u64)| #[trigger] cur.contains(p) implies exists|k: int|
            0 <= k < evs.len() && spec_event_starts_pair(#[trigger] evs[k], p) by {
            if prev.contains(p) {
                let k = choose|k: int|
                    0 <= k < head.len() && spec_event_starts_pair(#[trigger] head[k], p);
                assert(evs[k] == head[k]);
                assert(spec_event_starts_pair(evs[k], p));
            } else {
                let i = choose|i: int| 0 <= i < cur.len() && cur[i] == p;
                assert(i == cur.len() - 1);
                assert(spec_event_starts_pair(evs[evs.len() - 1], p));
            }
        }
        assert forall|p: (u64, u64)|
            (exists|k: int|
                0 <= k < evs.len() && spec_event_starts_pair(#[trigger] evs[k], p)) implies (
        #[trigger] cur.contains(p)) by {
            let k = choose|k: int| 0 <= k < evs.len() && spec_event_starts_pair(#[trigger] evs[k], p);
            if k < evs.len() - 1 {
                assert(head[k] == evs[k]);
                assert(prev.contains(p));
                let i = choose|i: int| 0 <= i < prev.len() && prev[i] == p;
                assert(cur[i] == p);
            } else {
                match evs.last() {
                    CollisionEvent::Started(a, b) => {
                        if prev.contains(p) {
                            let i = choose|i: int| 0 <= i < prev.len() && prev[i] == p;
                            assert(cur[i] == p);
                        } else {
                            assert(cur[cur.len() - 1] == p);
                        }
                    },
                    CollisionEvent::Stopped(_, _) => {},
                }
            }
        }
    }
}

/// Whether a pair list already holds this pair.
fn contains_pair(pairs: &Vec<(u64, u64)>, p: (u64, u64)) -> (r: bool)
    ensures
        r == pairs@.contains(p),
{
    let n = pairs.len();
    let mut i: usize = 0;
    while i < n
        invariant
            n == pairs@.len(),
            i <= n,
            forall|j: int| 0 <= j < i ==> #[trigger] pairs@[j] != p,
        decreases n - i,
    {
        let q = pairs[i];
        if q.0 == p.0 && q.1 == p.1 {
            assert(pairs@[i as int] == p);
            return true;
        }
        i = i + 1;
    }
    false
}

/// Normalizes each collision-start event's unordered pair to canonical order
/// and drops duplicates (the physics world may report one contact twice) and
/// collision-end events.
pub fn normalize_collisions(events: &Vec<CollisionEvent>) -> (pairs: Vec<(u64, u64)>)
    ensures
        pairs@ == spec_normalize(events@),
{
    let n = events.len();
    let mut pairs: Vec<(u64, u64)> = Vec::new();
    let mut k: usize = 0;
    while k < n
        invariant
            n == events@.len(),
            k <= n,
            pairs@ == spec_normalize(events@.take(k as int)),
        decreases n - k,
    {
        proof {
            assert(events@.take(k as int + 1).drop_last() =~= events@.take(k as int));
            assert(events@.take(k as int + 1).last() == events@[k as int]);
        }
        match events[k] {
            CollisionEvent::Started(a, b) => {
                let p = if a <= b {
                    (a, b)
                } else {
                    (b, a)
                };
                if !contains_pair(&pairs, p) {
                    pairs.push(p);
                }
            },
            CollisionEvent::Stopped(_, _) => {},
        }
        k = k + 1;
    }
    proof {
        assert(events@.take(n as int) =~= events@);
    }
    pairs
}

/// The kind a pair produces in the given state: the combination of the two
/// items' kinds when both ids are live and distinct, nothing otherwise (a
/// missing id means an earlier pair of the same tick already consumed the
/// item, which is silently skipped — first writer wins).
pub open spec fn spec_step_produced(m: WorldModel, a: u64, b: u64) -> Option<Item> {
    if a != b && spec_has_id(m.items, a) && spec_has_id(m.items, b) {
        spec_combine(
            m.items[spec_idx_of(m.items, a)].kind,
            m.items[spec_idx_of(m.items, b)].kind,
        )
    } else {
        None
    }
}

/// The state after processing one canonical pair: when the pair merges, both
/// input items are removed, the combined item is appended with a fresh id at
/// the midpoint of the consumed items with zero velocity, the held reference
/// is cleared if it pointed at a consumed item, and the win flag is raised if
/// the terminal kind was produced; otherwise the state is unchanged.
pub open spec fn spec_step_pair(m: WorldModel, a: u64, b: u64) -> WorldModel {
    match spec_step_produced(m, a, b) {
        Some(c) => {
            let ia = spec_idx_of(m.items, a);
            let ib = spec_idx_of(m.items, b);
            let ea = m.items[ia];
            let eb = m.items[ib];
            let lo = if ia < ib {
                ia
            } else {
                ib
            };
            let hi = if ia < ib {
                ib
            } else {
                ia
            };
            let spawned = ItemEntity {
                id: m.next_id,
                kind: c,
                pos: spec_midpoint(ea.pos, eb.pos),
                vel: Velocity2 { linvel: Vec2i { x: 0, y: 0 }, angvel: 0 },
            };
            WorldModel {
                items: m.items.remove(hi).remove(lo).push(spawned),
                grabbed: if m.grabbed == Some(a) || m.grabbed == Some(b) {
                    None
                } else {
                    m.grabbed
                },
                next_id: (m.next_id + 1) as u64,
                won: m.won || spec_is_terminal(c),
            }
        },
        None => m,
    }
}

/// The state after processing a whole tick's pair list, front to back.
pub open spec fn spec_run_pairs(m: WorldModel, pairs: Seq<(u64, u64)>) -> WorldModel
    decreases pairs.len(),
{
    if pairs.len() == 0 {
        m
    } else {
        spec_run_pairs(spec_step_pair(m, pairs[0].0, pairs[0].1), pairs.drop_first())
    }
}

/// The kinds produced over a whole tick's pair list, in processing order:
/// each one's cue sound is played once.
pub open spec fn spec_run_cues(m: WorldModel, pairs: Seq<(u64, u64)>) -> Seq<Item>
    decreases pairs.len(),
{
    if pairs.len() == 0 {
        Seq::empty()
    } else {
        let head: Seq<Item> = match spec_step_produced(m, pairs[0].0, pairs[0].1) {
            Some(c) => seq![c],
            None => Seq::empty(),
        };
        head + spec_run_cues(spec_step_pair(m, pairs[0].0, pairs[0].1), pairs.drop_first())
    }
}

/// The one-shot win flag is monotonic: once won, every further merge keeps
/// the game won.
pub proof fn lemma_won_monotonic(m: WorldModel, pairs: Seq<(u64, u64)>)
    requires
        m.won,
    ensures
        spec_run_pairs(m, pairs).won,
    decreases pairs.len(),
{
    if pairs.len() > 0 {
        lemma_won_monotonic(spec_step_pair(m, pairs[0].0, pairs[0].1), pairs.drop_first());
    }
}

/// Processes one canonical pair: resolves both ids, looks the kinds up in
/// the combination table, and on a hit replaces the two items by the
/// combined one (see `spec_step_pair`). Returns the produced kind, if any.
fn merge_pair(world: &mut World, a: u64, b: u64) -> (produced: Option<Item>)
    requires
        old(world).wf(),
        old(world)@.next_id < u64::MAX,
    ensures
        final(world).wf(),
        final(world)@ == spec_step_pair(old(world)@, a, b),
        produced == spec_step_produced(old(world)@, a, b),
        final(world)@.next_id <= old(world)@.next_id + 1,
{
    if a == b {
        return None;
    }
    let oa = world.find_index(a);
    let ob = world.find_index(b);
    let (ia, ib) = match (oa, ob) {
        (Some(ia), Some(ib)) => (ia, ib),
        _ => {
            return None;
        },
    };
    proof {
        lemma_idx_of_unique(world.items@, a, ia as int);
        lemma_idx_of_unique(world.items@, b, ib as int);
    }
    let ea = world.items[ia];
    let eb = world.items[ib];
    let c = match Item::can_combine(ea.kind, eb.kind) {
        Some(c) => c,
        None => {
            return None;
        },
    };
    let ghost prev = world.items@;

    // Clear the held reference before any despawn, so no later reader of the
    // tick can see a dangling id.
    match world.grabbed {
        Some(h) => {
            if h == a || h == b {
                world.grabbed = None;
            }
        },
        None => {},
    }

    // Despawn both inputs, higher index first so the lower stays valid.
    let lo = if ia < ib {
        ia
    } else {
        ib
    };
    let hi = if ia < ib {
        ib
    } else {
        ia
    };
    world.items.remove(hi);
    world.items.remove(lo);
    proof {
        prev.remove_ensures(hi as int);
        prev.remove(hi as int).remove_ensures(lo as int);
        lemma_removed_two_wf(old(world)@, world@, lo as int, hi as int);
    }

    // Spawn the combined item at the midpoint of the consumed pair.
    let mx = crate::geom::half_toward_zero(ea.pos.x + eb.pos.x);
    let my = crate::geom::half_toward_zero(ea.pos.y + eb.pos.y);
    let pos = Vec2i { x: mx, y: my };
    assert(pos == spec_midpoint(ea.pos, eb.pos));
    let vel = Velocity2::zero();
    assert(vel == (Velocity2 { linvel: Vec2i { x: 0, y: 0 }, angvel: 0 }));
    world.spawn_item(c, pos, vel);
    if c.is_terminal() {
        world.won = true;
    }
    proof {
        assert(final(world)@.items =~= spec_step_pair(old(world)@, a, b).items);
        assert(final(world)@ == spec_step_pair(old(world)@, a, b));
    }
    Some(c)
}

/// After removing two distinct indices from a well-formed state (held
/// reference possibly cleared), the intermediate state is well-formed again
/// provided the held id was not one of the removed items' ids.
proof fn lemma_removed_two_wf(m: WorldModel, after: WorldModel, lo: int, hi: int)
    requires
        m.wf(),
        0 <= lo < hi < m.items.len(),
        after.items == m.items.remove(hi).remove(lo),
        after.next_id == m.next_id,
        after.won == m.won,
        after.grabbed matches Some(h)
            ==> m.grabbed == Some(h) && h != m.items[lo].id && h != m.items[hi].id,
    ensures
        after.wf(),
{
    m.items.remove_ensures(hi);
    m.items.remove(hi).remove_ensures(lo);
    let s = after.items;
    assert(forall|j: int|
        0 <= j < s.len() ==> #[trigger] s[j] == m.items[spec_orig_index(j, lo, hi)]
            && 0 <= spec_orig_index(j, lo, hi) < m.items.len());
    assert forall|p: int, q: int| 0 <= p < q < s.len() implies (#[trigger] s[p]).id != (
    #[trigger] s[q]).id by {
        assert(spec_orig_index(p, lo, hi) < spec_orig_index(q, lo, hi));
    }
    match after.grabbed {
        Some(h) => {
            let w = spec_idx_of(m.items, h);
            assert(m.items[w].id == h);
            assert(w != lo && w != hi);
            let w2 = if w < lo {
                w
            } else if w < hi {
                w - 1
            } else {
                w - 2
            };
            assert(spec_orig_index(w2, lo, hi) == w);
            assert(s[w2].id == h);
        },
        None => {},
    }
}

/// Where an index of `items.remove(hi).remove(lo)` came from in `items`
/// (for `lo < hi`).
spec fn spec_orig_index(j: int, lo: int, hi: int) -> int {
    if j < lo {
        j
    } else if j + 1 < hi {
        j + 1
    } else {
        j + 2
    }
}

/// What one merge tick hands back to the driver: the kinds whose cue sounds
/// play (one per merge, in order), and whether the win was announced this
/// tick (true exactly on the tick the terminal item is first produced).
pub struct MergeOutcome {
    pub cues: Vec<Item>,
    pub announced_win: bool,
}

impl World {
    /// One tick of the merge engine: deduplicates the tick's collision-start
    /// events and processes each distinct pair once, in order of first
    /// report (see `spec_run_pairs`). The held reference is never left
    /// dangling, and the win flag, once set, stays set and is announced only
    /// once.
    pub fn combine_items(&mut self, events: &Vec<CollisionEvent>) -> (r: MergeOutcome)
        requires
            old(self).wf(),
            old(self)@.next_id + events@.len() <= u64::MAX,
        ensures
            final(self).wf(),
            final(self)@ == spec_run_pairs(old(self)@, spec_normalize(events@)),
            r.cues@ == spec_run_cues(old(self)@, spec_normalize(events@)),
            r.announced_win == (!old(self)@.won && final(self)@.won),
            old(self)@.won ==> final(self)@.won,
            final(self)@.grabbed matches Some(h) ==> spec_has_id(final(self)@.items, h),
    {
        let pairs = normalize_collisions(events);
        proof {
            lemma_normalize_len(events@);
        }
        let won_before = self.won;
        let mut cues: Vec<Item> = Vec::new();
        let ghost m0 = self@;
        let ghost ps = spec_normalize(events@);
        let n = pairs.len();
        let mut k: usize = 0;
        proof {
            assert(ps.skip(0) =~= ps);
            assert(cues@ + spec_run_cues(m0, ps) =~= spec_run_cues(m0, ps));
        }
        while k < n
            invariant
                self.wf(),
                pairs@ == ps,
                n == ps.len(),
                k <= n,
                self@.next_id + (n - k) <= u64::MAX,
                spec_run_pairs(m0, ps) == spec_run_pairs(self@, ps.skip(k as int)),
                spec_run_cues(m0, ps) == cues@ + spec_run_cues(self@, ps.skip(k as int)),
                m0.won ==> self@.won,
                won_before == m0.won,
            decreases n - k,
        {
            let ghost wpre = self@;
            let ghost rest = ps.skip(k as int);
            let ghost cues_pre = cues@;
            let p = pairs[k];
            let produced = merge_pair(self, p.0, p.1);
            match produced {
                Some(c) => {
                    cues.push(c);
                },
                None => {},
            }
            proof {
                assert(rest.drop_first() =~= ps.skip(k as int + 1));
                assert(rest[0] == ps[k as int]);
                assert(spec_run_pairs(wpre, rest) == spec_run_pairs(self@, rest.drop_first()));
                let head: Seq<Item> = match spec_step_produced(wpre, p.0, p.1) {
                    Some(c) => seq![c],
                    None => Seq::empty(),
                };
                assert(spec_run_cues(wpre, rest) == head + spec_run_cues(
                    self@,
                    rest.drop_first(),
                ));
                assert(cues@ =~= cues_pre + head);
                assert(cues_pre + (head + spec_run_cues(self@, rest.drop_first())) =~= (cues_pre
                    + head) + spec_run_cues(self@, rest.drop_first()));
            }
            k = k + 1;
        }
        proof {
            assert(ps.skip(n as int) =~= Seq::<(u64, u64)>::empty());
        }
        let announced = !won_before && self.won;
        MergeOutcome { cues, announced_win: announced }
    }
}

} // verus!
