use stacker::drag::PointerState;
use stacker::geom::{Vec2i, Velocity2};
use stacker::item::Item;
use stacker::merge::CollisionEvent;
use stacker::world::World;

fn still() -> Velocity2 {
    Velocity2 { linvel: Vec2i { x: 0, y: 0 }, angvel: 0 }
}

#[test]
fn dedup_processes_pair_once() {
    let mut w = World::new();
    let a = w.spawn_item(Item::Rice, Vec2i { x: 0, y: 0 }, still());
    let b = w.spawn_item(Item::SeaWeed, Vec2i { x: 100, y: 50 }, still());

    // The physics world reports the same contact twice, once from each
    // body's perspective.
    let events = vec![CollisionEvent::Started(a, b), CollisionEvent::Started(b, a)];
    let out = w.combine_items(&events);

    assert_eq!(w.items.len(), 1);
    assert_eq!(w.items[0].kind, Item::Onigiri);
    assert_eq!(out.cues, vec![Item::Onigiri]);
}

#[test]
fn merge_spawns_at_midpoint_with_zero_velocity() {
    let mut w = World::new();
    let a = w.spawn_item(Item::Rice, Vec2i { x: 0, y: 0 }, still());
    let b = w.spawn_item(Item::SeaWeed, Vec2i { x: 100, y: 50 }, still());

    w.combine_items(&vec![CollisionEvent::Started(a, b)]);

    assert_eq!(w.items.len(), 1);
    assert_eq!(w.items[0].pos, Vec2i { x: 50, y: 25 });
    assert_eq!(w.items[0].vel, still());
    // The combined item gets a fresh id.
    assert_eq!(w.items[0].id, 2);
}

#[test]
fn midpoint_rounds_toward_zero() {
    let mut w = World::new();
    let a = w.spawn_item(Item::Rice, Vec2i { x: 0, y: 0 }, still());
    let b = w.spawn_item(Item::SeaWeed, Vec2i { x: -5, y: -5 }, still());

    w.combine_items(&vec![CollisionEvent::Started(a, b)]);

    assert_eq!(w.items[0].pos, Vec2i { x: -2, y: -2 });
}

#[test]
fn merge_skips_pair_with_consumed_item() {
    let mut w = World::new();
    let a = w.spawn_item(Item::Rice, Vec2i { x: 0, y: 0 }, still());
    let b = w.spawn_item(Item::SeaWeed, Vec2i { x: 10, y: 0 }, still());
    let c = w.spawn_item(Item::Fish, Vec2i { x: 20, y: 0 }, still());

    // The first pair consumes `a`; the second pair references it and must be
    // skipped silently even though Rice and Fish would combine.
    let events = vec![CollisionEvent::Started(a, b), CollisionEvent::Started(a, c)];
    let out = w.combine_items(&events);

    assert_eq!(out.cues, vec![Item::Onigiri]);
    assert_eq!(w.items.len(), 2);
    assert_eq!(w.items[0].kind, Item::Fish);
    assert_eq!(w.items[1].kind, Item::Onigiri);
}

#[test]
fn no_combination_is_silent() {
    let mut w = World::new();
    let a = w.spawn_item(Item::Rice, Vec2i { x: 0, y: 0 }, still());
    let b = w.spawn_item(Item::Avocado, Vec2i { x: 10, y: 0 }, still());

    let out = w.combine_items(&vec![CollisionEvent::Started(a, b)]);

    assert_eq!(out.cues.len(), 0);
    assert!(!out.announced_win);
    assert_eq!(w.items.len(), 2);
}

#[test]
fn stopped_events_are_ignored() {
    let mut w = World::new();
    let a = w.spawn_item(Item::Rice, Vec2i { x: 0, y: 0 }, still());
    let b = w.spawn_item(Item::SeaWeed, Vec2i { x: 10, y: 0 }, still());

    let out = w.combine_items(&vec![CollisionEvent::Stopped(a, b)]);

    assert_eq!(out.cues.len(), 0);
    assert_eq!(w.items.len(), 2);
}

#[test]
fn held_reference_cleared_when_consumed() {
    let mut w = World::new();
    let a = w.spawn_item(Item::Rice, Vec2i { x: 0, y: 0 }, still());
    let b = w.spawn_item(Item::SeaWeed, Vec2i { x: 10, y: 0 }, still());
    w.grabbed = Some(a);

    w.combine_items(&vec![CollisionEvent::Started(a, b)]);

    assert_eq!(w.grabbed, None);
}

#[test]
fn held_reference_kept_when_not_consumed() {
    let mut w = World::new();
    let a = w.spawn_item(Item::Rice, Vec2i { x: 0, y: 0 }, still());
    let b = w.spawn_item(Item::SeaWeed, Vec2i { x: 10, y: 0 }, still());
    let c = w.spawn_item(Item::Fish, Vec2i { x: 500, y: 0 }, still());
    w.grabbed = Some(c);

    w.combine_items(&vec![CollisionEvent::Started(a, b)]);

    assert_eq!(w.grabbed, Some(c));
}

#[test]
fn win_announced_once() {
    let mut w = World::new();
    let a = w.spawn_item(Item::DangoTeaPlate, Vec2i { x: 0, y: 0 }, still());
    let b = w.spawn_item(Item::MakiSushiMisoTray, Vec2i { x: 10, y: 0 }, still());

    let first = w.combine_items(&vec![CollisionEvent::Started(a, b)]);
    assert!(first.announced_win);
    assert!(w.won);
    assert_eq!(first.cues, vec![Item::Boat]);

    // A second, independent merge chain produces the terminal item again:
    // the game stays won but the win is not re-announced.
    let c = w.spawn_item(Item::DangoTeaPlate, Vec2i { x: 0, y: 0 }, still());
    let d = w.spawn_item(Item::MakiSushiMisoTray, Vec2i { x: 10, y: 0 }, still());
    let second = w.combine_items(&vec![CollisionEvent::Started(c, d)]);

    assert!(!second.announced_win);
    assert!(w.won);
    assert_eq!(second.cues, vec![Item::Boat]);
}

#[test]
fn self_pair_never_merges() {
    let mut w = World::new();
    let a = w.spawn_item(Item::Dango, Vec2i { x: 0, y: 0 }, still());

    let out = w.combine_items(&vec![CollisionEvent::Started(a, a)]);

    assert_eq!(out.cues.len(), 0);
    assert_eq!(w.items.len(), 1);
}

#[test]
fn empty_event_list_changes_nothing() {
    let mut w = World::new();
    w.spawn_item(Item::Rice, Vec2i { x: 0, y: 0 }, still());

    let out = w.combine_items(&vec![]);

    assert_eq!(out.cues.len(), 0);
    assert!(!out.announced_win);
    assert_eq!(w.items.len(), 1);
}

#[test]
fn drag_after_merge_sees_cleared_reference() {
    let mut w = World::new();
    let a = w.spawn_item(Item::Rice, Vec2i { x: 0, y: 0 }, still());
    let b = w.spawn_item(Item::SeaWeed, Vec2i { x: 10, y: 0 }, still());

    // Pick up the rice with the pointer.
    w.drag_and_drop_item(PointerState {
        position: Vec2i { x: 0, y: 0 },
        just_pressed: true,
        just_released: false,
    });
    assert_eq!(w.grabbed, Some(a));

    // The merge engine consumes the held item; the reference is cleared
    // before anything reads it again.
    w.combine_items(&vec![CollisionEvent::Started(a, b)]);
    assert_eq!(w.grabbed, None);

    // The next drag tick observes the cleared reference: no chase, no cue,
    // no dangling access.
    let out = w.drag_and_drop_item(PointerState {
        position: Vec2i { x: 0, y: 0 },
        just_pressed: false,
        just_released: false,
    });
    assert_eq!(out.cue, None);
    assert_eq!(w.grabbed, None);
}

#[test]
fn two_dango_merge_into_stick() {
    let mut w = World::new();
    let a = w.spawn_item(Item::Dango, Vec2i { x: 0, y: 0 }, still());
    let b = w.spawn_item(Item::Dango, Vec2i { x: 10, y: 0 }, still());

    let out = w.combine_items(&vec![CollisionEvent::Started(a, b)]);

    assert_eq!(out.cues, vec![Item::DangoStick]);
    assert_eq!(w.items.len(), 1);
    assert_eq!(w.items[0].kind, Item::DangoStick);
}
