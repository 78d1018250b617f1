use stacker::drag::{PointerState, THROW_CAP};
use stacker::geom::{clamp_linear_speed, isqrt, Vec2i, Velocity2};
use stacker::item::Item;
use stacker::world::World;

fn still() -> Velocity2 {
    Velocity2 { linvel: Vec2i { x: 0, y: 0 }, angvel: 0 }
}

fn pointer(x: i64, y: i64, pressed: bool, released: bool) -> PointerState {
    PointerState { position: Vec2i { x, y }, just_pressed: pressed, just_released: released }
}

#[test]
fn press_picks_item_under_pointer() {
    let mut w = World::new();
    let a = w.spawn_item(
        Item::Rice,
        Vec2i { x: 0, y: 0 },
        Velocity2 { linvel: Vec2i { x: 0, y: 0 }, angvel: 1000 },
    );

    let out = w.drag_and_drop_item(pointer(10_000, 20_000, true, false));

    assert_eq!(w.grabbed, Some(a));
    assert_eq!(out.cue, Some(Item::Rice));
    // The held item's velocity chases the pointer with gain 10 and its spin
    // decays to nine tenths.
    assert_eq!(w.items[0].vel.linvel, Vec2i { x: 100_000, y: 200_000 });
    assert_eq!(w.items[0].vel.angvel, 900);
}

#[test]
fn press_misses_when_pointer_outside_all_colliders() {
    let mut w = World::new();
    w.spawn_item(Item::Rice, Vec2i { x: 0, y: 0 }, still());

    // Rice's collider half-extents are (300000, 318000).
    let out = w.drag_and_drop_item(pointer(400_000, 0, true, false));

    assert_eq!(w.grabbed, None);
    assert_eq!(out.cue, None);
}

#[test]
fn press_picks_first_item_in_iteration_order() {
    let mut w = World::new();
    let a = w.spawn_item(Item::Rice, Vec2i { x: 0, y: 0 }, still());
    let _b = w.spawn_item(Item::SeaWeed, Vec2i { x: 0, y: 0 }, still());

    let out = w.drag_and_drop_item(pointer(0, 0, true, false));

    assert_eq!(w.grabbed, Some(a));
    assert_eq!(out.cue, Some(Item::Rice));
}

#[test]
fn held_item_chases_without_new_press() {
    let mut w = World::new();
    let a = w.spawn_item(Item::Rice, Vec2i { x: 100, y: 200 }, still());
    w.grabbed = Some(a);

    let out = w.drag_and_drop_item(pointer(1_100, 2_200, false, false));

    assert_eq!(w.grabbed, Some(a));
    assert_eq!(out.cue, None);
    assert_eq!(w.items[0].vel.linvel, Vec2i { x: 10_000, y: 20_000 });
}

#[test]
fn release_caps_throw_speed() {
    let mut w = World::new();
    let a = w.spawn_item(Item::Rice, Vec2i { x: 0, y: 0 }, still());
    w.grabbed = Some(a);
    // Give the held item a chase velocity far above the cap.
    w.sync_body(
        a,
        Vec2i { x: 0, y: 0 },
        Velocity2 { linvel: Vec2i { x: 2_000_000_000, y: 0 }, angvel: 0 },
    );

    w.drag_and_drop_item(pointer(0, 0, false, true));

    assert_eq!(w.grabbed, None);
    let v = w.items[0].vel.linvel;
    assert!(v.x * v.x + v.y * v.y <= THROW_CAP * THROW_CAP);
    // Direction is preserved; the magnitude lands just under the cap.
    assert_eq!(v, Vec2i { x: 4_999_999, y: 0 });
}

#[test]
fn release_under_cap_leaves_velocity_unchanged() {
    let mut w = World::new();
    let a = w.spawn_item(
        Item::Rice,
        Vec2i { x: 0, y: 0 },
        Velocity2 { linvel: Vec2i { x: 1_000, y: -2_000 }, angvel: 50 },
    );
    w.grabbed = Some(a);

    let out = w.drag_and_drop_item(pointer(500_000, 0, false, true));

    assert_eq!(w.grabbed, None);
    assert_eq!(out.cue, None);
    assert_eq!(w.items[0].vel.linvel, Vec2i { x: 1_000, y: -2_000 });
    assert_eq!(w.items[0].vel.angvel, 50);
}

#[test]
fn release_with_nothing_held_is_a_no_op() {
    let mut w = World::new();
    w.spawn_item(Item::Rice, Vec2i { x: 0, y: 0 }, still());

    let out = w.drag_and_drop_item(pointer(0, 0, false, true));

    assert_eq!(out.cue, None);
    assert_eq!(w.grabbed, None);
    assert_eq!(w.items[0].vel.linvel, Vec2i { x: 0, y: 0 });
}

#[test]
fn release_takes_precedence_over_press() {
    let mut w = World::new();
    let a = w.spawn_item(Item::Rice, Vec2i { x: 0, y: 0 }, still());
    w.grabbed = Some(a);

    // Released and pressed in the same tick: release handling runs first and
    // ends the tick, so nothing is picked.
    let out = w.drag_and_drop_item(pointer(0, 0, true, true));

    assert_eq!(w.grabbed, None);
    assert_eq!(out.cue, None);
}

#[test]
fn clamp_scales_direction_exactly() {
    // |v| = 5000 with cap 500: scaled by 500 / 5001.
    let v = Vec2i { x: 3_000, y: 4_000 };
    let r = clamp_linear_speed(v, 500);
    assert_eq!(r, Vec2i { x: 299, y: 399 });
    assert!(r.x * r.x + r.y * r.y <= 500 * 500);

    // |v| = 500 exactly: already within the cap, unchanged.
    let w = Vec2i { x: 300, y: 400 };
    assert_eq!(clamp_linear_speed(w, 500), w);

    // Negative components keep their sign.
    let n = Vec2i { x: -3_000, y: 4_000 };
    let rn = clamp_linear_speed(n, 500);
    assert_eq!(rn, Vec2i { x: -299, y: 399 });
}

#[test]
fn isqrt_exact_values() {
    assert_eq!(isqrt(0), 0);
    assert_eq!(isqrt(1), 1);
    assert_eq!(isqrt(15), 3);
    assert_eq!(isqrt(16), 4);
    assert_eq!(isqrt(4_000_000_000_000_000_000), 2_000_000_000);
    assert_eq!(isqrt(u64::MAX), 4_294_967_295);
}
