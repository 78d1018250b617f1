use stacker::geom::Vec2i;
use stacker::item::{basic_pool, Item};

fn all_kinds() -> Vec<Item> {
    vec![
        Item::Rice,
        Item::SeaWeed,
        Item::Avocado,
        Item::Fish,
        Item::Water,
        Item::Dango,
        Item::Leaf,
        Item::Onigiri,
        Item::Maki,
        Item::Sushi,
        Item::DangoStick,
        Item::Tea,
        Item::MisoSoup,
        Item::MakiSushiTray,
        Item::DangoTeaPlate,
        Item::MakiSushiMisoTray,
        Item::Boat,
    ]
}

#[test]
fn item_can_combine() {
    let result = Item::can_combine(Item::Rice, Item::Fish);

    assert_eq!(result, Some(Item::Sushi));
    assert_eq!(result, Item::can_combine(Item::Fish, Item::Rice));
    //                                   ^ swapped items
}

#[test]
fn combine_fixtures() {
    assert_eq!(Item::can_combine(Item::Rice, Item::SeaWeed), Some(Item::Onigiri));
    assert_eq!(Item::can_combine(Item::Rice, Item::Fish), Some(Item::Sushi));
    assert_eq!(Item::can_combine(Item::Avocado, Item::Onigiri), Some(Item::Maki));
    assert_eq!(Item::can_combine(Item::Maki, Item::Sushi), Some(Item::MakiSushiTray));
    assert_eq!(Item::can_combine(Item::Rice, Item::Avocado), None);
}

#[test]
fn combine_full_table() {
    assert_eq!(Item::can_combine(Item::SeaWeed, Item::Water), Some(Item::MisoSoup));
    assert_eq!(Item::can_combine(Item::Water, Item::Leaf), Some(Item::Tea));
    assert_eq!(
        Item::can_combine(Item::MisoSoup, Item::MakiSushiTray),
        Some(Item::MakiSushiMisoTray)
    );
    assert_eq!(Item::can_combine(Item::Dango, Item::Dango), Some(Item::DangoStick));
    assert_eq!(Item::can_combine(Item::DangoStick, Item::Tea), Some(Item::DangoTeaPlate));
    assert_eq!(
        Item::can_combine(Item::DangoTeaPlate, Item::MakiSushiMisoTray),
        Some(Item::Boat)
    );
}

#[test]
fn combine_symmetric_all_pairs() {
    let kinds = all_kinds();
    for &a in &kinds {
        for &b in &kinds {
            assert_eq!(Item::can_combine(a, b), Item::can_combine(b, a));
        }
    }
}

#[test]
fn combine_deterministic() {
    let kinds = all_kinds();
    for &a in &kinds {
        for &b in &kinds {
            let first = Item::can_combine(a, b);
            let second = Item::can_combine(a, b);
            assert_eq!(first, second);
        }
    }
}

#[test]
fn terminal_pairs_never_combine() {
    let kinds = all_kinds();
    for &a in &kinds {
        assert_eq!(Item::can_combine(Item::Boat, a), None);
    }
}

#[test]
fn footprint_values() {
    assert_eq!(Item::Rice.footprint(), Vec2i { x: 750_000, y: 795_000 });
    assert_eq!(Item::Fish.footprint(), Vec2i { x: 975_000, y: 550_875 });
    assert_eq!(Item::Boat.footprint(), Vec2i { x: 3_919_500, y: 2_700_000 });
}

#[test]
fn collider_is_two_fifths_of_footprint() {
    for &k in &all_kinds() {
        let fp = k.footprint();
        let he = k.collider_half_extents();
        assert_eq!(5 * he.x, 2 * fp.x);
        assert_eq!(5 * he.y, 2 * fp.y);
    }
}

#[test]
fn basic_pool_weights() {
    let pool = basic_pool();
    assert_eq!(pool.len(), 11);
    let count = |k: Item| pool.iter().filter(|&&p| p == k).count();
    assert_eq!(count(Item::Rice), 2);
    assert_eq!(count(Item::SeaWeed), 2);
    assert_eq!(count(Item::Water), 2);
    assert_eq!(count(Item::Dango), 2);
    assert_eq!(count(Item::Avocado), 1);
    assert_eq!(count(Item::Fish), 1);
    assert_eq!(count(Item::Leaf), 1);
    assert_eq!(count(Item::Onigiri), 0);
    assert_eq!(count(Item::Boat), 0);
}

#[test]
fn is_terminal_only_for_boat() {
    for &k in &all_kinds() {
        assert_eq!(k.is_terminal(), k == Item::Boat);
    }
}
