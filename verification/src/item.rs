//! The item taxonomy: the kinds an item can have, the weighted pool of basic
//! kinds the spawner draws from, each kind's footprint and collider size, and
//! the symmetric pairwise combination table.

use crate::geom::Vec2i;
use vstd::prelude::*;

verus! {

/// One tier/type of item, from basic ingredients up to the terminal boat.
#[derive(Debug, Clone, Copy, PartialEq, Eq, Structural)]
pub enum Item {
    // Basic
    Rice,
    SeaWeed,
    Avocado,
    Fish,
    Water,
    Dango,
    Leaf,
    // Level 1
    Onigiri,
    Maki,
    Sushi,
    DangoStick,
    Tea,
    MisoSoup,
    // Level 2
    MakiSushiTray,
    DangoTeaPlate,
    // Level 3
    MakiSushiMisoTray,
    // Level 4
    Boat,
}

/// Position of a kind in the total order used to normalize unordered pairs
/// (declaration order, basic kinds first, the terminal kind last).
pub open spec fn spec_rank(k: Item) -> int {
    match k {
        Item::Rice => 0,
        Item::SeaWeed => 1,
        Item::Avocado => 2,
        Item::Fish => 3,
        Item::Water => 4,
        Item::Dango => 5,
        Item::Leaf => 6,
        Item::Onigiri => 7,
        Item::Maki => 8,
        Item::Sushi => 9,
        Item::DangoStick => 10,
        Item::Tea => 11,
        Item::MisoSoup => 12,
        Item::MakiSushiTray => 13,
        Item::DangoTeaPlate => 14,
        Item::MakiSushiMisoTray => 15,
        Item::Boat => 16,
    }
}

/// The combination table over pairs already normalized by rank
/// (`spec_rank(lo) <= spec_rank(hi)`); every unlisted pair yields nothing.
pub open spec fn spec_combine_norm(lo: Item, hi: Item) -> Option<Item> {
    match (lo, hi) {
        (Item::Rice, Item::SeaWeed) => Some(Item::Onigiri),
        (Item::Rice, Item::Fish) => Some(Item::Sushi),
        (Item::Avocado, Item::Onigiri) => Some(Item::Maki),
        (Item::Maki, Item::Sushi) => Some(Item::MakiSushiTray),
        (Item::SeaWeed, Item::Water) => Some(Item::MisoSoup),
        (Item::Water, Item::Leaf) => Some(Item::Tea),
        (Item::MisoSoup, Item::MakiSushiTray) => Some(Item::MakiSushiMisoTray),
        (Item::Dango, Item::Dango) => Some(Item::DangoStick),
        (Item::DangoStick, Item::Tea) => Some(Item::DangoTeaPlate),
        (Item::DangoTeaPlate, Item::MakiSushiMisoTray) => Some(Item::Boat),
        _ => None,
    }
}

/// What combining two colliding items of these kinds produces, if anything.
/// Total and symmetric: the pair is normalized by rank before lookup.
pub open spec fn spec_combine(a: Item, b: Item) -> Option<Item> {
    if spec_rank(a) <= spec_rank(b) {
        spec_combine_norm(a, b)
    } else {
        spec_combine_norm(b, a)
    }
}

/// The terminal kind: producing it wins the game.
pub open spec fn spec_is_terminal(k: Item) -> bool {
    k == Item::Boat
}

/// Each kind's nominal sprite footprint (width, height) in coordinate units,
/// used both for visual scale and to size the collider.
pub open spec fn spec_footprint(k: Item) -> Vec2i {
    match k {
        Item::Rice => Vec2i { x: 750_000, y: 795_000 },
        Item::SeaWeed => Vec2i { x: 750_000, y: 697_500 },
        Item::Avocado => Vec2i { x: 750_000, y: 795_000 },
        Item::Fish => Vec2i { x: 975_000, y: 550_875 },
        Item::Water => Vec2i { x: 600_000, y: 714_000 },
        Item::Dango => Vec2i { x: 600_000, y: 522_000 },
        Item::Leaf => Vec2i { x: 750_000, y: 547_500 },
        Item::Onigiri => Vec2i { x: 900_000, y: 886_500 },
        Item::Maki => Vec2i { x: 900_000, y: 922_500 },
        Item::Sushi => Vec2i { x: 900_000, y: 810_000 },
        Item::DangoStick => Vec2i { x: 1_781_250, y: 562_500 },
        Item::Tea => Vec2i { x: 1_125_000, y: 804_375 },
        Item::MisoSoup => Vec2i { x: 900_000, y: 760_500 },
        Item::MakiSushiTray => Vec2i { x: 1_950_000, y: 1_638_000 },
        Item::DangoTeaPlate => Vec2i { x: 1_500_000, y: 1_087_500 },
        Item::MakiSushiMisoTray => Vec2i { x: 2_062_500, y: 1_500_000 },
        Item::Boat => Vec2i { x: 3_919_500, y: 2_700_000 },
    }
}

/// The half-extents of a kind's axis-aligned box collider: two fifths of the
/// footprint on each axis (the collider box spans four fifths of the sprite).
pub open spec fn spec_collider_half_extents(k: Item) -> Vec2i {
    Vec2i { x: (spec_footprint(k).x * 2 / 5) as i64, y: (spec_footprint(k).y * 2 / 5) as i64 }
}

/// The weighted pool of basic kinds the spawner draws from; a kind listed
/// twice is twice as likely to spawn.
pub open spec fn spec_basic_pool() -> Seq<Item> {
    seq![
        Item::Rice,
        Item::SeaWeed,
        Item::Water,
        Item::Dango,
        Item::Rice,
        Item::SeaWeed,
        Item::Water,
        Item::Dango,
        Item::Avocado,
        Item::Fish,
        Item::Leaf,
    ]
}

impl Item {
    /// The rank of this kind in the normalization order.
    pub fn rank(self) -> (r: u8)
        ensures
            r == spec_rank(self),
    {
        match self {
            Item::Rice => 0,
            Item::SeaWeed => 1,
            Item::Avocado => 2,
            Item::Fish => 3,
            Item::Water => 4,
            Item::Dango => 5,
            Item::Leaf => 6,
            Item::Onigiri => 7,
            Item::Maki => 8,
            Item::Sushi => 9,
            Item::DangoStick => 10,
            Item::Tea => 11,
            Item::MisoSoup => 12,
            Item::MakiSushiTray => 13,
            Item::DangoTeaPlate => 14,
            Item::MakiSushiMisoTray => 15,
            Item::Boat => 16,
        }
    }

    /// Looks an unordered pair of kinds up in the combination table.
    /// Returns the combined kind, or `None` when the pair has no rule.
    pub fn can_combine(item1: Self, item2: Self) -> (r: Option<Self>)
        ensures
            r == spec_combine(item1, item2),
    {
        let (lo, hi) = if item1.rank() <= item2.rank() {
            (item1, item2)
        } else {
            (item2, item1)
        };
        match (lo, hi) {
            (Item::Rice, Item::SeaWeed) => Some(Item::Onigiri),
            (Item::Rice, Item::Fish) => Some(Item::Sushi),
            (Item::Avocado, Item::Onigiri) => Some(Item::Maki),
            (Item::Maki, Item::Sushi) => Some(Item::MakiSushiTray),
            (Item::SeaWeed, Item::Water) => Some(Item::MisoSoup),
            (Item::Water, Item::Leaf) => Some(Item::Tea),
            (Item::MisoSoup, Item::MakiSushiTray) => Some(Item::MakiSushiMisoTray),
            (Item::Dango, Item::Dango) => Some(Item::DangoStick),
            (Item::DangoStick, Item::Tea) => Some(Item::DangoTeaPlate),
            (Item::DangoTeaPlate, Item::MakiSushiMisoTray) => Some(Item::Boat),
            _ => None,
        }
    }

    /// Whether this is the terminal kind, whose production wins the game.
    pub fn is_terminal(self) -> (r: bool)
        ensures
            r == spec_is_terminal(self),
    {
        matches!(self, Item::Boat)
    }

    /// This kind's nominal sprite footprint (width, height).
    pub fn footprint(self) -> (r: Vec2i)
        ensures
            r == spec_footprint(self),
    {
        match self {
            Item::Rice => Vec2i { x: 750_000, y: 795_000 },
            Item::SeaWeed => Vec2i { x: 750_000, y: 697_500 },
            Item::Avocado => Vec2i { x: 750_000, y: 795_000 },
            Item::Fish => Vec2i { x: 975_000, y: 550_875 },
            Item::Water => Vec2i { x: 600_000, y: 714_000 },
            Item::Dango => Vec2i { x: 600_000, y: 522_000 },
            Item::Leaf => Vec2i { x: 750_000, y: 547_500 },
            Item::Onigiri => Vec2i { x: 900_000, y: 886_500 },
            Item::Maki => Vec2i { x: 900_000, y: 922_500 },
            Item::Sushi => Vec2i { x: 900_000, y: 810_000 },
            Item::DangoStick => Vec2i { x: 1_781_250, y: 562_500 },
            Item::Tea => Vec2i { x: 1_125_000, y: 804_375 },
            Item::MisoSoup => Vec2i { x: 900_000, y: 760_500 },
            Item::MakiSushiTray => Vec2i { x: 1_950_000, y: 1_638_000 },
            Item::DangoTeaPlate => Vec2i { x: 1_500_000, y: 1_087_500 },
            Item::MakiSushiMisoTray => Vec2i { x: 2_062_500, y: 1_500_000 },
            Item::Boat => Vec2i { x: 3_919_500, y: 2_700_000 },
        }
    }

    /// The half-extents of this kind's axis-aligned box collider.
    pub fn collider_half_extents(self) -> (r: Vec2i)
        ensures
            r == spec_collider_half_extents(self),
    {
        let fp = self.footprint();
        Vec2i { x: fp.x / 5 * 2, y: fp.y / 5 * 2 }
    }
}

/// The weighted pool of basic kinds, as a vector the spawner can index.
pub fn basic_pool() -> (r: Vec<Item>)
    ensures
        r@ == spec_basic_pool(),
{
    let mut v: Vec<Item> = Vec::new();
    v.push(Item::Rice);
    v.push(Item::SeaWeed);
    v.push(Item::Water);
    v.push(Item::Dango);
    v.push(Item::Rice);
    v.push(Item::SeaWeed);
    v.push(Item::Water);
    v.push(Item::Dango);
    v.push(Item::Avocado);
    v.push(Item::Fish);
    v.push(Item::Leaf);
    proof {
        assert(v@ =~= spec_basic_pool());
    }
    v
}

/// Ranks identify kinds: no two kinds share a rank.
pub proof fn lemma_rank_injective(a: Item, b: Item)
    ensures
        spec_rank(a) == spec_rank(b) ==> a == b,
{
}

/// Combination symmetry: the combination table does not depend on the order
/// of the colliding pair.
pub proof fn lemma_combine_symmetric(a: Item, b: Item)
    ensures
        spec_combine(a, b) == spec_combine(b, a),
{
    lemma_rank_injective(a, b);
}

/// Monotonic progression: a combination always produces a kind of strictly
/// higher rank than both of its inputs.
pub proof fn lemma_combine_monotonic(a: Item, b: Item, c: Item)
    requires
        spec_combine(a, b) == Some(c),
    ensures
        spec_rank(c) > spec_rank(a),
        spec_rank(c) > spec_rank(b),
{
}

/// A kind produced by a combination is never itself in the basic spawn pool.
pub proof fn lemma_combined_not_basic(a: Item, b: Item, c: Item)
    requires
        spec_combine(a, b) == Some(c),
    ensures
        !spec_basic_pool().contains(c),
{
    assert forall|i: int| 0 <= i < spec_basic_pool().len() implies spec_basic_pool()[i] != c by {
        assert(spec_rank(spec_basic_pool()[i]) <= 6);
        assert(spec_rank(c) >= 7);
    }
}

/// Every kind in the basic spawn pool has a footprint, a collider and a rank
/// below every combined kind; in particular the pool never holds the terminal
/// kind.
pub proof fn lemma_basic_pool_not_terminal()
    ensures
        forall|i: int|
            0 <= i < spec_basic_pool().len() ==> !spec_is_terminal(#[trigger] spec_basic_pool()[i]),
{
}

} // verus!
