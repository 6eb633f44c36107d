use vstd::prelude::*;

verus! {

/// The 10 distinct ecological zones in the LAU game world.
#[derive(Debug, Clone, Copy, PartialEq, Eq, Hash, Structural)]
pub enum Biome {
    Meadow,
    Forest,
    Desert,
    Tundra,
    Ocean,
    Volcano,
    CrystalCaves,
    FloatingIslands,
    MushroomGrove,
    AncientRuins,
}

/// Raw materials that can be found in biomes.
#[derive(Debug, Clone, Copy, PartialEq, Eq, Hash, Structural)]
pub enum Material {
    Wood,
    Stone,
    Crystal,
    Sand,
    Ice,
    Lava,
    Mushroom,
    AncientMetal,
    CloudStuff,
    Seaweed,
}

/// The ten biomes in their canonical order.
pub open spec fn all_biomes() -> Seq<Biome> {
    seq![
        Biome::Meadow,
        Biome::Forest,
        Biome::Desert,
        Biome::Tundra,
        Biome::Ocean,
        Biome::Volcano,
        Biome::CrystalCaves,
        Biome::FloatingIslands,
        Biome::MushroomGrove,
        Biome::AncientRuins,
    ]
}

/// The position of a biome in the canonical order (its discriminant).
pub open spec fn biome_index(b: Biome) -> nat {
    match b {
        Biome::Meadow => 0,
        Biome::Forest => 1,
        Biome::Desert => 2,
        Biome::Tundra => 3,
        Biome::Ocean => 4,
        Biome::Volcano => 5,
        Biome::CrystalCaves => 6,
        Biome::FloatingIslands => 7,
        Biome::MushroomGrove => 8,
        Biome::AncientRuins => 9,
    }
}

/// Every biome sits in the canonical order at its own index, and the order
/// holds each biome once.
pub proof fn lemma_all_biomes_index(b: Biome)
    ensures
        biome_index(b) < 10,
        all_biomes().len() == 10,
        all_biomes()[biome_index(b) as int] == b,
        forall|i: int| 0 <= i < 10 ==> biome_index(#[trigger] all_biomes()[i]) == i,
{
}

/// The canonical order is the order in which the biomes are declared,
/// Meadow first and Ancient Ruins last, and a biome's index is its place
/// in that order (its discriminant): noise layer 3 is Tundra, layer 5 is
/// Volcano.
pub proof fn lemma_canonical_order_is_declaration_order()
    ensures
        all_biomes() == seq![
            Biome::Meadow,
            Biome::Forest,
            Biome::Desert,
            Biome::Tundra,
            Biome::Ocean,
            Biome::Volcano,
            Biome::CrystalCaves,
            Biome::FloatingIslands,
            Biome::MushroomGrove,
            Biome::AncientRuins,
        ],
        forall|b: Biome|
            #![trigger biome_index(b)]
            seq![
                Biome::Meadow,
                Biome::Forest,
                Biome::Desert,
                Biome::Tundra,
                Biome::Ocean,
                Biome::Volcano,
                Biome::CrystalCaves,
                Biome::FloatingIslands,
                Biome::MushroomGrove,
                Biome::AncientRuins,
            ][biome_index(b) as int] == b,
{
    assert(all_biomes() =~= seq![
        Biome::Meadow,
        Biome::Forest,
        Biome::Desert,
        Biome::Tundra,
        Biome::Ocean,
        Biome::Volcano,
        Biome::CrystalCaves,
        Biome::FloatingIslands,
        Biome::MushroomGrove,
        Biome::AncientRuins,
    ]);
}

impl Biome {
    /// Return all biome variants.
    pub fn all() -> (r: [Biome; 10])
        ensures
            r@ == all_biomes(),
    {
        let r = [
            Biome::Meadow,
            Biome::Forest,
            Biome::Desert,
            Biome::Tundra,
            Biome::Ocean,
            Biome::Volcano,
            Biome::CrystalCaves,
            Biome::FloatingIslands,
            Biome::MushroomGrove,
            Biome::AncientRuins,
        ];
        assert(r@ =~= all_biomes());
        r
    }

    /// The biome at position `i` of the canonical order.
    pub fn from_index(i: usize) -> (b: Biome)
        requires
            i < 10,
        ensures
            b == all_biomes()[i as int],
            biome_index(b) == i,
    {
        match i {
            0 => Biome::Meadow,
            1 => Biome::Forest,
            2 => Biome::Desert,
            3 => Biome::Tundra,
            4 => Biome::Ocean,
            5 => Biome::Volcano,
            6 => Biome::CrystalCaves,
            7 => Biome::FloatingIslands,
            8 => Biome::MushroomGrove,
            _ => Biome::AncientRuins,
        }
    }

    /// The position of this biome in the canonical order.
    pub fn index(self) -> (i: usize)
        ensures
            i == biome_index(self),
            i < 10,
    {
        match self {
            Biome::Meadow => 0,
            Biome::Forest => 1,
            Biome::Desert => 2,
            Biome::Tundra => 3,
            Biome::Ocean => 4,
            Biome::Volcano => 5,
            Biome::CrystalCaves => 6,
            Biome::FloatingIslands => 7,
            Biome::MushroomGrove => 8,
            Biome::AncientRuins => 9,
        }
    }
}

} // verus!
