use vstd::prelude::*;

use crate::biome::{Biome, Material};

verus! {

/// The set of properties that define a biome's character.
///
/// The numeric properties are decimal fractions, held exactly as whole
/// hundredths: `60` stands for 0.6 and `-20` for -0.2.
#[derive(Debug, Clone, PartialEq, Eq)]
pub struct BiomeProperties {
    pub temperature: i32,
    pub humidity: i32,
    pub base_vibe: i32,
    pub growth_rate: i32,
    pub max_biodiversity: i32,
    pub available_materials: Vec<Material>,
}

/// Associates a biome with its properties and world-generation settings.
/// The rates are whole hundredths, like the numeric properties.
#[derive(Debug, Clone, PartialEq, Eq)]
pub struct BiomeRule {
    pub biome: Biome,
    pub properties: BiomeProperties,
    /// How often agents naturally spawn in this biome (0 – 100 hundredths).
    pub spawn_rate: u32,
    /// How tightly conservation rules are enforced: 50 = relaxed, 100 = strict.
    pub conservation_strictness: u32,
}

/// Describes an ecotone zone between two adjacent biomes.
#[derive(Debug, Clone, Copy, PartialEq, Eq, Structural)]
pub struct BiomeTransition {
    pub from: Biome,
    pub to: Biome,
    /// Number of tiles the transition spans.
    pub width: usize,
}

/// `v` held to `lo..=hi`.
pub open spec fn clamp(v: int, lo: int, hi: int) -> int {
    if v < lo {
        lo
    } else if v > hi {
        hi
    } else {
        v
    }
}

/// The canonical numeric properties of a biome, in hundredths: temperature,
/// humidity, base vibe, growth rate and maximal biodiversity.
pub open spec fn canonical_numbers(b: Biome) -> (int, int, int, int, int) {
    match b {
        Biome::Meadow => (60, 50, 30, 80, 70),
        Biome::Forest => (50, 70, 10, 90, 90),
        Biome::Desert => (90, 10, -20, 10, 20),
        Biome::Tundra => (10, 30, -30, 15, 20),
        Biome::Ocean => (50, 100, 0, 30, 60),
        Biome::Volcano => (100, 20, -80, 5, 10),
        Biome::CrystalCaves => (30, 40, 80, 40, 40),
        Biome::FloatingIslands => (40, 60, 60, 60, 50),
        Biome::MushroomGrove => (40, 80, 40, 70, 80),
        Biome::AncientRuins => (50, 30, 20, 20, 30),
    }
}

/// The materials available in a biome, in their canonical order.
pub open spec fn canonical_materials(b: Biome) -> Seq<Material> {
    match b {
        Biome::Meadow => seq![Material::Wood, Material::Stone],
        Biome::Forest => seq![Material::Wood, Material::Stone, Material::Mushroom],
        Biome::Desert => seq![Material::Sand, Material::Stone],
        Biome::Tundra => seq![Material::Ice, Material::Stone],
        Biome::Ocean => seq![Material::Seaweed, Material::Stone],
        Biome::Volcano => seq![Material::Lava, Material::Stone, Material::Crystal],
        Biome::CrystalCaves => seq![Material::Crystal, Material::Stone],
        Biome::FloatingIslands => seq![Material::CloudStuff, Material::Stone, Material::Crystal],
        Biome::MushroomGrove => seq![Material::Mushroom, Material::Wood],
        Biome::AncientRuins => seq![Material::AncientMetal, Material::Stone, Material::Crystal],
    }
}

/// The canonical spawn rate and conservation strictness of a biome, in
/// hundredths.
pub open spec fn canonical_rates(b: Biome) -> (int, int) {
    match b {
        Biome::Meadow => (70, 40),
        Biome::Forest => (80, 60),
        Biome::Desert => (30, 30),
        Biome::Tundra => (20, 50),
        Biome::Ocean => (50, 50),
        Biome::Volcano => (10, 20),
        Biome::CrystalCaves => (40, 90),
        Biome::FloatingIslands => (50, 70),
        Biome::MushroomGrove => (60, 60),
        Biome::AncientRuins => (30, 80),
    }
}

impl BiomeProperties {
    /// These are the canonical properties of biome `b`.
    pub open spec fn is_canonical_for(&self, b: Biome) -> bool {
        &&& self.temperature == canonical_numbers(b).0
        &&& self.humidity == canonical_numbers(b).1
        &&& self.base_vibe == canonical_numbers(b).2
        &&& self.growth_rate == canonical_numbers(b).3
        &&& self.max_biodiversity == canonical_numbers(b).4
        &&& self.available_materials@ == canonical_materials(b)
    }

    /// A vibe value in [0.0, 1.0], here in thousandths (0 – 1000), that
    /// represents how "pleasant" or "dangerous" the biome feels, derived
    /// from its raw base_vibe held to [-1.0, 1.0].
    pub fn normalized_vibe(&self) -> (v: u32)
        ensures
            v == (clamp(self.base_vibe as int, -100, 100) + 100) * 5,
            v <= 1000,
            -100 <= self.base_vibe <= 100 ==> v == (self.base_vibe + 100) * 5,
            self.base_vibe >= 100 ==> v == 1000,
            self.base_vibe <= -100 ==> v == 0,
    {
        let b = if self.base_vibe < -100 {
            -100
        } else if self.base_vibe > 100 {
            100
        } else {
            self.base_vibe
        };
        ((b + 100) * 5) as u32
    }
}

/// Holding `v` to `lo..=hi` keeps values already in range, sends values
/// below to `lo` and values above to `hi`, and keeps the order of values.
pub proof fn lemma_clamp(v: int, u: int, lo: int, hi: int)
    requires
        lo <= hi,
    ensures
        lo <= clamp(v, lo, hi) <= hi,
        lo <= v <= hi ==> clamp(v, lo, hi) == v,
        v <= lo ==> clamp(v, lo, hi) == lo,
        v >= hi ==> clamp(v, lo, hi) == hi,
        v <= u ==> clamp(v, lo, hi) <= clamp(u, lo, hi),
{
}

/// The normalized vibe maps a base vibe `b` in [-1, 1] linearly onto
/// [0, 1], as `(b + 1) / 2` (in thousandths: `(b + 100) * 5`), saturates
/// outside that range, and never decreases as the base vibe grows.
pub proof fn lemma_normalized_vibe(p: BiomeProperties, q: BiomeProperties, vp: int, vq: int)
    requires
        vp == (clamp(p.base_vibe as int, -100, 100) + 100) * 5,
        vq == (clamp(q.base_vibe as int, -100, 100) + 100) * 5,
    ensures
        0 <= vp <= 1000,
        -100 <= p.base_vibe <= 100 ==> 200 * vp == 1000 * (p.base_vibe + 100),
        p.base_vibe >= 100 ==> vp == 1000,
        p.base_vibe <= -100 ==> vp == 0,
        p.base_vibe <= q.base_vibe ==> vp <= vq,
{
    lemma_clamp(p.base_vibe as int, q.base_vibe as int, -100, 100);
}

/// The canonical properties of each biome, in hundredths, and the
/// materials found there: Meadow is 0.6 warm, 0.5 humid, vibe 0.3, growth
/// 0.8, biodiversity 0.7, with wood and stone; and so on for every biome.
/// Every number lies in [-1, 1]; temperature, humidity, growth and
/// biodiversity in [0, 1]; stone is found everywhere but in the Mushroom
/// Grove.
pub proof fn lemma_canonical_properties(b: Biome, p: BiomeProperties)
    requires
        p.is_canonical_for(b),
    ensures
        b == Biome::Meadow ==> p.temperature == 60 && p.humidity == 50 && p.base_vibe == 30
            && p.growth_rate == 80 && p.max_biodiversity == 70 && p.available_materials@ == seq![
            Material::Wood,
            Material::Stone,
        ],
        b == Biome::Forest ==> p.temperature == 50 && p.humidity == 70 && p.base_vibe == 10
            && p.growth_rate == 90 && p.max_biodiversity == 90 && p.available_materials@ == seq![
            Material::Wood,
            Material::Stone,
            Material::Mushroom,
        ],
        b == Biome::Desert ==> p.temperature == 90 && p.humidity == 10 && p.base_vibe == -20
            && p.growth_rate == 10 && p.max_biodiversity == 20 && p.available_materials@ == seq![
            Material::Sand,
            Material::Stone,
        ],
        b == Biome::Tundra ==> p.temperature == 10 && p.humidity == 30 && p.base_vibe == -30
            && p.growth_rate == 15 && p.max_biodiversity == 20 && p.available_materials@ == seq![
            Material::Ice,
            Material::Stone,
        ],
        b == Biome::Ocean ==> p.temperature == 50 && p.humidity == 100 && p.base_vibe == 0
            && p.growth_rate == 30 && p.max_biodiversity == 60 && p.available_materials@ == seq![
            Material::Seaweed,
            Material::Stone,
        ],
        b == Biome::Volcano ==> p.temperature == 100 && p.humidity == 20 && p.base_vibe == -80
            && p.growth_rate == 5 && p.max_biodiversity == 10 && p.available_materials@ == seq![
            Material::Lava,
            Material::Stone,
            Material::Crystal,
        ],
        b == Biome::CrystalCaves ==> p.temperature == 30 && p.humidity == 40 && p.base_vibe == 80
            && p.growth_rate == 40 && p.max_biodiversity == 40 && p.available_materials@ == seq![
            Material::Crystal,
            Material::Stone,
        ],
        b == Biome::FloatingIslands ==> p.temperature == 40 && p.humidity == 60 && p.base_vibe
            == 60 && p.growth_rate == 60 && p.max_biodiversity == 50 && p.available_materials@
            == seq![Material::CloudStuff, Material::Stone, Material::Crystal],
        b == Biome::MushroomGrove ==> p.temperature == 40 && p.humidity == 80 && p.base_vibe == 40
            && p.growth_rate == 70 && p.max_biodiversity == 80 && p.available_materials@ == seq![
            Material::Mushroom,
            Material::Wood,
        ],
        b == Biome::AncientRuins ==> p.temperature == 50 && p.humidity == 30 && p.base_vibe == 20
            && p.growth_rate == 20 && p.max_biodiversity == 30 && p.available_materials@ == seq![
            Material::AncientMetal,
            Material::Stone,
            Material::Crystal,
        ],
        -100 <= p.base_vibe <= 100,
        0 <= p.temperature <= 100,
        0 <= p.humidity <= 100,
        0 <= p.growth_rate <= 100,
        0 <= p.max_biodiversity <= 100,
        p.available_materials@.len() > 0,
        b != Biome::MushroomGrove ==> p.available_materials@.contains(Material::Stone),
{
    if b != Biome::MushroomGrove {
        assert(p.available_materials@[1] == Material::Stone);
    }
}

/// The canonical rate of each biome, in hundredths: how often agents spawn
/// there and how strictly it is conserved (Meadow 0.7 and 0.4, Ancient
/// Ruins 0.3 and 0.8, ...).  Every rule names its own biome and carries its
/// canonical properties, and both rates lie in [0, 1].
pub proof fn lemma_canonical_rules(b: Biome, r: BiomeRule)
    requires
        r.biome == b,
        r.properties.is_canonical_for(b),
        r.spawn_rate == canonical_rates(b).0,
        r.conservation_strictness == canonical_rates(b).1,
    ensures
        b == Biome::Meadow ==> r.spawn_rate == 70 && r.conservation_strictness == 40,
        b == Biome::Forest ==> r.spawn_rate == 80 && r.conservation_strictness == 60,
        b == Biome::Desert ==> r.spawn_rate == 30 && r.conservation_strictness == 30,
        b == Biome::Tundra ==> r.spawn_rate == 20 && r.conservation_strictness == 50,
        b == Biome::Ocean ==> r.spawn_rate == 50 && r.conservation_strictness == 50,
        b == Biome::Volcano ==> r.spawn_rate == 10 && r.conservation_strictness == 20,
        b == Biome::CrystalCaves ==> r.spawn_rate == 40 && r.conservation_strictness == 90,
        b == Biome::FloatingIslands ==> r.spawn_rate == 50 && r.conservation_strictness == 70,
        b == Biome::MushroomGrove ==> r.spawn_rate == 60 && r.conservation_strictness == 60,
        b == Biome::AncientRuins ==> r.spawn_rate == 30 && r.conservation_strictness == 80,
        r.biome == b,
        r.spawn_rate <= 100,
        r.conservation_strictness <= 100,
{
}

/// Return the canonical `BiomeProperties` for a given biome.
pub fn biome_properties(biome: Biome) -> (p: BiomeProperties)
    ensures
        p.is_canonical_for(biome),
{
    let (temperature, humidity, base_vibe, growth_rate, max_biodiversity, available_materials) =
        match biome {
        Biome::Meadow => (60, 50, 30, 80, 70, vec![Material::Wood, Material::Stone]),
        Biome::Forest => (
            50,
            70,
            10,
            90,
            90,
            vec![Material::Wood, Material::Stone, Material::Mushroom],
        ),
        Biome::Desert => (90, 10, -20, 10, 20, vec![Material::Sand, Material::Stone]),
        Biome::Tundra => (10, 30, -30, 15, 20, vec![Material::Ice, Material::Stone]),
        Biome::Ocean => (50, 100, 0, 30, 60, vec![Material::Seaweed, Material::Stone]),
        Biome::Volcano => (
            100,
            20,
            -80,
            5,
            10,
            vec![Material::Lava, Material::Stone, Material::Crystal],
        ),
        Biome::CrystalCaves => (30, 40, 80, 40, 40, vec![Material::Crystal, Material::Stone]),
        Biome::FloatingIslands => (
            40,
            60,
            60,
            60,
            50,
            vec![Material::CloudStuff, Material::Stone, Material::Crystal],
        ),
        Biome::MushroomGrove => (40, 80, 40, 70, 80, vec![Material::Mushroom, Material::Wood]),
        Biome::AncientRuins => (
            50,
            30,
            20,
            20,
            30,
            vec![Material::AncientMetal, Material::Stone, Material::Crystal],
        ),
    };
    let p = BiomeProperties {
        temperature,
        humidity,
        base_vibe,
        growth_rate,
        max_biodiversity,
        available_materials,
    };
    assert(p.available_materials@ =~= canonical_materials(biome));
    p
}

/// Return the canonical `BiomeRule` for a given biome.
pub fn biome_rule(biome: Biome) -> (r: BiomeRule)
    ensures
        r.biome == biome,
        r.properties.is_canonical_for(biome),
        r.spawn_rate == canonical_rates(biome).0,
        r.conservation_strictness == canonical_rates(biome).1,
        r.spawn_rate <= 100,
        r.conservation_strictness <= 100,
{
    let properties = biome_properties(biome);
    let (spawn_rate, conservation_strictness) = match biome {
        Biome::Meadow => (70, 40),
        Biome::Forest => (80, 60),
        Biome::Desert => (30, 30),
        Biome::Tundra => (20, 50),
        Biome::Ocean => (50, 50),
        Biome::Volcano => (10, 20),
        Biome::CrystalCaves => (40, 90),
        Biome::FloatingIslands => (50, 70),
        Biome::MushroomGrove => (60, 60),
        Biome::AncientRuins => (30, 80),
    };
    BiomeRule { biome, properties, spawn_rate, conservation_strictness }
}

} // verus!
