use lau_biome::map::BiomeMap;
use lau_biome::noise::Permutation;
use lau_biome::{biome_properties, biome_rule, Biome, Material};

// -- Biome enum ---------------------------------------------------------

#[test]
fn test_biome_all_contains_10() {
    assert_eq!(Biome::all().len(), 10);
}

#[test]
fn test_biome_all_contains_meadow() {
    assert!(Biome::all().contains(&Biome::Meadow));
}

#[test]
fn test_biome_index_round_trip() {
    let all = Biome::all();
    for i in 0..10 {
        assert_eq!(all[i].index(), i);
        assert_eq!(Biome::from_index(i), all[i]);
    }
    assert_eq!(all[0], Biome::Meadow);
    assert_eq!(all[9], Biome::AncientRuins);
}

// -- BiomeProperties ----------------------------------------------------

#[test]
fn test_normalized_vibe_positive() {
    let props = biome_properties(Biome::Meadow);
    let nv = props.normalized_vibe() as f64 / 1000.0;
    assert!((0.0..=1.0).contains(&nv));
    assert!((nv - 0.65).abs() < 1e-10);
}

#[test]
fn test_normalized_vibe_negative() {
    let props = biome_properties(Biome::Desert);
    let nv = props.normalized_vibe() as f64 / 1000.0;
    assert!((0.0..=1.0).contains(&nv));
    assert!((nv - 0.4).abs() < 1e-10);
}

#[test]
fn test_normalized_vibe_clamps() {
    let mut props = biome_properties(Biome::Volcano);
    assert_eq!(props.normalized_vibe(), 100);
    props.base_vibe = 250;
    assert_eq!(props.normalized_vibe(), 1000);
    props.base_vibe = -400;
    assert_eq!(props.normalized_vibe(), 0);
    props.base_vibe = 1;
    assert_eq!(props.normalized_vibe(), 505);
}

// -- BiomeRule ----------------------------------------------------------

#[test]
fn test_biome_rule_meadow() {
    let rule = biome_rule(Biome::Meadow);
    assert_eq!(rule.biome, Biome::Meadow);
    assert!((rule.spawn_rate as f64 / 100.0 - 0.7).abs() < 1e-10);
    assert!((rule.conservation_strictness as f64 / 100.0 - 0.4).abs() < 1e-10);
}

#[test]
fn test_biome_rule_crystal_caves_conservation_strict() {
    let rule = biome_rule(Biome::CrystalCaves);
    assert!((rule.conservation_strictness as f64 / 100.0 - 0.9).abs() < 1e-10);
}

#[test]
fn test_biome_rule_carries_properties() {
    let rule = biome_rule(Biome::Volcano);
    assert_eq!(rule.properties, biome_properties(Biome::Volcano));
    assert_eq!(rule.spawn_rate, 10);
    assert_eq!(rule.conservation_strictness, 20);
}

// -- BiomeMap -----------------------------------------------------------

#[test]
fn test_biome_map_generate_dimensions() {
    let map = BiomeMap::generate(42, 16, 12);
    assert_eq!(map.width, 16);
    assert_eq!(map.height, 12);
    assert_eq!(map.biomes.len(), 12);
    assert_eq!(map.biomes[0].len(), 16);
}

#[test]
fn test_biome_map_generate_deterministic() {
    let a = BiomeMap::generate(42, 32, 32);
    let b = BiomeMap::generate(42, 32, 32);
    assert_eq!(a.biomes, b.biomes);
}

#[test]
fn test_biome_map_generate_different_seed() {
    let a = BiomeMap::generate(1, 16, 16);
    let b = BiomeMap::generate(2, 16, 16);
    // Almost certainly different.
    assert_ne!(a.biomes, b.biomes);
}

#[test]
fn test_biome_map_generate_empty_sizes() {
    let a = BiomeMap::generate(5, 0, 3);
    assert_eq!(a.height, 3);
    assert_eq!(a.width, 0);
    assert!(a.biomes.iter().all(|r| r.is_empty()));
    let b = BiomeMap::generate(5, 4, 0);
    assert!(b.biomes.is_empty());
}

#[test]
fn test_biome_map_generate_uses_several_biomes() {
    let map = BiomeMap::generate(42, 64, 64);
    let counts = map.biome_counts();
    let used = counts.iter().filter(|c| **c > 0).count();
    assert!(used >= 2);
}

#[test]
fn test_biome_map_get_biome() {
    let map = BiomeMap::generate(42, 10, 10);
    let b = map.get_biome(3, 5);
    assert!(Biome::all().contains(&b));
    assert_eq!(b, map.biomes[5][3]);
}

#[test]
fn test_biome_map_center() {
    let map = BiomeMap::generate(99, 7, 7);
    let center = map.biome_at_center();
    assert_eq!(center, map.get_biome(3, 3));
}

#[test]
fn test_biome_map_from_raw() {
    let grid = vec![
        vec![Biome::Meadow, Biome::Forest],
        vec![Biome::Desert, Biome::Ocean],
    ];
    let map = BiomeMap::from_raw(grid.clone());
    assert_eq!(map.width, 2);
    assert_eq!(map.height, 2);
    assert_eq!(map.biomes, grid);
}

#[test]
fn test_biome_map_from_raw_empty() {
    let map = BiomeMap::from_raw(vec![]);
    assert_eq!(map.width, 0);
    assert_eq!(map.height, 0);
}

#[test]
fn test_biome_map_counts_sum() {
    let map = BiomeMap::generate(42, 8, 8);
    let counts = map.biome_counts();
    let total: usize = counts.iter().sum();
    assert_eq!(total, 64);
}

#[test]
fn test_biome_map_counts_exact() {
    let grid = vec![
        vec![Biome::Desert, Biome::Desert, Biome::Ocean],
        vec![Biome::Desert, Biome::Meadow],
    ];
    let map = BiomeMap::from_raw(grid);
    let counts = map.biome_counts();
    assert_eq!(counts, vec![1, 0, 3, 0, 1, 0, 0, 0, 0, 0]);
}

#[test]
fn test_biome_map_dominant_has_majority() {
    let grid = vec![
        vec![Biome::Desert, Biome::Desert, Biome::Desert],
        vec![Biome::Desert, Biome::Meadow, Biome::Meadow],
    ];
    let map = BiomeMap::from_raw(grid);
    assert_eq!(map.dominant_biome(), Biome::Desert);
}

#[test]
fn test_biome_map_dominant_tie_takes_first() {
    let grid = vec![vec![Biome::Ocean, Biome::Forest, Biome::Ocean, Biome::Forest]];
    let map = BiomeMap::from_raw(grid);
    assert_eq!(map.dominant_biome(), Biome::Forest);
}

#[test]
fn test_biome_map_iter_yields_all_cells() {
    let map = BiomeMap::generate(7, 5, 4);
    let mut it = map.iter();
    let mut count = 0;
    while let Some(_) = it.next() {
        count += 1;
    }
    assert_eq!(count, 5 * 4);
}

#[test]
fn test_biome_map_iter_items_valid() {
    let map = BiomeMap::generate(7, 5, 4);
    let mut it = map.iter();
    while let Some((x, y, b)) = it.next() {
        assert!(x < 5);
        assert!(y < 4);
        assert_eq!(b, map.get_biome(x, y));
    }
}

#[test]
fn test_biome_map_iter_row_major_order() {
    let grid = vec![
        vec![Biome::Meadow, Biome::Forest, Biome::Desert],
        vec![Biome::Tundra, Biome::Ocean, Biome::Volcano],
    ];
    let map = BiomeMap::from_raw(grid);
    let mut it = map.iter();
    let mut items = Vec::new();
    while let Some(item) = it.next() {
        items.push(item);
    }
    assert_eq!(
        items,
        vec![
            (0, 0, Biome::Meadow),
            (1, 0, Biome::Forest),
            (2, 0, Biome::Desert),
            (0, 1, Biome::Tundra),
            (1, 1, Biome::Ocean),
            (2, 1, Biome::Volcano),
        ]
    );
    assert_eq!(it.next(), None);
}

#[test]
fn test_biome_map_iter_empty_map() {
    let map = BiomeMap::from_raw(vec![]);
    let mut it = map.iter();
    assert_eq!(it.next(), None);
}

// -- Permutation table and generator ------------------------------------

#[test]
fn test_permutation_is_shuffled_permutation() {
    let perm = Permutation::new(42);
    // With offset 0 and y = 0, hash(x) = (p[p[x]] + 13) % 256, a permutation of x.
    let mut seen = vec![false; 256];
    let mut identity = true;
    for x in 0..256i64 {
        let v = perm.hash(x, 0, 0);
        assert!(v < 256);
        assert!(!seen[v]);
        seen[v] = true;
        if v != ((x + 13) % 256) as usize {
            identity = false;
        }
    }
    assert!(!identity);
}

#[test]
fn test_permutation_lattice_repeats_every_256() {
    let perm = Permutation::new(7);
    for x in 0..20i64 {
        assert_eq!(perm.hash(x, 3, 2), perm.hash(x + 256, 3 + 512, 2));
    }
}

#[test]
fn test_permutation_depends_on_seed() {
    let a = Permutation::new(1);
    let b = Permutation::new(2);
    let differs = (0..256i64).any(|x| a.hash(x, 0, 0) != b.hash(x, 0, 0));
    assert!(differs);
}

// -- Pre-built properties -----------------------------------------------

fn close(hundredths: i32, expected: f64) -> bool {
    (hundredths as f64 / 100.0 - expected).abs() < 1e-10
}

#[test]
fn test_meadow_properties() {
    let p = biome_properties(Biome::Meadow);
    assert!(close(p.temperature, 0.6));
    assert!(close(p.humidity, 0.5));
    assert!(close(p.growth_rate, 0.8));
    assert!(p.available_materials.contains(&Material::Wood));
}

#[test]
fn test_desert_properties() {
    let p = biome_properties(Biome::Desert);
    assert!(close(p.temperature, 0.9));
    assert!(close(p.humidity, 0.1));
    assert!(close(p.growth_rate, 0.1));
    assert!(p.available_materials.contains(&Material::Sand));
}

#[test]
fn test_crystal_caves_properties() {
    let p = biome_properties(Biome::CrystalCaves);
    assert!(close(p.temperature, 0.3));
    assert!(close(p.humidity, 0.4));
    assert!(close(p.base_vibe, 0.8));
    assert!(p.available_materials.contains(&Material::Crystal));
}

#[test]
fn test_ocean_properties() {
    let p = biome_properties(Biome::Ocean);
    assert!(close(p.humidity, 1.0));
    assert!(p.available_materials.contains(&Material::Seaweed));
}

#[test]
fn test_volcano_properties() {
    let p = biome_properties(Biome::Volcano);
    assert!(close(p.temperature, 1.0));
    assert!(close(p.base_vibe, -0.8));
    assert!(p.available_materials.contains(&Material::Lava));
}

#[test]
fn test_tundra_properties() {
    let p = biome_properties(Biome::Tundra);
    assert!(close(p.temperature, 0.1));
    assert!(p.available_materials.contains(&Material::Ice));
}

#[test]
fn test_floating_islands_properties() {
    let p = biome_properties(Biome::FloatingIslands);
    assert!(p.available_materials.contains(&Material::CloudStuff));
}

#[test]
fn test_mushroom_grove_properties() {
    let p = biome_properties(Biome::MushroomGrove);
    assert!(close(p.humidity, 0.8));
    assert!(close(p.max_biodiversity, 0.8));
    assert!(p.available_materials.contains(&Material::Mushroom));
}

#[test]
fn test_ancient_ruins_properties() {
    let p = biome_properties(Biome::AncientRuins);
    assert!(p.available_materials.contains(&Material::AncientMetal));
    assert!(p.available_materials.contains(&Material::Crystal));
}

#[test]
fn test_forest_materials_in_order() {
    let p = biome_properties(Biome::Forest);
    assert_eq!(
        p.available_materials,
        vec![Material::Wood, Material::Stone, Material::Mushroom]
    );
    assert_eq!(p.growth_rate, 90);
    assert_eq!(p.max_biodiversity, 90);
    assert_eq!(p.base_vibe, 10);
}

// -- All biome rules available ------------------------------------------

#[test]
fn test_all_biomes_have_rules() {
    for b in Biome::all() {
        let rule = biome_rule(b);
        assert_eq!(rule.biome, b);
        assert!((0.0..=1.0).contains(&(rule.spawn_rate as f64 / 100.0)));
        assert!((0.0..=1.0).contains(&(rule.conservation_strictness as f64 / 100.0)));
    }
}

#[test]
fn test_permutation_same_seed_same_table() {
    let a = Permutation::new(12345);
    let b = Permutation::new(12345);
    for x in 0..256i64 {
        for off in 0..10usize {
            assert_eq!(a.hash(x, 17, off), b.hash(x, 17, off));
        }
    }
}

#[test]
fn test_cell_biome_matches_generate() {
    let perm = Permutation::new(42);
    let map = BiomeMap::generate(42, 9, 6);
    for y in 0..6 {
        for x in 0..9 {
            assert_eq!(
                lau_biome::noise::cell_biome_exec(&perm, 9, 6, x, y),
                map.get_biome(x, y)
            );
        }
    }
}

#[test]
fn test_permutation_from_draws_identity() {
    // Drawing `i` at each step leaves every entry in place.
    let draws: Vec<u64> = (0..255u64).map(|k| 255 - k).collect();
    let perm = Permutation::from_draws(&draws);
    for x in 0..256i64 {
        assert_eq!(perm.hash(x, 0, 0), ((x + 13) % 256) as usize);
    }
}

#[test]
fn test_permutation_from_draws_rotation() {
    // Drawing 0 at each step rotates the entries by one: p[x] = x + 1.
    let draws: Vec<u64> = vec![0; 255];
    let perm = Permutation::from_draws(&draws);
    assert_eq!(perm.hash(0, 0, 0), 15);
    assert_eq!(perm.hash(1, 0, 0), 16);
    assert_eq!(perm.hash(2, 0, 0), 17);
    assert_eq!(perm.hash(255, 0, 0), 14);
    // The layer offset adds 7 per layer.
    assert_eq!(perm.hash(0, 0, 3), 36);
    // The second coordinate shifts the inner lookup: p[(p[0] + 2) % 256] = p[3] = 4.
    assert_eq!(perm.hash(0, 2, 0), 17);
}

#[test]
fn test_permutation_hash_negative_points() {
    let perm = Permutation::new(99);
    for x in -300..300i64 {
        for y in [-513i64, -256, -1, 0, 7, 255] {
            assert_eq!(perm.hash(x, y, 4), perm.hash(x.rem_euclid(256), y.rem_euclid(256), 4));
        }
    }
    assert_eq!(perm.hash(i64::MIN, i64::MIN, 0), perm.hash(0, 0, 0));
    assert_eq!(perm.hash(i64::MAX, -1, 1), perm.hash(255, 255, 1));
    // Rotation table: p[x] = x + 1, so hash(-1, 0, 0) = p[p[255]] + 13 = p[0] + 13 = 14.
    let draws: Vec<u64> = vec![0; 255];
    let rot = Permutation::from_draws(&draws);
    assert_eq!(rot.hash(-1, 0, 0), 14);
    assert_eq!(rot.hash(-256, -254, 0), 17);
}

#[test]
fn test_biome_map_iter_no_columns() {
    let map = BiomeMap::generate(1, 0, 3);
    let mut it = map.iter();
    assert_eq!(it.next(), None);
    assert_eq!(it.next(), None);
}

#[test]
fn test_biome_map_iter_kth_call() {
    let map = BiomeMap::generate(3, 4, 3);
    let mut it = map.iter();
    for k in 0..15usize {
        let item = it.next();
        if k < 12 {
            assert_eq!(item, Some((k % 4, k / 4, map.biomes[k / 4][k % 4])));
        } else {
            assert_eq!(item, None);
        }
    }
}

// Biome indices (`Biome::all()` order) of generated maps, as the floating-point
// formula of the noise gives them for these seeds and sizes; the fixed-point
// noise picks the same biome in every cell.
fn assert_generated(seed: u64, width: usize, height: usize, expected: Vec<Vec<usize>>) {
    let map = BiomeMap::generate(seed, width, height);
    let got: Vec<Vec<usize>> = map
        .biomes
        .iter()
        .map(|row| row.iter().map(|b| b.index()).collect())
        .collect();
    assert_eq!(got, expected);
}

#[test]
fn test_generate_expected_grid_seed_42() {
    assert_generated(
        42,
        16,
        12,
        vec![
            vec![9, 9, 9, 9, 7, 7, 7, 8, 8, 8, 9, 9, 9, 9, 7, 7],
            vec![0, 9, 6, 6, 6, 7, 8, 8, 8, 8, 8, 9, 9, 9, 7, 7],
            vec![0, 9, 6, 6, 9, 9, 8, 8, 8, 8, 8, 9, 9, 9, 9, 9],
            vec![0, 9, 9, 9, 9, 9, 9, 9, 8, 8, 5, 5, 9, 9, 9, 9],
            vec![9, 9, 9, 9, 9, 9, 9, 0, 9, 9, 4, 4, 9, 9, 9, 5],
            vec![9, 9, 9, 9, 9, 9, 5, 5, 5, 5, 4, 9, 9, 6, 5, 5],
            vec![9, 9, 9, 9, 9, 9, 5, 5, 5, 5, 5, 5, 5, 6, 9, 5],
            vec![9, 1, 1, 1, 9, 9, 5, 5, 5, 5, 5, 5, 4, 4, 4, 4],
            vec![1, 1, 1, 1, 1, 9, 6, 6, 9, 5, 5, 5, 4, 4, 4, 4],
            vec![6, 1, 1, 1, 1, 9, 9, 9, 9, 9, 8, 4, 4, 4, 4, 4],
            vec![4, 9, 9, 9, 1, 4, 9, 6, 6, 6, 6, 8, 9, 4, 4, 4],
            vec![4, 4, 4, 7, 9, 9, 6, 6, 6, 6, 5, 5, 9, 9, 9, 9],
        ],
    );
}

#[test]
fn test_generate_expected_grid_seed_99() {
    assert_generated(
        99,
        7,
        7,
        vec![
            vec![8, 9, 9, 9, 8, 8, 8],
            vec![9, 9, 3, 3, 9, 8, 8],
            vec![9, 9, 3, 3, 9, 9, 9],
            vec![9, 4, 6, 6, 9, 2, 2],
            vec![3, 3, 9, 9, 9, 9, 2],
            vec![3, 9, 8, 9, 2, 0, 9],
            vec![3, 9, 9, 9, 2, 0, 0],
        ],
    );
}

#[test]
fn test_generate_expected_grid_seed_7() {
    assert_generated(
        7,
        5,
        4,
        vec![
            vec![2, 5, 8, 9, 6],
            vec![9, 5, 6, 9, 9],
            vec![2, 9, 7, 7, 9],
            vec![7, 9, 9, 7, 9],
        ],
    );
}
