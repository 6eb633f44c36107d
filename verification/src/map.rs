use vstd::prelude::*;

use crate::biome::{all_biomes, biome_index, lemma_all_biomes_index, Biome};
use crate::noise::{
    best_index,
    cell_biome,
    cell_biome_exec,
    cell_weight,
    lemma_best_index_is_last_maximum,
    perm_table,
    Permutation,
};

verus! {

/// A 2D grid of biomes: `biomes[y][x]` is the biome of cell `(x, y)`.
#[derive(Debug, Clone, PartialEq, Eq)]
pub struct BiomeMap {
    pub width: usize,
    pub height: usize,
    pub biomes: Vec<Vec<Biome>>,
}

/// The biomes of the map generated from `seed`, row by row.
pub open spec fn generated_grid(seed: u64, w: nat, h: nat) -> Seq<Seq<Biome>> {
    Seq::new(
        h,
        |y: int| Seq::new(w, |x: int| cell_biome(perm_table(seed), w, h, x as nat, y as nat)),
    )
}

/// How many cells of `row` hold biome `b`.
pub open spec fn count_in_row(row: Seq<Biome>, b: Biome) -> nat
    decreases row.len(),
{
    if row.len() == 0 {
        0
    } else {
        count_in_row(row.drop_last(), b) + if row.last() == b {
            1nat
        } else {
            0nat
        }
    }
}

/// How many cells of `grid` hold biome `b`.
pub open spec fn count_in_grid(grid: Seq<Seq<Biome>>, b: Biome) -> nat
    decreases grid.len(),
{
    if grid.len() == 0 {
        0
    } else {
        count_in_grid(grid.drop_last(), b) + count_in_row(grid.last(), b)
    }
}

/// How many cells `grid` has in all.
pub open spec fn cell_total(grid: Seq<Seq<Biome>>) -> nat
    decreases grid.len(),
{
    if grid.len() == 0 {
        0
    } else {
        cell_total(grid.drop_last()) + grid.last().len()
    }
}

/// The sum of a sequence of counts.
pub open spec fn sum_counts(s: Seq<usize>) -> nat
    decreases s.len(),
{
    if s.len() == 0 {
        0
    } else {
        (sum_counts(s.drop_last()) + s.last()) as nat
    }
}

/// The count of each biome in `grid`, in the canonical order of biomes.
pub open spec fn counts_of(grid: Seq<Seq<Biome>>) -> Seq<usize> {
    Seq::new(10, |i: int| count_in_grid(grid, all_biomes()[i]) as usize)
}

/// The position among `0..n` of the first greatest of `counts`.
pub open spec fn first_max_index(counts: Seq<usize>, n: nat) -> nat
    decreases n,
{
    if n <= 1 {
        0
    } else {
        let b = first_max_index(counts, (n - 1) as nat);
        if counts[n - 1] > counts[b as int] {
            (n - 1) as nat
        } else {
            b
        }
    }
}

/// A biome counted in a row is counted no more often than the row is long.
proof fn lemma_count_in_row_bounded(row: Seq<Biome>, b: Biome)
    ensures
        count_in_row(row, b) <= row.len(),
    decreases row.len(),
{
    if row.len() > 0 {
        lemma_count_in_row_bounded(row.drop_last(), b);
    }
}

/// A biome is counted in a grid no more often than the grid has cells.
proof fn lemma_count_in_grid_bounded(grid: Seq<Seq<Biome>>, b: Biome)
    ensures
        count_in_grid(grid, b) <= cell_total(grid),
    decreases grid.len(),
{
    if grid.len() > 0 {
        lemma_count_in_grid_bounded(grid.drop_last(), b);
        lemma_count_in_row_bounded(grid.last(), b);
    }
}

/// A prefix of a grid has no more cells than the grid.
proof fn lemma_cell_total_prefix(grid: Seq<Seq<Biome>>, r: int)
    requires
        0 <= r <= grid.len(),
    ensures
        cell_total(grid.take(r)) <= cell_total(grid),
        r < grid.len() ==> cell_total(grid.take(r)) + grid[r].len() <= cell_total(grid),
    decreases grid.len() - r,
{
    if r < grid.len() {
        lemma_cell_total_prefix(grid, r + 1);
        assert(grid.take(r + 1).drop_last() =~= grid.take(r));
    } else {
        assert(grid.take(r) =~= grid);
    }
}

/// The ten counts of a row add up to its length.
proof fn lemma_row_counts_cover(row: Seq<Biome>)
    ensures
        count_in_row(row, Biome::Meadow) + count_in_row(row, Biome::Forest) + count_in_row(
            row,
            Biome::Desert,
        ) + count_in_row(row, Biome::Tundra) + count_in_row(row, Biome::Ocean) + count_in_row(
            row,
            Biome::Volcano,
        ) + count_in_row(row, Biome::CrystalCaves) + count_in_row(row, Biome::FloatingIslands)
            + count_in_row(row, Biome::MushroomGrove) + count_in_row(row, Biome::AncientRuins)
            == row.len(),
    decreases row.len(),
{
    if row.len() > 0 {
        lemma_row_counts_cover(row.drop_last());
    }
}

/// The ten counts of a grid, added up, in the canonical order.
spec fn grid_counts_added(g: Seq<Seq<Biome>>) -> nat {
    count_in_grid(g, Biome::Meadow) + count_in_grid(g, Biome::Forest) + count_in_grid(
        g,
        Biome::Desert,
    ) + count_in_grid(g, Biome::Tundra) + count_in_grid(g, Biome::Ocean) + count_in_grid(
        g,
        Biome::Volcano,
    ) + count_in_grid(g, Biome::CrystalCaves) + count_in_grid(g, Biome::FloatingIslands)
        + count_in_grid(g, Biome::MushroomGrove) + count_in_grid(g, Biome::AncientRuins)
}

/// The ten counts of a grid add up to its number of cells.
proof fn lemma_grid_counts_added(grid: Seq<Seq<Biome>>)
    ensures
        grid_counts_added(grid) == cell_total(grid),
    decreases grid.len(),
{
    if grid.len() > 0 {
        lemma_grid_counts_added(grid.drop_last());
        lemma_row_counts_cover(grid.last());
    }
}

/// The ten counts of a grid, as machine integers, add up to its number of
/// cells, when that number fits a machine integer.
proof fn lemma_grid_counts_cover(grid: Seq<Seq<Biome>>)
    requires
        cell_total(grid) <= usize::MAX,
    ensures
        sum_counts(counts_of(grid)) == cell_total(grid),
{
    lemma_grid_counts_added(grid);
    let c = counts_of(grid);
    assert forall|i: int| 0 <= i < 10 implies #[trigger] c[i] == count_in_grid(grid, all_biomes()[i]) by {
        lemma_count_in_grid_bounded(grid, all_biomes()[i]);
    }
    reveal_with_fuel(sum_counts, 11);
    assert(sum_counts(c) == c[0] + c[1] + c[2] + c[3] + c[4] + c[5] + c[6] + c[7] + c[8] + c[9]);
}

impl BiomeMap {
    /// The biomes of the map, row by row.
    pub open spec fn grid(&self) -> Seq<Seq<Biome>> {
        self.biomes@.map_values(|r: Vec<Biome>| r@)
    }

    /// The map holds `height` rows of `width` biomes each.
    pub open spec fn wf(&self) -> bool {
        &&& self.biomes@.len() == self.height
        &&& forall|y: int| 0 <= y < self.height ==> (#[trigger] self.biomes@[y])@.len() == self.width
    }

    /// Build a biome map from a raw grid (width / height are inferred).
    pub fn from_raw(grid: Vec<Vec<Biome>>) -> (map: BiomeMap)
        ensures
            map.height == grid@.len(),
            map.width == if grid@.len() > 0 {
                grid@[0]@.len()
            } else {
                0
            },
            map.biomes == grid,
    {
        let height = grid.len();
        let width = if height > 0 {
            grid[0].len()
        } else {
            0
        };
        BiomeMap { width, height, biomes: grid }
    }

    /// Generate a biome map of the given size using seeded value noise.
    /// Each cell's biome is the one whose noise value, over two octaves,
    /// is the greatest, with a per-biome offset into a table shuffled by
    /// the seed.
    ///
    /// The noise is computed in fixed point, with fractions in steps of
    /// 2^-24 rounded down (see `noise::cell_weight`), not in floating
    /// point: where two biomes' weights come within that rounding of each
    /// other, the choice can differ from a floating-point computation of
    /// the same formula.
    pub fn generate(seed: u64, width: usize, height: usize) -> (map: BiomeMap)
        ensures
            map.width == width,
            map.height == height,
            map.wf(),
            map.grid() == generated_grid(seed, width as nat, height as nat),
    {
        let perm = Permutation::new(seed);
        let mut biomes: Vec<Vec<Biome>> = Vec::new();
        let mut y: usize = 0;
        while y < height
            invariant
                y <= height,
                perm@ == perm_table(seed),
                biomes@.len() == y,
                forall|yy: int|
                    0 <= yy < y ==> (#[trigger] biomes@[yy])@ == generated_grid(
                        seed,
                        width as nat,
                        height as nat,
                    )[yy],
            decreases height - y,
        {
            let mut row: Vec<Biome> = Vec::new();
            let mut x: usize = 0;
            while x < width
                invariant
                    x <= width,
                    y < height,
                    perm@ == perm_table(seed),
                    row@.len() == x,
                    forall|xx: int|
                        0 <= xx < x ==> #[trigger] row@[xx] == cell_biome(
                            perm_table(seed),
                            width as nat,
                            height as nat,
                            xx as nat,
                            y as nat,
                        ),
                decreases width - x,
            {
                let b = cell_biome_exec(&perm, width, height, x, y);
                row.push(b);
                x = x + 1;
            }
            assert(row@ =~= generated_grid(seed, width as nat, height as nat)[y as int]);
            biomes.push(row);
            y = y + 1;
        }
        let map = BiomeMap { width, height, biomes };
        assert(map.grid() =~= generated_grid(seed, width as nat, height as nat));
        map
    }

    /// Look up the biome at the given coordinates.
    pub fn get_biome(&self, x: usize, y: usize) -> (b: Biome)
        requires
            y < self.biomes@.len(),
            x < self.biomes@[y as int]@.len(),
        ensures
            b == self.biomes@[y as int]@[x as int],
    {
        self.biomes[y][x]
    }

    /// Return the biome at the approximate centre of the map.
    pub fn biome_at_center(&self) -> (b: Biome)
        requires
            self.height / 2 < self.biomes@.len(),
            self.width / 2 < self.biomes@[(self.height / 2) as int]@.len(),
        ensures
            b == self.biomes@[(self.height / 2) as int]@[(self.width / 2) as int],
    {
        let cx = self.width / 2;
        let cy = self.height / 2;
        self.get_biome(cx, cy)
    }

    /// Count how many tiles each biome occupies: entry `i` is the count of
    /// `Biome::all()[i]`.
    pub fn biome_counts(&self) -> (counts: Vec<usize>)
        requires
            cell_total(self.grid()) <= usize::MAX,
        ensures
            counts@ == counts_of(self.grid()),
            sum_counts(counts@) == cell_total(self.grid()),
    {
        let ghost g = self.grid();
        let mut counts: Vec<usize> = Vec::new();
        let mut i: usize = 0;
        while i < 10
            invariant
                i <= 10,
                counts@.len() == i,
                forall|k: int| 0 <= k < i ==> counts@[k] == 0,
            decreases 10 - i,
        {
            counts.push(0);
            i = i + 1;
        }
        let mut r: usize = 0;
        while r < self.biomes.len()
            invariant
                g == self.grid(),
                cell_total(g) <= usize::MAX,
                r <= g.len(),
                counts@.len() == 10,
                forall|k: int|
                    0 <= k < 10 ==> #[trigger] counts@[k] == count_in_grid(
                        g.take(r as int),
                        all_biomes()[k],
                    ),
            decreases self.biomes@.len() - r,
        {
            let row = &self.biomes[r];
            proof {
                lemma_cell_total_prefix(g, r as int);
            }
            let mut c: usize = 0;
            while c < row.len()
                invariant
                    g == self.grid(),
                    r < g.len(),
                    row@ == g[r as int],
                    cell_total(g.take(r as int)) + g[r as int].len() <= usize::MAX,
                    c <= row@.len(),
                    counts@.len() == 10,
                    forall|k: int|
                        0 <= k < 10 ==> #[trigger] counts@[k] == count_in_grid(
                            g.take(r as int),
                            all_biomes()[k],
                        ) + count_in_row(row@.take(c as int), all_biomes()[k]),
                decreases row@.len() - c,
            {
                let b = row[c];
                let k = b.index();
                proof {
                    lemma_all_biomes_index(b);
                    assert(row@.take((c + 1) as int).drop_last() =~= row@.take(c as int));
                    lemma_count_in_grid_bounded(g.take(r as int), b);
                    lemma_count_in_row_bounded(row@.take(c as int), b);
                }
                let old_count = counts[k];
                counts.set(k, old_count + 1);
                c = c + 1;
            }
            proof {
                assert(row@.take(c as int) =~= row@);
                assert(g.take((r + 1) as int).drop_last() =~= g.take(r as int));
            }
            r = r + 1;
        }
        proof {
            assert(g.take(r as int) =~= g);
            assert(counts@ =~= counts_of(g));
            lemma_grid_counts_cover(g);
        }
        counts
    }

    /// Return the biome that covers the most tiles; of biomes that cover
    /// equally many, the first in the canonical order.
    pub fn dominant_biome(&self) -> (b: Biome)
        requires
            0 < cell_total(self.grid()) <= usize::MAX,
        ensures
            b == all_biomes()[first_max_index(counts_of(self.grid()), 10) as int],
            forall|o: Biome| count_in_grid(self.grid(), o) <= count_in_grid(self.grid(), b),
            forall|o: Biome|
                biome_index(o) < biome_index(b) ==> count_in_grid(self.grid(), o) < count_in_grid(
                    self.grid(),
                    b,
                ),
            count_in_grid(self.grid(), b) > 0,
    {
        let counts = self.biome_counts();
        let mut best: usize = 0;
        let mut i: usize = 1;
        while i < 10
            invariant
                1 <= i <= 10,
                counts@ == counts_of(self.grid()),
                best == first_max_index(counts@, i as nat),
                best < i,
                forall|k: int| 0 <= k < i ==> counts@[k] <= counts@[best as int],
                forall|k: int| 0 <= k < best ==> counts@[k] < counts@[best as int],
            decreases 10 - i,
        {
            if counts[i] > counts[best] {
                best = i;
            }
            i = i + 1;
        }
        let b = Biome::from_index(best);
        proof {
            let g = self.grid();
            assert forall|o: Biome| count_in_grid(g, o) <= count_in_grid(g, b) by {
                lemma_all_biomes_index(o);
                lemma_count_in_grid_bounded(g, o);
                assert(counts@[biome_index(o) as int] == count_in_grid(g, o));
            }
            assert forall|o: Biome| biome_index(o) < biome_index(b) implies count_in_grid(g, o)
                < count_in_grid(g, b) by {
                lemma_all_biomes_index(o);
                lemma_count_in_grid_bounded(g, o);
                assert(counts@[biome_index(o) as int] == count_in_grid(g, o));
            }
            lemma_count_in_grid_bounded(g, b);
            if count_in_grid(g, b) == 0 {
                reveal_with_fuel(sum_counts, 11);
                assert forall|k: int| 0 <= k < 10 implies counts@[k] == 0 by {
                    lemma_all_biomes_index(all_biomes()[k]);
                }
                assert(sum_counts(counts@) == 0);
            }
        }
        b
    }
}

/// In a generated map, each cell holds the biome whose own noise layer
/// (its index in declaration order) weighs the most there: no layer weighs
/// more, and every later layer weighs less.
pub proof fn lemma_generated_cell_has_heaviest_layer(seed: u64, w: nat, h: nat, x: nat, y: nat)
    requires
        x < w,
        y < h,
    ensures
        ({
            let b = generated_grid(seed, w, h)[y as int][x as int];
            let t = perm_table(seed);
            &&& biome_index(b) == best_index(t, w, h, x, y, 10)
            &&& forall|j: nat|
                j < 10 ==> #[trigger] cell_weight(t, w, h, x, y, j) <= cell_weight(
                    t,
                    w,
                    h,
                    x,
                    y,
                    biome_index(b),
                )
            &&& forall|j: nat|
                biome_index(b) < j < 10 ==> #[trigger] cell_weight(t, w, h, x, y, j) < cell_weight(
                    t,
                    w,
                    h,
                    x,
                    y,
                    biome_index(b),
                )
        }),
{
    let t = perm_table(seed);
    lemma_best_index_is_last_maximum(t, w, h, x, y, 10);
    let b = generated_grid(seed, w, h)[y as int][x as int];
    lemma_all_biomes_index(b);
    assert(b == all_biomes()[best_index(t, w, h, x, y, 10) as int]);
}

/// A well-formed map has `width * height` cells.
pub proof fn lemma_wf_cell_total(map: BiomeMap)
    requires
        map.wf(),
    ensures
        cell_total(map.grid()) == map.width * map.height,
{
    let g = map.grid();
    let w = map.width as int;
    assert forall|k: int| 0 <= k <= g.len() implies #[trigger] cell_total(g.take(k)) == k * w by {
        lemma_cell_total_rows(g, w, k);
    }
    assert(g.take(g.len() as int) =~= g);
    assert(g.len() * w == w * map.height) by (nonlinear_arith)
        requires
            g.len() == map.height,
    ;
}

/// The first `k` rows of a grid whose rows all have `w` cells hold `k * w` cells.
proof fn lemma_cell_total_rows(g: Seq<Seq<Biome>>, w: int, k: int)
    requires
        0 <= k <= g.len(),
        forall|y: int| 0 <= y < g.len() ==> #[trigger] g[y].len() == w,
    ensures
        cell_total(g.take(k)) == k * w,
    decreases k,
{
    if k > 0 {
        lemma_cell_total_rows(g, w, k - 1);
        assert(g.take(k).drop_last() =~= g.take(k - 1));
        assert(g.take(k).last() == g[k - 1]);
        assert(g[k - 1].len() == w);
        assert((k - 1) * w + w == k * w) by (nonlinear_arith);
        assert(cell_total(g.take(k)) == cell_total(g.take(k - 1)) + w);
    } else {
        assert(g.take(k) =~= Seq::<Seq<Biome>>::empty());
    }
}

/// Generation depends on nothing but the seed and the size: two maps
/// generated from the same seed and size hold the same biomes.
pub proof fn lemma_same_seed_same_map(a: BiomeMap, b: BiomeMap, seed: u64, w: nat, h: nat)
    requires
        a.grid() == generated_grid(seed, w, h),
        b.grid() == generated_grid(seed, w, h),
    ensures
        a.grid() == b.grid(),
{
}

} // verus!
