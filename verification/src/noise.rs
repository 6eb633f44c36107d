use vstd::prelude::*;
use vstd::arithmetic::div_mod::{
    lemma_add_mod_noop_right,
    lemma_div_by_multiple,
    lemma_div_is_ordered,
    lemma_fundamental_div_mod_converse,
};

use crate::biome::{all_biomes, Biome};
use crate::rng::{xoshiro_gen_range, SeededRng};

verus! {

// ---------------------------------------------------------------------------
// Seeded permutation table
// ---------------------------------------------------------------------------

/// The upper bounds of the first `n` draws of the Fisher-Yates shuffle:
/// 255, 254, ..., 256 - n.
pub open spec fn shuffle_bounds(n: nat) -> Seq<u64> {
    Seq::new(n, |k: int| (255 - k) as u64)
}

/// The draws the shuffle takes from the generator seeded with `seed`: draw
/// `k` comes from `0..=255 - k`.
pub open spec fn seed_draws(seed: u64) -> Seq<u64> {
    Seq::new(
        255,
        |k: int| xoshiro_gen_range(seed, shuffle_bounds(k as nat), (255 - k) as u64),
    )
}

/// The draws are fit for the shuffle: there are 255 of them, and draw `k`
/// lies in `0..=255 - k`.
pub open spec fn draws_in_range(draws: Seq<u64>) -> bool {
    &&& draws.len() == 255
    &&& forall|k: int| 0 <= k < 255 ==> #[trigger] draws[k] <= 255 - k
}

/// The 256 entries after the first `n` swaps of the Fisher-Yates shuffle
/// driven by `draws`: swap `n` exchanges position `i = 256 - n` with
/// position `draws[n - 1]`.
pub open spec fn shuffled(draws: Seq<u64>, n: nat) -> Seq<usize>
    decreases n,
{
    if n == 0 {
        Seq::new(256, |k: int| k as usize)
    } else {
        let prev = shuffled(draws, (n - 1) as nat);
        let i = 256 - n;
        let draw = draws[n - 1] as int;
        // Draws lie in `0..=i`; held there, `j` is the draw itself.
        let j = if draw <= i {
            draw
        } else {
            i
        };
        prev.update(i, prev[j]).update(j, prev[i])
    }
}

/// The table made from `draws`: the shuffled 256 entries, twice.
pub open spec fn table_from_draws(draws: Seq<u64>) -> Seq<usize> {
    Seq::new(512, |k: int| shuffled(draws, 255)[k % 256])
}

/// The permutation table made from `seed`.
pub open spec fn perm_table(seed: u64) -> Seq<usize> {
    table_from_draws(seed_draws(seed))
}

/// Step `n` of the shuffle exchanges two entries and keeps the rest: the
/// entry at `256 - n` moves to the drawn position `draws[n - 1]` and the
/// entry there moves to `256 - n`.  Drawing `256 - n` itself changes
/// nothing; and once step `n` is done, position `256 - n` keeps its entry
/// through every later step.
pub proof fn lemma_shuffle_step(draws: Seq<u64>, n: nat)
    requires
        1 <= n <= 255,
        draws_in_range(draws),
    ensures
        ({
            let i = 256 - n;
            let j = draws[n - 1] as int;
            let before = shuffled(draws, (n - 1) as nat);
            let after = shuffled(draws, n);
            &&& after.len() == 256
            &&& after[j] == before[i]
            &&& after[i] == before[j]
            &&& forall|k: int| 0 <= k < 256 && k != i && k != j ==> #[trigger] after[k] == before[k]
            &&& j == i ==> after == before
            &&& forall|m: nat| n <= m <= 255 ==> #[trigger] shuffled(draws, m)[i] == after[i]
        }),
{
    let i = 256 - n;
    let j = draws[n - 1] as int;
    lemma_shuffled_is_permutation(draws, (n - 1) as nat);
    assert(draws[n - 1] <= 255 - (n - 1));
    if j == i {
        assert(shuffled(draws, n) =~= shuffled(draws, (n - 1) as nat));
    }
    assert forall|m: nat| n <= m <= 255 implies #[trigger] shuffled(draws, m)[i] == shuffled(
        draws,
        n,
    )[i] by {
        lemma_shuffle_keeps_done(draws, n, m);
    }
}

/// Steps after `n` never touch position `256 - n`.
proof fn lemma_shuffle_keeps_done(draws: Seq<u64>, n: nat, m: nat)
    requires
        1 <= n <= m <= 255,
        draws_in_range(draws),
    ensures
        shuffled(draws, m)[256 - n] == shuffled(draws, n)[256 - n],
    decreases m - n,
{
    if m > n {
        lemma_shuffle_keeps_done(draws, n, (m - 1) as nat);
        lemma_shuffled_is_permutation(draws, (m - 1) as nat);
        assert(draws[m - 1] <= 255 - (m - 1));
    }
}

/// The table of a seed is shuffled by the draws of the generator seeded
/// with that very seed, all 64 bits of it: draw `k` comes from
/// `0..=255 - k`, after the draws with bounds 255, 254, ..., 256 - k.
pub proof fn lemma_perm_table_draws_from_seed(seed: u64)
    ensures
        perm_table(seed) == table_from_draws(
            Seq::new(
                255,
                |k: int|
                    xoshiro_gen_range(
                        seed,
                        Seq::new(k as nat, |m: int| (255 - m) as u64),
                        (255 - k) as u64,
                    ),
            ),
        ),
{
    let d = Seq::new(
        255,
        |k: int|
            xoshiro_gen_range(seed, Seq::new(k as nat, |m: int| (255 - m) as u64), (255 - k) as u64),
    );
    assert forall|k: int| 0 <= k < 255 implies #[trigger] seed_draws(seed)[k] == d[k] by {
        assert(shuffle_bounds(k as nat) =~= Seq::new(k as nat, |m: int| (255 - m) as u64));
    }
    assert(seed_draws(seed) =~= d);
}

/// A sequence that holds each of `0..n` exactly once.
pub open spec fn is_permutation_of_range(s: Seq<usize>, n: nat) -> bool {
    &&& s.len() == n
    &&& forall|k: int| 0 <= k < n ==> #[trigger] s[k] < n
    &&& forall|a: int, b: int| 0 <= a < n && 0 <= b < n && a != b ==> #[trigger] s[a] != #[trigger] s[b]
}

/// Every stage of the shuffle is a permutation of `0..256`, whatever the
/// draws.
pub proof fn lemma_shuffled_is_permutation(draws: Seq<u64>, n: nat)
    requires
        n <= 255,
        draws.len() >= n,
    ensures
        is_permutation_of_range(shuffled(draws, n), 256),
    decreases n,
{
    if n > 0 {
        lemma_shuffled_is_permutation(draws, (n - 1) as nat);
    }
}

/// The table made from any draws, and so from any seed, holds the 256
/// values `0..256` each once in its first half, and repeats its first half
/// in its second half.
pub proof fn lemma_table_is_doubled_permutation(draws: Seq<u64>)
    requires
        draws.len() == 255,
    ensures
        table_from_draws(draws).len() == 512,
        is_permutation_of_range(table_from_draws(draws).subrange(0, 256), 256),
        forall|k: int|
            0 <= k < 512 ==> #[trigger] table_from_draws(draws)[k] == table_from_draws(draws)[k
                % 256],
        forall|k: int| 0 <= k < 512 ==> #[trigger] table_from_draws(draws)[k] < 256,
{
    lemma_shuffled_is_permutation(draws, 255);
    let t = table_from_draws(draws);
    assert(t.subrange(0, 256) =~= shuffled(draws, 255));
}

/// A seeded permutation table (size 256, stored twice) for generating
/// reproducible value noise that varies with the seed.
pub struct Permutation {
    table: Vec<usize>,
}

impl View for Permutation {
    type V = Seq<usize>;

    closed spec fn view(&self) -> Seq<usize> {
        self.table@
    }
}

impl Permutation {
    #[verifier::type_invariant]
    spec fn inv(self) -> bool {
        &&& self.table@.len() == 512
        &&& forall|k: int| 0 <= k < 512 ==> #[trigger] self.table@[k] < 256
    }

    /// Build the table from `seed` by a Fisher-Yates shuffle drawn from a
    /// Xoshiro256** generator seeded with `seed`.  The draws are taken at
    /// type `u64`, so the table is the same on 32-bit and 64-bit machines.
    pub fn new(seed: u64) -> (r: Permutation)
        ensures
            r@ == perm_table(seed),
    {
        let mut rng = SeededRng::seed_from_u64(seed);
        let mut draws: Vec<u64> = Vec::new();
        let mut i: u64 = 255;
        while i > 0
            invariant
                i <= 255,
                rng.seed() == seed,
                rng.drawn() == shuffle_bounds((255 - i) as nat),
                draws@ == seed_draws(seed).take(255 - i),
                forall|k: int| 0 <= k < 255 - i ==> #[trigger] draws@[k] <= 255 - k,
            decreases i,
        {
            let j = rng.gen_range_inclusive(i);
            draws.push(j);
            proof {
                assert(shuffle_bounds((255 - i) as nat).push(i) =~= shuffle_bounds(
                    (256 - i) as nat,
                ));
                assert(draws@ =~= seed_draws(seed).take(256 - i));
            }
            i = i - 1;
        }
        assert(draws@ =~= seed_draws(seed));
        Permutation::from_draws(&draws)
    }

    /// Build the table by a Fisher-Yates shuffle of `0..256` driven by
    /// `draws`: for `i` from 255 down to 1, position `i` is exchanged with
    /// position `draws[255 - i]`; the shuffled entries are then stored twice.
    pub fn from_draws(draws: &Vec<u64>) -> (r: Permutation)
        requires
            draws_in_range(draws@),
        ensures
            r@ == table_from_draws(draws@),
    {
        let mut p: Vec<usize> = Vec::new();
        let mut k: usize = 0;
        while k < 256
            invariant
                k <= 256,
                p@.len() == k,
                forall|m: int| 0 <= m < k ==> p@[m] == m,
            decreases 256 - k,
        {
            p.push(k);
            k = k + 1;
        }
        assert(p@ =~= shuffled(draws@, 0));
        let mut i: usize = 255;
        while i > 0
            invariant
                i <= 255,
                draws_in_range(draws@),
                p@ == shuffled(draws@, (255 - i) as nat),
            decreases i,
        {
            proof {
                lemma_shuffled_is_permutation(draws@, (255 - i) as nat);
            }
            let j = draws[255 - i] as usize;
            let a = p[i];
            let b = p[j];
            p.set(i, b);
            p.set(j, a);
            i = i - 1;
        }
        proof {
            lemma_shuffled_is_permutation(draws@, 255);
        }
        let mut table: Vec<usize> = Vec::new();
        let mut k: usize = 0;
        while k < 512
            invariant
                k <= 512,
                p@ == shuffled(draws@, 255),
                p@.len() == 256,
                forall|m: int| 0 <= m < 256 ==> #[trigger] p@[m] < 256,
                table@.len() == k,
                forall|m: int| 0 <= m < k ==> #[trigger] table@[m] == table_from_draws(draws@)[m],
                forall|m: int| 0 <= m < k ==> #[trigger] table@[m] < 256,
            decreases 512 - k,
        {
            table.push(p[k % 256]);
            k = k + 1;
        }
        assert(table@ =~= table_from_draws(draws@));
        Permutation { table }
    }

    /// The lattice value at integer point `(x, y)` for layer `offset`, a
    /// number in `0..256` (the noise value times 256).  The lattice repeats
    /// every 256 points in each direction, negative points included.
    pub fn hash(&self, x: i64, y: i64, offset: usize) -> (r: usize)
        requires
            offset * 7 + 13 <= usize::MAX,
        ensures
            r == lattice(self@, x as int, y as int, offset as nat),
            r < 256,
    {
        proof {
            use_type_invariant(self);
        }
        let ux = wrap_256(x);
        let uy = wrap_256(y);
        let a = self.table[ux];
        let b = (a + uy) % 256;
        let c = self.table[b];
        let step = (offset * 7 + 13) % 256;
        proof {
            lemma_add_mod_noop_right(c as int, (offset * 7 + 13) as int, 256);
        }
        (c + step) % 256
    }
}

/// The remainder of `v` divided by 256, taken in `0..256` also for
/// negative `v` (Euclidean remainder).
fn wrap_256(v: i64) -> (r: usize)
    ensures
        r == v as int % 256,
        r < 256,
{
    if v >= 0 {
        ((v as u64) % 256) as usize
    } else {
        let n = (-(v + 1)) as u64;
        let b = n % 256;
        proof {
            let a = n as int / 256;
            assert(n as int == a * 256 + b as int);
            assert(v as int == (-(a + 1)) * 256 + (255 - b as int));
            lemma_fundamental_div_mod_converse(v as int, 256, -(a + 1), 255 - b as int);
        }
        (255 - b) as usize
    }
}

// ---------------------------------------------------------------------------
// Fixed-point value noise
// ---------------------------------------------------------------------------

/// Noise coordinates are fixed-point numbers: `FIX_ONE` stands for 1.
pub const FIX_ONE: u128 = 16777216;

/// `num / den` as a fixed-point number, rounded down.
pub open spec fn fix_div(num: int, den: int) -> int {
    num * FIX_ONE / den
}

/// The smoothstep curve `f * f * (3 - 2 * f)` in fixed point, for a
/// fraction `f` in `0..FIX_ONE`.
pub open spec fn fade(f: int) -> int {
    f * f * (3 * FIX_ONE - 2 * f) / (FIX_ONE * FIX_ONE)
}

/// The value (in `0..256`) of the lattice point `(ix, iy)` of layer
/// `offset` in table `t`.  The lattice repeats every 256 points.
pub open spec fn lattice(t: Seq<usize>, ix: int, iy: int, offset: nat) -> int {
    (t[((t[(ix % 256) as int] + iy % 256) % 256) as int] + 7 * offset + 13) % 256
}

/// Value noise of layer `offset` at the fixed-point point `(px, py)`: the
/// four surrounding lattice values blended by the smoothstep of the
/// fractional parts.  The result is the noise value scaled by
/// `256 * FIX_ONE * FIX_ONE`.
#[verifier::opaque]
pub open spec fn noise(t: Seq<usize>, px: nat, py: nat, offset: nat) -> int {
    let ix = px / FIX_ONE as nat;
    let iy = py / FIX_ONE as nat;
    let sx = fade((px % FIX_ONE as nat) as int);
    let sy = fade((py % FIX_ONE as nat) as int);
    let v00 = lattice(t, ix as int, iy as int, offset);
    let v10 = lattice(t, ix as int + 1, iy as int, offset);
    let v01 = lattice(t, ix as int, iy as int + 1, offset);
    let v11 = lattice(t, ix as int + 1, iy as int + 1, offset);
    let vx0 = v00 * FIX_ONE + sx * (v10 - v00);
    let vx1 = v01 * FIX_ONE + sx * (v11 - v01);
    vx0 * FIX_ONE + sy * (vx1 - vx0)
}

/// The weight of biome number `i` in cell `(x, y)` of a `w` by `h` map:
/// one octave of noise at `(4bx + 2by, 3bx - 5by)` plus 0.3 times an octave
/// at `(8bx + 1.7, 8by + 3.1)`, where `(bx, by) = (x / w, y / h)`, all
/// scaled by 10.  The first octave's second coordinate is taken 256 higher,
/// a whole period of the lattice, so that it is never negative.
pub open spec fn cell_weight(t: Seq<usize>, w: nat, h: nat, x: nat, y: nat, i: nat) -> int {
    let px1 = fix_div(4 * x as int, w as int) + fix_div(2 * y as int, h as int);
    let py1 = fix_div(3 * x as int, w as int) + fix_div(5 * (h - y), h as int) + 251 * FIX_ONE;
    let px2 = fix_div(8 * x as int, w as int) + fix_div(17, 10);
    let py2 = fix_div(8 * y as int, h as int) + fix_div(31, 10);
    10 * noise(t, px1 as nat, py1 as nat, i) + 3 * noise(t, px2 as nat, py2 as nat, i)
}

/// The index, among biomes `0..n`, of the greatest weight in the cell; of
/// equal greatest weights the last one wins.
pub open spec fn best_index(t: Seq<usize>, w: nat, h: nat, x: nat, y: nat, n: nat) -> nat
    decreases n,
{
    if n <= 1 {
        0
    } else {
        let b = best_index(t, w, h, x, y, (n - 1) as nat);
        if cell_weight(t, w, h, x, y, (n - 1) as nat) >= cell_weight(t, w, h, x, y, b) {
            (n - 1) as nat
        } else {
            b
        }
    }
}

/// The biome chosen for cell `(x, y)` of a `w` by `h` map drawn from table `t`.
pub open spec fn cell_biome(t: Seq<usize>, w: nat, h: nat, x: nat, y: nat) -> Biome {
    all_biomes()[best_index(t, w, h, x, y, 10) as int]
}

/// The chosen index has the greatest weight among `0..n`, and every later
/// index has a smaller weight: it is the last of the greatest.
pub proof fn lemma_best_index_is_last_maximum(t: Seq<usize>, w: nat, h: nat, x: nat, y: nat, n: nat)
    requires
        n >= 1,
    ensures
        best_index(t, w, h, x, y, n) < n,
        forall|j: nat|
            j < n ==> #[trigger] cell_weight(t, w, h, x, y, j) <= cell_weight(
                t,
                w,
                h,
                x,
                y,
                best_index(t, w, h, x, y, n),
            ),
        forall|j: nat|
            best_index(t, w, h, x, y, n) < j < n ==> #[trigger] cell_weight(t, w, h, x, y, j)
                < cell_weight(t, w, h, x, y, best_index(t, w, h, x, y, n)),
    decreases n,
{
    if n > 1 {
        lemma_best_index_is_last_maximum(t, w, h, x, y, (n - 1) as nat);
    }
}

/// `num / den` in fixed point.
fn fix_div_exec(num: u128, den: u128) -> (r: u128)
    requires
        0 < den <= u64::MAX,
        num <= 16 * den,
    ensures
        r == fix_div(num as int, den as int),
        r <= 16 * FIX_ONE,
{
    proof {
        assert(num * FIX_ONE <= 16 * den * FIX_ONE) by (nonlinear_arith)
            requires
                num <= 16 * den,
        ;
        assert(16 * den * FIX_ONE <= 16 * 0xffff_ffff_ffff_ffffu128 * FIX_ONE) by (nonlinear_arith)
            requires
                den <= u64::MAX,
        ;
        assert(16 * den * FIX_ONE == (16 * FIX_ONE) * den) by (nonlinear_arith);
        lemma_div_is_ordered(num * FIX_ONE, (16 * FIX_ONE) * den, den as int);
        lemma_div_by_multiple(16 * FIX_ONE, den as int);
    }
    num * FIX_ONE / den
}

/// The smoothstep curve in fixed point.
fn fade_exec(f: u128) -> (r: i128)
    requires
        f < FIX_ONE,
    ensures
        r == fade(f as int),
        0 <= r <= 3 * FIX_ONE,
{
    proof {
        assert(f * f <= FIX_ONE * FIX_ONE) by (nonlinear_arith)
            requires
                f < FIX_ONE,
        ;
        assert(f * f * (3 * FIX_ONE - 2 * f) <= (FIX_ONE * FIX_ONE) * (3 * FIX_ONE)) by (nonlinear_arith)
            requires
                f < FIX_ONE,
                f * f <= FIX_ONE * FIX_ONE,
        ;
        lemma_div_is_ordered(
            f * f * (3 * FIX_ONE - 2 * f),
            (3 * FIX_ONE) * (FIX_ONE * FIX_ONE),
            FIX_ONE * FIX_ONE,
        );
        lemma_div_by_multiple(3 * FIX_ONE, FIX_ONE * FIX_ONE);
    }
    let ff = f * f;
    let g = 3 * FIX_ONE - 2 * f;
    assert(ff * g <= (FIX_ONE * FIX_ONE) * (3 * FIX_ONE)) by (nonlinear_arith)
        requires
            ff <= FIX_ONE * FIX_ONE,
            g <= 3 * FIX_ONE,
    ;
    assert((FIX_ONE * FIX_ONE) * (3 * FIX_ONE) == 14167099448608935641088) by (nonlinear_arith);
    let r = ff * g / (FIX_ONE * FIX_ONE);
    r as i128
}

/// Value noise of layer `offset` at the fixed-point point `(px, py)`.
fn noise_exec(perm: &Permutation, px: u128, py: u128, offset: usize) -> (r: i128)
    requires
        px < 0x100_0000_0000,
        py < 0x100_0000_0000,
        offset < 10,
    ensures
        r == noise(perm@, px as nat, py as nat, offset as nat),
        -0x1_0000_0000_0000_0000 <= r <= 0x1_0000_0000_0000_0000,
{
    reveal(noise);
    let ix = (px / FIX_ONE) as i64;
    let iy = (py / FIX_ONE) as i64;
    let sx = fade_exec(px % FIX_ONE);
    let sy = fade_exec(py % FIX_ONE);
    let v00 = perm.hash(ix, iy, offset) as i128;
    let v10 = perm.hash(ix + 1, iy, offset) as i128;
    let v01 = perm.hash(ix, iy + 1, offset) as i128;
    let v11 = perm.hash(ix + 1, iy + 1, offset) as i128;
    let one = FIX_ONE as i128;
    proof {
        assert(-255 * (3 * FIX_ONE) <= sx * (v10 - v00) <= 255 * (3 * FIX_ONE)) by (nonlinear_arith)
            requires
                0 <= sx <= 3 * FIX_ONE,
                -255 <= v10 - v00 <= 255,
        ;
        assert(-255 * (3 * FIX_ONE) <= sx * (v11 - v01) <= 255 * (3 * FIX_ONE)) by (nonlinear_arith)
            requires
                0 <= sx <= 3 * FIX_ONE,
                -255 <= v11 - v01 <= 255,
        ;
        assert(0 <= v00 * one <= 255 * FIX_ONE) by (nonlinear_arith)
            requires
                0 <= v00 < 256,
                one == FIX_ONE,
        ;
        assert(0 <= v01 * one <= 255 * FIX_ONE) by (nonlinear_arith)
            requires
                0 <= v01 < 256,
                one == FIX_ONE,
        ;
    }
    let vx0 = v00 * one + sx * (v10 - v00);
    let vx1 = v01 * one + sx * (v11 - v01);
    proof {
        assert(-(0x10_0000_0000 * FIX_ONE) <= vx0 * one <= 0x10_0000_0000 * FIX_ONE) by (nonlinear_arith)
            requires
                -0x10_0000_0000 <= vx0 <= 0x10_0000_0000,
                one == FIX_ONE,
        ;
        assert(-(3 * FIX_ONE) * 0x20_0000_0000 <= sy * (vx1 - vx0) <= (3 * FIX_ONE) * 0x20_0000_0000)
            by (nonlinear_arith)
            requires
                0 <= sy <= 3 * FIX_ONE,
                -0x20_0000_0000 <= vx1 - vx0 <= 0x20_0000_0000,
        ;
    }
    vx0 * one + sy * (vx1 - vx0)
}

/// The weight of biome number `i` in cell `(x, y)` of a `w` by `h` map.
fn cell_weight_exec(perm: &Permutation, w: usize, h: usize, x: usize, y: usize, i: usize) -> (r: i128)
    requires
        x < w,
        y < h,
        i < 10,
    ensures
        r == cell_weight(perm@, w as nat, h as nat, x as nat, y as nat, i as nat),
{
    let wd = w as u128;
    let hd = h as u128;
    let xn = x as u128;
    let yn = y as u128;
    let px1 = fix_div_exec(4 * xn, wd) + fix_div_exec(2 * yn, hd);
    let py1 = fix_div_exec(3 * xn, wd) + fix_div_exec(5 * (hd - yn), hd) + 251 * FIX_ONE;
    let px2 = fix_div_exec(8 * xn, wd) + fix_div_exec(17, 10);
    let py2 = fix_div_exec(8 * yn, hd) + fix_div_exec(31, 10);
    let n1 = noise_exec(perm, px1, py1, i);
    let n2 = noise_exec(perm, px2, py2, i);
    10 * n1 + 3 * n2
}

/// The biome chosen for cell `(x, y)` of a `w` by `h` map.
pub fn cell_biome_exec(perm: &Permutation, w: usize, h: usize, x: usize, y: usize) -> (b: Biome)
    requires
        x < w,
        y < h,
    ensures
        b == cell_biome(perm@, w as nat, h as nat, x as nat, y as nat),
{
    let mut best: usize = 0;
    let mut best_w = cell_weight_exec(perm, w, h, x, y, 0);
    let mut i: usize = 1;
    while i < 10
        invariant
            1 <= i <= 10,
            x < w,
            y < h,
            best == best_index(perm@, w as nat, h as nat, x as nat, y as nat, i as nat),
            best < i,
            best_w == cell_weight(perm@, w as nat, h as nat, x as nat, y as nat, best as nat),
        decreases 10 - i,
    {
        let wi = cell_weight_exec(perm, w, h, x, y, i);
        if wi >= best_w {
            best = i;
            best_w = wi;
        }
        i = i + 1;
    }
    Biome::from_index(best)
}

} // verus!
