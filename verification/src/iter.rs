use vstd::prelude::*;

use crate::biome::Biome;
use crate::map::BiomeMap;

verus! {

/// Cell number `l` of a map `w` cells wide, counted row by row: its
/// coordinates `(x, y)` and its biome.
pub open spec fn cell_item(map: BiomeMap, l: int) -> (usize, usize, Biome) {
    let w = map.width as int;
    ((l % w) as usize, (l / w) as usize, map.biomes@[l / w]@[l % w])
}

/// All cells of a map, row by row: item `l` is cell number `l`.
pub open spec fn all_cells(map: BiomeMap) -> Seq<(usize, usize, Biome)> {
    Seq::new((map.width * map.height) as nat, |l: int| cell_item(map, l))
}

/// An iterator over the `(x, y, biome)` cells of a map, row by row.
pub struct BiomeMapIter<'a> {
    map: &'a BiomeMap,
    x: usize,
    y: usize,
    calls: Ghost<nat>,
}

impl BiomeMap {
    /// Return an iterator over `(x, y, biome)` tuples, row by row.
    pub fn iter(&self) -> (it: BiomeMapIter<'_>)
        ensures
            it.map() == *self,
            it.x() == 0,
            it.y() == 0,
            it.calls() == 0,
            self.wf() ==> it.valid() && it.remaining() == all_cells(*self),
    {
        let it = BiomeMapIter { map: self, x: 0, y: 0, calls: Ghost(0) };
        proof {
            if self.wf() {
                assert(it.remaining() =~= all_cells(*self));
            }
        }
        it
    }
}

impl<'a> BiomeMapIter<'a> {
    /// The map being walked.
    pub closed spec fn map(&self) -> BiomeMap {
        *self.map
    }

    /// The column of the next cell.
    pub closed spec fn x(&self) -> usize {
        self.x
    }

    /// The row of the next cell.
    pub closed spec fn y(&self) -> usize {
        self.y
    }

    /// How many times `next` has been called since `iter` made this iterator.
    pub closed spec fn calls(&self) -> nat {
        self.calls@
    }

    /// The number of cells of the map.
    pub open spec fn total(&self) -> int {
        self.map().width * self.map().height
    }

    /// The number of the next cell, counted row by row.
    pub open spec fn position(&self) -> int {
        self.y() * self.map().width + self.x()
    }

    /// `next` can be called: the walk is over, the map has no columns, or
    /// the next cell exists in the grid.
    pub open spec fn can_step(&self) -> bool {
        ||| self.y() >= self.map().height
        ||| self.map().width == 0
        ||| self.y() < self.map().biomes@.len() && self.x() < self.map().biomes@[self.y() as int]@.len()
    }

    /// The walk is over a well-formed map and stands at one of its cells,
    /// or at its end, having yielded as many cells as `next` was called,
    /// up to the number of cells.
    pub open spec fn valid(&self) -> bool {
        &&& self.map().wf()
        &&& (self.x() < self.map().width || self.x() == 0)
        &&& self.y() <= self.map().height
        &&& (self.y() == self.map().height ==> self.x() == 0)
        &&& (self.map().width == 0 ==> self.y() == 0)
        &&& self.position() == if self.calls() < self.total() {
            self.calls() as int
        } else {
            self.total()
        }
    }

    /// The cells the walk has still to yield, in order.
    pub open spec fn remaining(&self) -> Seq<(usize, usize, Biome)> {
        if self.position() >= self.total() {
            Seq::empty()
        } else {
            all_cells(self.map()).subrange(self.position(), self.total())
        }
    }

    /// Yield the next cell and move on, or `None` once the last row is done
    /// (at once if the map has no columns).
    pub fn next(&mut self) -> (item: Option<(usize, usize, Biome)>)
        requires
            old(self).can_step(),
        ensures
            final(self).map() == old(self).map(),
            final(self).calls() == old(self).calls() + 1,
            old(self).y() >= old(self).map().height || old(self).map().width == 0 ==> item is None
                && final(self).x() == old(self).x() && final(self).y() == old(self).y(),
            old(self).y() < old(self).map().height && old(self).map().width > 0 ==> {
                &&& item == Some(
                    (
                        old(self).x(),
                        old(self).y(),
                        old(self).map().biomes@[old(self).y() as int]@[old(self).x() as int],
                    ),
                )
                &&& old(self).x() + 1 >= old(self).map().width ==> final(self).x() == 0
                    && final(self).y() == old(self).y() + 1
                &&& old(self).x() + 1 < old(self).map().width ==> final(self).x() == old(self).x()
                    + 1 && final(self).y() == old(self).y()
            },
            old(self).valid() ==> {
                &&& final(self).valid()
                &&& item == if old(self).calls() < old(self).total() {
                    Some(cell_item(old(self).map(), old(self).calls() as int))
                } else {
                    None
                }
                &&& old(self).remaining().len() == 0 ==> item is None && final(self).remaining()
                    == old(self).remaining()
                &&& old(self).remaining().len() > 0 ==> item == Some(old(self).remaining()[0])
                    && final(self).remaining() == old(self).remaining().drop_first()
            },
    {
        if self.y >= self.map.height || self.map.width == 0 {
            self.calls = Ghost(self.calls@ + 1);
            proof {
                if old(self).valid() {
                    let w = self.map().width as int;
                    let h = self.map().height as int;
                    assert(w * h == h * w) by (nonlinear_arith);
                    if w > 0 {
                        assert(self.position() == h * w);
                    } else {
                        assert(self.position() == 0);
                    }
                }
            }
            return None;
        }
        let row = &self.map.biomes[self.y];
        let row_len = row.len();
        assert(self.x + 1 <= row_len);
        let item = (self.x, self.y, row[self.x]);
        let ghost x0 = self.x as int;
        let ghost y0 = self.y as int;
        self.x = self.x + 1;
        if self.x >= self.map.width {
            self.x = 0;
            self.y = self.y + 1;
        }
        self.calls = Ghost(self.calls@ + 1);
        proof {
            if old(self).valid() {
                let w = self.map().width as int;
                let h = self.map().height as int;
                let p = y0 * w + x0;
                assert(p < h * w) by (nonlinear_arith)
                    requires
                        0 <= x0 < w,
                        0 <= y0 < h,
                        p == y0 * w + x0,
                ;
                assert(w * h == h * w) by (nonlinear_arith);
                assert((y0 + 1) * w == y0 * w + w) by (nonlinear_arith);
                assert(self.position() == p + 1);
                vstd::arithmetic::div_mod::lemma_fundamental_div_mod_converse(p, w, y0, x0);
                assert(cell_item(self.map(), p) == item);
                assert(old(self).remaining()[0] == item);
                assert(self.remaining() =~= old(self).remaining().drop_first());
            }
        }
        Some(item)
    }
}

} // verus!
