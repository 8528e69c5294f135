//! The grid itself.

use crate::bits::{all_clear, bits_of, packs};
use crate::laws::{
    lemma_all_clear_population, lemma_cell_index_bounds, lemma_index_coordinates, lemma_ring,
    lemma_with_alive_extend, lemma_with_alive_nothing,
};
use crate::model::{cell_index, next_alive, seed_alive, seed_cells, step, with_alive, Grid};
use fixedbitset::FixedBitSet;
use vstd::prelude::*;

verus! {

/// A Game of Life grid with wraparound edges.
///
/// The current generation and a staging buffer of the same size are kept as
/// packed bits. A generation step reads only the first, writes only the
/// second, and then exchanges them.
#[derive(Debug)]
pub struct Universe {
    width: u32,
    height: u32,
    cells: FixedBitSet,
    next_cells: FixedBitSet,
}

impl View for Universe {
    type V = Grid;

    closed spec fn view(&self) -> Grid {
        Grid {
            width: self.width as nat,
            height: self.height as nat,
            cells: bits_of(self.cells),
        }
    }
}

/// The transition rule for one cell, given whether it is alive and how many
/// of its neighbours are.
pub fn next_state(alive: bool, live_neighbors: u8) -> (next: bool)
    ensures
        next == next_alive(alive, live_neighbors as int),
{
    match (alive, live_neighbors) {
        (true, x) if x < 2 => false,
        (true, 2) | (true, 3) => true,
        (true, x) if x > 3 => false,
        (false, 3) => true,
        (otherwise, _) => otherwise,
    }
}

impl Universe {
    /// What the staging buffer holds. It is no part of the grid's state: a
    /// generation step overwrites all of it before the buffers change places.
    pub closed spec fn staging(&self) -> Seq<bool> {
        bits_of(self.next_cells)
    }

    /// The representation invariant: the model is well formed, and the
    /// staging buffer is as large as the current generation.
    pub open spec fn wf(&self) -> bool {
        &&& self@.wf()
        &&& self.staging().len() == self@.cells.len()
    }

    /// Creates a grid of the given dimensions, filled with the seed pattern:
    /// the cell at linear index `i` is alive exactly when `i` is a multiple
    /// of 2 or of 7.
    pub fn new(width: u32, height: u32) -> (universe: Universe)
        requires
            width * height <= u32::MAX,
        ensures
            universe.wf(),
            universe@ == (Grid {
                width: width as nat,
                height: height as nat,
                cells: seed_cells((width * height) as nat),
            }),
            universe.staging() == universe@.cells,
    {
        let size: usize = (width * height) as usize;
        let mut cells = FixedBitSet::with_capacity(size);
        let mut i: usize = 0;
        while i < size
            invariant
                i <= size,
                bits_of(cells).len() == size,
                forall|j: int| 0 <= j < i ==> bits_of(cells)[j] == seed_alive(j),
            decreases size - i,
        {
            cells.set(i, i % 2 == 0 || i % 7 == 0);
            i += 1;
        }
        let next_cells = cells.clone();
        assert(bits_of(cells) =~= seed_cells((width * height) as nat));
        Universe { width, height, cells, next_cells }
    }

    /// The number of columns.
    pub fn width(&self) -> (w: u32)
        ensures
            w == self@.width,
    {
        self.width
    }

    /// The number of rows.
    pub fn height(&self) -> (h: u32)
        ensures
            h == self@.height,
    {
        self.height
    }

    /// The number of cells.
    pub fn area(&self) -> (a: u32)
        requires
            self.wf(),
        ensures
            a == self@.width * self@.height,
            a == self@.cells.len(),
    {
        self.width * self.height
    }

    /// The packed words that hold the current generation.
    pub fn get_cells(&self) -> (blocks: &[usize])
        ensures
            packs(blocks@, self@.cells),
    {
        self.cells.as_slice()
    }

    /// Whether the cell at `(row, column)` is alive.
    pub fn get_cell_state(&self, row: u32, column: u32) -> (alive: bool)
        requires
            self.wf(),
            self@.in_bounds(row as int, column as int),
        ensures
            alive == self@.alive(row as int, column as int),
    {
        let idx = self.get_index(row, column);
        self.cells.contains(idx)
    }

    /// Inverts the cell at `(row, column)` and no other.
    pub fn toggle_cell(&mut self, row: u32, column: u32)
        requires
            old(self).wf(),
            old(self)@.in_bounds(row as int, column as int),
        ensures
            final(self).wf(),
            final(self)@ == old(self)@.toggled(row as int, column as int),
            final(self).staging() == old(self).staging(),
    {
        let idx = self.get_index(row, column);
        self.cells.toggle(idx);
    }

    /// The linear index of the cell at `(row, column)`.
    fn get_index(&self, row: u32, column: u32) -> (idx: usize)
        requires
            self.wf(),
            self@.in_bounds(row as int, column as int),
        ensures
            idx == cell_index(self@.width as int, row as int, column as int),
            idx < self@.cells.len(),
    {
        proof {
            lemma_cell_index_bounds(
                self.width as int,
                self.height as int,
                row as int,
                column as int,
            );
        }
        (row * self.width + column) as usize
    }

    /// The row and column of the cell at linear index `idx`.
    fn get_row_col(&self, idx: u32) -> (rc: (u32, u32))
        requires
            self.wf(),
            idx < self@.cells.len(),
        ensures
            rc.0 == idx as int / self@.width as int,
            rc.1 == idx as int % self@.width as int,
            self@.in_bounds(rc.0 as int, rc.1 as int),
            cell_index(self@.width as int, rc.0 as int, rc.1 as int) == idx,
    {
        proof {
            lemma_index_coordinates(self.width as int, self.height as int, idx as int);
        }
        (idx / self.width(), idx % self.width())
    }

    /// Counts the live cells among the eight neighbours of `(row, column)`,
    /// the grid's edges being joined to the opposite edges.
    pub fn live_neighbor_count(&self, row: u32, column: u32) -> (count: u8)
        requires
            self.wf(),
            self@.in_bounds(row as int, column as int),
        ensures
            count == self@.live_neighbors(row as int, column as int),
            count <= 8,
    {
        proof {
            lemma_ring(row as int, self.height as int);
            lemma_ring(column as int, self.width as int);
        }
        let mut count: u8 = 0;

        let north = if row == 0 {
            self.height - 1
        } else {
            row - 1
        };
        let south = if row == self.height - 1 {
            0
        } else {
            row + 1
        };
        let west = if column == 0 {
            self.width - 1
        } else {
            column - 1
        };
        let east = if column == self.width - 1 {
            0
        } else {
            column + 1
        };

        let nw = self.get_index(north, west);
        count += self.cells.contains(nw) as u8;

        let n = self.get_index(north, column);
        count += self.cells.contains(n) as u8;

        let ne = self.get_index(north, east);
        count += self.cells.contains(ne) as u8;

        let w = self.get_index(row, west);
        count += self.cells.contains(w) as u8;

        let e = self.get_index(row, east);
        count += self.cells.contains(e) as u8;

        let sw = self.get_index(south, west);
        count += self.cells.contains(sw) as u8;

        let s = self.get_index(south, column);
        count += self.cells.contains(s) as u8;

        let se = self.get_index(south, east);
        count += self.cells.contains(se) as u8;

        count
    }

    /// Advances the grid by one generation: every cell's next state is
    /// computed from the current generation alone, and the whole grid changes
    /// at once.
    pub fn tick(&mut self)
        requires
            old(self).wf(),
        ensures
            final(self).wf(),
            final(self)@ == old(self)@.step(),
            final(self).staging() == old(self)@.cells,
    {
        self.next_cells.clear();

        let area: u32 = self.area();
        let mut i: u32 = 0;
        while i < area
            invariant
                i <= area,
                self.wf(),
                self.width == old(self).width,
                self.height == old(self).height,
                area == bits_of(self.cells).len(),
                bits_of(self.cells) == bits_of(old(self).cells),
                forall|j: int|
                    0 <= j < i ==> bits_of(self.next_cells)[j] == step(
                        bits_of(self.cells),
                        self.width as int,
                        self.height as int,
                    )[j],
            decreases area - i,
        {
            let (row, col) = self.get_row_col(i);
            let cell = self.cells.contains(i as usize);
            let live_neighbors = self.live_neighbor_count(row, col);

            self.next_cells.set(i as usize, next_state(cell, live_neighbors));
            i += 1;
        }
        assert(bits_of(self.next_cells) =~= step(
            bits_of(self.cells),
            self.width as int,
            self.height as int,
        ));
        std::mem::swap(&mut self.cells, &mut self.next_cells);
    }

    /// Makes every listed cell alive. Cells that are not listed keep their
    /// state, and listing a cell more than once is the same as listing it
    /// once.
    pub fn set_cells(&mut self, cells: &[(u32, u32)])
        requires
            old(self).wf(),
            forall|k: int|
                0 <= k < cells@.len() ==> old(self)@.in_bounds(
                    (#[trigger] cells@[k]).0 as int,
                    cells@[k].1 as int,
                ),
        ensures
            final(self).wf(),
            final(self)@ == old(self)@.with_alive(cells@),
            final(self).staging() == old(self).staging(),
    {
        let mut k: usize = 0;
        proof {
            lemma_with_alive_nothing(bits_of(self.cells), self.width as int);
            assert(cells@.take(0) =~= Seq::empty());
        }
        while k < cells.len()
            invariant
                k <= cells@.len(),
                self.wf(),
                self.width == old(self).width,
                self.height == old(self).height,
                self.next_cells == old(self).next_cells,
                forall|k: int|
                    0 <= k < cells@.len() ==> old(self)@.in_bounds(
                        (#[trigger] cells@[k]).0 as int,
                        cells@[k].1 as int,
                    ),
                bits_of(self.cells) == with_alive(
                    bits_of(old(self).cells),
                    self.width as int,
                    cells@.take(k as int),
                ),
            decreases cells@.len() - k,
        {
            let (row, column) = cells[k];
            let idx = self.get_index(row, column);
            proof {
                lemma_with_alive_extend(
                    bits_of(old(self).cells),
                    self.width as int,
                    cells@,
                    k as int,
                );
            }
            self.cells.set(idx, true);
            k += 1;
        }
        assert(cells@.take(k as int) =~= cells@);
    }

    /// Replaces the number of columns. Every cell of the resized grid is
    /// dead: no part of the earlier pattern is kept.
    pub fn set_width(&mut self, width: u32)
        requires
            width * old(self)@.height <= u32::MAX,
        ensures
            final(self).wf(),
            final(self)@ == (Grid {
                width: width as nat,
                height: old(self)@.height,
                cells: all_clear(width as nat * old(self)@.height),
            }),
            final(self)@.population() == 0,
            final(self).staging() == final(self)@.cells,
    {
        proof {
            lemma_all_clear_population(width as nat * self.height as nat);
        }
        let size: usize = (width * self.height) as usize;
        self.width = width;
        self.cells = FixedBitSet::with_capacity(size);
        self.next_cells = FixedBitSet::with_capacity(size);
    }

    /// Replaces the number of rows. Every cell of the resized grid is dead:
    /// no part of the earlier pattern is kept.
    pub fn set_height(&mut self, height: u32)
        requires
            old(self)@.width * height <= u32::MAX,
        ensures
            final(self).wf(),
            final(self)@ == (Grid {
                width: old(self)@.width,
                height: height as nat,
                cells: all_clear(old(self)@.width * height as nat),
            }),
            final(self)@.population() == 0,
            final(self).staging() == final(self)@.cells,
    {
        proof {
            lemma_all_clear_population(self.width as nat * height as nat);
        }
        let size: usize = (self.width * height) as usize;
        self.height = height;
        self.cells = FixedBitSet::with_capacity(size);
        self.next_cells = FixedBitSet::with_capacity(size);
    }
}

impl Default for Universe {
    /// The grid without cells: no columns and no rows.
    fn default() -> (universe: Universe)
        ensures
            universe.wf(),
            universe@ == (Grid { width: 0, height: 0, cells: Seq::empty() }),
            universe.staging() == universe@.cells,
    {
        let universe = Universe {
            width: 0,
            height: 0,
            cells: FixedBitSet::with_capacity(0),
            next_cells: FixedBitSet::with_capacity(0),
        };
        assert(universe@.cells =~= Seq::empty());
        assert(universe@.width == 0);
        universe
    }
}

} // verus!
