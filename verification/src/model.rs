//! The mathematical model of the grid and of one generation step.
//!
//! A grid is its two dimensions and a sequence of booleans in row-major
//! order. Everything here is ghost code: the executable grid is proved to
//! behave as these functions say.

use vstd::prelude::*;

verus! {

/// What a grid is, mathematically.
pub struct Grid {
    /// Number of columns.
    pub width: nat,
    /// Number of rows.
    pub height: nat,
    /// Liveness of each cell, row after row.
    pub cells: Seq<bool>,
}

impl Grid {
    /// A grid is well formed when it holds one boolean per cell and its area
    /// fits the 32-bit range in which cells are counted.
    pub open spec fn wf(self) -> bool {
        &&& self.cells.len() == self.width * self.height
        &&& self.width * self.height <= u32::MAX
    }

    /// Whether `(row, column)` addresses a cell of this grid.
    pub open spec fn in_bounds(self, row: int, column: int) -> bool {
        0 <= row < self.height && 0 <= column < self.width
    }

    /// Whether the cell at `(row, column)` is alive.
    pub open spec fn alive(self, row: int, column: int) -> bool {
        self.cells[cell_index(self.width as int, row, column)]
    }

    /// 1 if the cell at `(row, column)` is alive, else 0.
    pub open spec fn population_at(self, row: int, column: int) -> int {
        if self.alive(row, column) {
            1
        } else {
            0
        }
    }

    /// The number of live cells among the eight neighbours of
    /// `(row, column)`, the edges being joined to the opposite edges.
    pub open spec fn live_neighbors(self, row: int, column: int) -> int {
        live_neighbors(self.cells, self.width as int, self.height as int, row, column)
    }

    /// The grid one generation later.
    pub open spec fn step(self) -> Grid {
        Grid { cells: step(self.cells, self.width as int, self.height as int), ..self }
    }

    /// The grid with the cell at `(row, column)` inverted.
    pub open spec fn toggled(self, row: int, column: int) -> Grid {
        let i = cell_index(self.width as int, row, column);
        Grid { cells: self.cells.update(i, !self.cells[i]), ..self }
    }

    /// The grid with every listed cell alive and all others as they were.
    pub open spec fn with_alive(self, coords: Seq<(u32, u32)>) -> Grid {
        Grid { cells: with_alive(self.cells, self.width as int, coords), ..self }
    }

    /// The number of live cells.
    pub open spec fn population(self) -> nat {
        live_count(self.cells)
    }

    /// Whether the live cells are exactly the 2x2 block whose upper left
    /// cell is `(top, left)`.
    pub open spec fn is_block(self, top: int, left: int) -> bool {
        forall|row: int, column: int|
            self.in_bounds(row, column) ==> #[trigger] self.alive(row, column) == in_block(
                top,
                left,
                row,
                column,
            )
    }

    /// Whether the live cells are exactly three in a row, side by side,
    /// the middle one at `(row, column)`.
    pub open spec fn is_row_of_three(self, row: int, column: int) -> bool {
        forall|r: int, c: int|
            self.in_bounds(r, c) ==> #[trigger] self.alive(r, c) == (r == row && column - 1 <= c
                <= column + 1)
    }

    /// Whether the live cells are exactly three in a column, one above the
    /// other, the middle one at `(row, column)`.
    pub open spec fn is_column_of_three(self, row: int, column: int) -> bool {
        forall|r: int, c: int|
            self.in_bounds(r, c) ==> #[trigger] self.alive(r, c) == (c == column && row - 1 <= r
                <= row + 1)
    }
}

/// Whether `(row, column)` is one of the four cells of the 2x2 block whose
/// upper left cell is `(top, left)`.
pub open spec fn in_block(top: int, left: int, row: int, column: int) -> bool {
    (row == top || row == top + 1) && (column == left || column == left + 1)
}

/// Whether the cell at linear index `i` is alive in a freshly created grid.
pub open spec fn seed_alive(i: int) -> bool {
    i % 2 == 0 || i % 7 == 0
}

/// The cells of a freshly created grid of `n` cells.
pub open spec fn seed_cells(n: nat) -> Seq<bool> {
    Seq::new(n, |i: int| seed_alive(i))
}

/// The linear index of the cell at `(row, column)` in a grid `width` wide.
pub open spec fn cell_index(width: int, row: int, column: int) -> int {
    row * width + column
}

/// The coordinate before `x` on a ring of `n` positions.
pub open spec fn ring_prev(x: int, n: int) -> int {
    (x + n - 1) % n
}

/// The coordinate after `x` on a ring of `n` positions.
pub open spec fn ring_next(x: int, n: int) -> int {
    (x + 1) % n
}

/// 1 if the cell at `(row, column)` is alive, else 0.
pub open spec fn population_at(cells: Seq<bool>, width: int, row: int, column: int) -> int {
    if cells[cell_index(width, row, column)] {
        1
    } else {
        0
    }
}

/// The number of live cells among the eight neighbours of `(row, column)` on
/// the torus. On an axis of length 1 a cell is its own neighbour, and on an
/// axis of length 2 the same neighbour is met from both sides; each of the
/// eight directions counts.
pub open spec fn live_neighbors(cells: Seq<bool>, width: int, height: int, row: int, column: int) -> int {
    let north = ring_prev(row, height);
    let south = ring_next(row, height);
    let west = ring_prev(column, width);
    let east = ring_next(column, width);
    population_at(cells, width, north, west) + population_at(cells, width, north, column)
        + population_at(cells, width, north, east) + population_at(cells, width, row, west)
        + population_at(cells, width, row, east) + population_at(cells, width, south, west)
        + population_at(cells, width, south, column) + population_at(cells, width, south, east)
}

/// The transition rule: a cell is alive in the next generation exactly when
/// it has three live neighbours, or is alive and has two.
pub open spec fn next_alive(alive: bool, neighbors: int) -> bool {
    neighbors == 3 || (alive && neighbors == 2)
}

/// The cells one generation later: the rule applied to every cell at once.
pub open spec fn step(cells: Seq<bool>, width: int, height: int) -> Seq<bool> {
    Seq::new(
        cells.len(),
        |i: int| next_alive(cells[i], live_neighbors(cells, width, height, i / width, i % width)),
    )
}

/// Whether some entry of `coords` addresses the cell at linear index `i`.
pub open spec fn listed(coords: Seq<(u32, u32)>, width: int, i: int) -> bool {
    exists|k: int|
        0 <= k < coords.len() && #[trigger] cell_index(
            width,
            coords[k].0 as int,
            coords[k].1 as int,
        ) == i
}

/// The cells after every listed coordinate has been made alive.
pub open spec fn with_alive(cells: Seq<bool>, width: int, coords: Seq<(u32, u32)>) -> Seq<bool> {
    Seq::new(cells.len(), |i: int| cells[i] || listed(coords, width, i))
}

/// The number of `true` entries of `cells`.
pub open spec fn live_count(cells: Seq<bool>) -> nat
    decreases cells.len(),
{
    if cells.len() == 0 {
        0
    } else {
        live_count(cells.drop_last()) + if cells.last() {
            1nat
        } else {
            0nat
        }
    }
}

} // verus!
