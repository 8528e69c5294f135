//! What holds of the model: facts about indices and the ring of
//! coordinates, and the laws of the game that follow from the definitions.

use crate::bits::all_clear;
use crate::model::{
    cell_index, listed, live_count, next_alive, ring_next, ring_prev, seed_alive, seed_cells,
    with_alive, Grid,
};
use vstd::prelude::*;

verus! {

/// On a ring of `n` positions, the position before 0 is `n - 1` and the
/// position after `n - 1` is 0; elsewhere they are `x - 1` and `x + 1`.
pub proof fn lemma_ring(x: int, n: int)
    requires
        0 <= x < n,
    ensures
        ring_prev(x, n) == if x == 0 {
            n - 1
        } else {
            x - 1
        },
        ring_next(x, n) == if x == n - 1 {
            0
        } else {
            x + 1
        },
        0 <= ring_prev(x, n) < n,
        0 <= ring_next(x, n) < n,
{
    if x == 0 {
        vstd::arithmetic::div_mod::lemma_small_mod((n - 1) as nat, n as nat);
    } else {
        vstd::arithmetic::div_mod::lemma_mod_add_multiples_vanish(x - 1, n);
        vstd::arithmetic::div_mod::lemma_small_mod((x - 1) as nat, n as nat);
    }
    if x == n - 1 {
        vstd::arithmetic::div_mod::lemma_mod_self_0(n);
    } else {
        vstd::arithmetic::div_mod::lemma_small_mod((x + 1) as nat, n as nat);
    }
}

/// The linear index of a cell of the grid lies inside the area, and the row
/// and column can be read back from it by division.
pub proof fn lemma_cell_index_bounds(width: int, height: int, row: int, column: int)
    requires
        0 <= row < height,
        0 <= column < width,
    ensures
        0 <= cell_index(width, row, column) < width * height,
        cell_index(width, row, column) / width == row,
        cell_index(width, row, column) % width == column,
{
    assert(0 <= row * width && (row + 1) * width <= height * width) by (nonlinear_arith)
        requires
            0 <= row < height,
            0 < width,
    ;
    assert((row + 1) * width == row * width + width) by (nonlinear_arith);
    assert(height * width == width * height) by (nonlinear_arith);
    vstd::arithmetic::div_mod::lemma_fundamental_div_mod_converse(
        cell_index(width, row, column),
        width,
        row,
        column,
    );
}

/// Listing no cell changes nothing.
pub proof fn lemma_with_alive_nothing(cells: Seq<bool>, width: int)
    ensures
        with_alive(cells, width, Seq::empty()) == cells,
{
    assert(with_alive(cells, width, Seq::empty()) =~= cells);
}

/// Making the first `k + 1` listed cells alive is making the first `k` alive
/// and then the one after them.
pub proof fn lemma_with_alive_extend(cells: Seq<bool>, width: int, coords: Seq<(u32, u32)>, k: int)
    requires
        0 <= k < coords.len(),
        0 <= cell_index(width, coords[k].0 as int, coords[k].1 as int) < cells.len(),
    ensures
        with_alive(cells, width, coords.take(k + 1)) == with_alive(
            cells,
            width,
            coords.take(k),
        ).update(cell_index(width, coords[k].0 as int, coords[k].1 as int), true),
{
    let shorter = coords.take(k);
    let longer = coords.take(k + 1);
    let target = cell_index(width, coords[k].0 as int, coords[k].1 as int);
    assert forall|i: int| 0 <= i < cells.len() implies listed(longer, width, i) == (listed(
        shorter,
        width,
        i,
    ) || i == target) by {
        if listed(longer, width, i) {
            let j = choose|j: int|
                0 <= j < longer.len() && #[trigger] cell_index(
                    width,
                    longer[j].0 as int,
                    longer[j].1 as int,
                ) == i;
            if j < k {
                assert(cell_index(width, shorter[j].0 as int, shorter[j].1 as int) == i);
            }
        }
        if listed(shorter, width, i) {
            let j = choose|j: int|
                0 <= j < shorter.len() && #[trigger] cell_index(
                    width,
                    shorter[j].0 as int,
                    shorter[j].1 as int,
                ) == i;
            assert(cell_index(width, longer[j].0 as int, longer[j].1 as int) == i);
        }
        if i == target {
            assert(cell_index(width, longer[k].0 as int, longer[k].1 as int) == i);
        }
    }
    assert(with_alive(cells, width, longer) =~= with_alive(cells, width, shorter).update(
        target,
        true,
    ));
}

/// Two different cells of a grid have different linear indices.
pub proof fn lemma_cell_index_injective(width: int, height: int, r1: int, c1: int, r2: int, c2: int)
    requires
        0 <= r1 < height,
        0 <= c1 < width,
        0 <= r2 < height,
        0 <= c2 < width,
        cell_index(width, r1, c1) == cell_index(width, r2, c2),
    ensures
        r1 == r2,
        c1 == c2,
{
    lemma_cell_index_bounds(width, height, r1, c1);
    lemma_cell_index_bounds(width, height, r2, c2);
}

/// Two well-formed grids of the same dimensions that agree on every cell are
/// the same grid.
pub proof fn lemma_grid_ext(a: Grid, b: Grid)
    requires
        a.wf(),
        b.wf(),
        a.width == b.width,
        a.height == b.height,
        forall|row: int, column: int|
            a.in_bounds(row, column) ==> #[trigger] a.alive(row, column) == b.alive(row, column),
    ensures
        a == b,
{
    let w = a.width as int;
    let h = a.height as int;
    assert forall|i: int| 0 <= i < a.cells.len() implies a.cells[i] == b.cells[i] by {
        lemma_index_coordinates(w, h, i);
        assert(a.alive(i / w, i % w) == b.alive(i / w, i % w));
    }
    assert(a.cells =~= b.cells);
}

/// Every linear index inside the area is the index of the cell at row
/// `i / width`, column `i % width`, which lies inside the grid.
pub proof fn lemma_index_coordinates(width: int, height: int, i: int)
    requires
        0 <= width,
        0 <= height,
        0 <= i < width * height,
    ensures
        0 < width,
        0 <= i / width < height,
        0 <= i % width < width,
        cell_index(width, i / width, i % width) == i,
{
    assert(width > 0) by (nonlinear_arith)
        requires
            0 <= i < width * height,
            0 <= width,
    ;
    vstd::arithmetic::div_mod::lemma_fundamental_div_mod(i, width);
    vstd::arithmetic::div_mod::lemma_div_pos_is_pos(i, width);
    assert(i / width < height) by (nonlinear_arith)
        requires
            i == width * (i / width) + i % width,
            0 <= i % width,
            0 <= i < width * height,
            0 < width,
    ;
    assert(width * (i / width) == (i / width) * width) by (nonlinear_arith);
}

/// A new grid shows the seed pattern: the cell at `(row, column)` is alive
/// exactly when its linear index is a multiple of 2 or of 7.
pub proof fn lemma_seed_cell(width: nat, height: nat, row: int, column: int)
    requires
        0 <= row < height,
        0 <= column < width,
    ensures
        (Grid { width, height, cells: seed_cells(width * height) }).alive(row, column)
            == seed_alive(row * width + column),
{
    lemma_cell_index_bounds(width as int, height as int, row, column);
}

/// The eight neighbours of a cell, written out: the row above row 0 is the
/// last row, the row below the last row is row 0, and the same for columns.
pub proof fn lemma_live_neighbors(g: Grid, row: int, column: int)
    requires
        g.wf(),
        g.in_bounds(row, column),
    ensures
        ({
            let north = if row == 0 {
                g.height - 1
            } else {
                row - 1
            };
            let south = if row == g.height - 1 {
                0
            } else {
                row + 1
            };
            let west = if column == 0 {
                g.width - 1
            } else {
                column - 1
            };
            let east = if column == g.width - 1 {
                0
            } else {
                column + 1
            };
            &&& g.in_bounds(north, west)
            &&& g.in_bounds(south, east)
            &&& g.live_neighbors(row, column) == g.population_at(north, west) + g.population_at(
                north,
                column,
            ) + g.population_at(north, east) + g.population_at(row, west) + g.population_at(
                row,
                east,
            ) + g.population_at(south, west) + g.population_at(south, column) + g.population_at(
                south,
                east,
            )
        }),
        0 <= g.live_neighbors(row, column) <= 8,
{
    lemma_ring(row, g.height as int);
    lemma_ring(column, g.width as int);
}

/// On a grid of at least three rows and three columns, the neighbours of
/// the corner cell `(0, 0)` are the cells across the edges: those of the
/// last row and the last column, together with `(0, 1)`, `(1, 0)` and
/// `(1, 1)`.
pub proof fn lemma_corner_neighbors(g: Grid)
    requires
        g.wf(),
        g.width >= 3,
        g.height >= 3,
    ensures
        g.live_neighbors(0, 0) == g.population_at(g.height - 1, g.width - 1) + g.population_at(
            g.height - 1,
            0,
        ) + g.population_at(g.height - 1, 1) + g.population_at(0, g.width - 1) + g.population_at(
            0,
            1,
        ) + g.population_at(1, g.width - 1) + g.population_at(1, 0) + g.population_at(1, 1),
{
    lemma_live_neighbors(g, 0, 0);
}

/// The transition rule, case by case: a live cell with fewer than two live
/// neighbours dies, one with two or three survives, one with more than three
/// dies; a dead cell comes alive with exactly three and stays dead
/// otherwise.
pub proof fn lemma_rule(neighbors: int)
    ensures
        neighbors < 2 ==> !next_alive(true, neighbors),
        neighbors == 2 || neighbors == 3 ==> next_alive(true, neighbors),
        neighbors > 3 ==> !next_alive(true, neighbors),
        neighbors == 3 ==> next_alive(false, neighbors),
        neighbors != 3 ==> !next_alive(false, neighbors),
{
}

/// One generation later, each cell is what the rule makes of its state and
/// of the number of its live neighbours in the generation before.
pub proof fn lemma_step_cell(g: Grid, row: int, column: int)
    requires
        g.wf(),
        g.in_bounds(row, column),
    ensures
        g.step().wf(),
        g.step().alive(row, column) == next_alive(
            g.alive(row, column),
            g.live_neighbors(row, column),
        ),
{
    lemma_cell_index_bounds(g.width as int, g.height as int, row, column);
}

/// Inverting a cell inverts that cell and changes no other.
pub proof fn lemma_toggled_cell(g: Grid, row: int, column: int, r: int, c: int)
    requires
        g.wf(),
        g.in_bounds(row, column),
        g.in_bounds(r, c),
    ensures
        g.toggled(row, column).wf(),
        g.toggled(row, column).alive(r, c) == if r == row && c == column {
            !g.alive(r, c)
        } else {
            g.alive(r, c)
        },
{
    lemma_cell_index_bounds(g.width as int, g.height as int, row, column);
    lemma_cell_index_bounds(g.width as int, g.height as int, r, c);
    if cell_index(g.width as int, row, column) == cell_index(g.width as int, r, c) {
        lemma_cell_index_injective(g.width as int, g.height as int, row, column, r, c);
    }
}

/// Inverting a cell after a generation step changes that cell of the new
/// generation and no other: the new generation is a value of its own, apart
/// from the one it was computed from.
pub proof fn lemma_toggle_after_step(g: Grid, row: int, column: int, r: int, c: int)
    requires
        g.wf(),
        g.in_bounds(row, column),
        g.in_bounds(r, c),
    ensures
        g.step().toggled(row, column).alive(r, c) == if r == row && c == column {
            !g.step().alive(r, c)
        } else {
            g.step().alive(r, c)
        },
{
    lemma_step_wf(g);
    lemma_toggled_cell(g.step(), row, column, r, c);
}

/// After listed cells are made alive, a cell is alive exactly when it was
/// alive before or is listed.
pub proof fn lemma_with_alive_cell(g: Grid, coords: Seq<(u32, u32)>, r: int, c: int)
    requires
        g.wf(),
        g.in_bounds(r, c),
        forall|k: int|
            0 <= k < coords.len() ==> g.in_bounds(
                (#[trigger] coords[k]).0 as int,
                coords[k].1 as int,
            ),
    ensures
        g.with_alive(coords).wf(),
        g.with_alive(coords).alive(r, c) == (g.alive(r, c) || exists|k: int|
            0 <= k < coords.len() && #[trigger] coords[k] == (r as u32, c as u32)),
{
    let w = g.width as int;
    let h = g.height as int;
    let i = cell_index(w, r, c);
    lemma_cell_index_bounds(w, h, r, c);
    if listed(coords, w, i) {
        let k = choose|k: int|
            0 <= k < coords.len() && #[trigger] cell_index(
                w,
                coords[k].0 as int,
                coords[k].1 as int,
            ) == i;
        assert(g.in_bounds(coords[k].0 as int, coords[k].1 as int));
        lemma_cell_index_injective(w, h, coords[k].0 as int, coords[k].1 as int, r, c);
        assert(coords[k] == (r as u32, c as u32));
    }
    if exists|k: int| 0 <= k < coords.len() && #[trigger] coords[k] == (r as u32, c as u32) {
        let k = choose|k: int|
            0 <= k < coords.len() && #[trigger] coords[k] == (r as u32, c as u32);
        assert(cell_index(w, coords[k].0 as int, coords[k].1 as int) == i);
    }
}

/// Making the same listed cells alive a second time changes nothing.
pub proof fn lemma_with_alive_idempotent(g: Grid, coords: Seq<(u32, u32)>)
    ensures
        g.with_alive(coords).with_alive(coords) == g.with_alive(coords),
{
    assert(with_alive(with_alive(g.cells, g.width as int, coords), g.width as int, coords)
        =~= with_alive(g.cells, g.width as int, coords));
}

/// A sequence of dead cells has no live cell.
pub proof fn lemma_all_clear_population(n: nat)
    ensures
        live_count(all_clear(n)) == 0,
    decreases n,
{
    if n > 0 {
        assert(all_clear(n).drop_last() =~= all_clear((n - 1) as nat));
        lemma_all_clear_population((n - 1) as nat);
    }
}

/// A 2x2 block of live cells on an otherwise dead grid is a still life: one
/// generation later the grid is the same.
pub proof fn lemma_block_is_still(g: Grid, top: int, left: int)
    requires
        g.wf(),
        g.width >= 3,
        g.height >= 3,
        0 <= top,
        top + 1 < g.height,
        0 <= left,
        left + 1 < g.width,
        g.is_block(top, left),
    ensures
        g.step() == g,
{
    let s = g.step();
    lemma_step_wf(g);
    assert forall|row: int, column: int| s.in_bounds(row, column) implies #[trigger] s.alive(
        row,
        column,
    ) == g.alive(row, column) by {
        lemma_step_cell(g, row, column);
        lemma_live_neighbors(g, row, column);
    }
    lemma_grid_ext(s, g);
}

/// Three live cells side by side on an otherwise dead grid of at least five
/// rows and columns stand one above the other a generation later, about the
/// same middle cell.
pub proof fn lemma_row_of_three_turns(g: Grid, row: int, column: int)
    requires
        g.wf(),
        g.width >= 5,
        g.height >= 5,
        1 <= row,
        row + 1 < g.height,
        1 <= column,
        column + 1 < g.width,
        g.is_row_of_three(row, column),
    ensures
        g.step().wf(),
        g.step().is_column_of_three(row, column),
{
    let s = g.step();
    lemma_step_wf(g);
    assert forall|r: int, c: int| s.in_bounds(r, c) implies #[trigger] s.alive(r, c) == (c
        == column && row - 1 <= r <= row + 1) by {
        lemma_step_cell(g, r, c);
        lemma_live_neighbors(g, r, c);
    }
}

/// Three live cells one above the other on an otherwise dead grid of at
/// least five rows and columns lie side by side a generation later, about
/// the same middle cell.
pub proof fn lemma_column_of_three_turns(g: Grid, row: int, column: int)
    requires
        g.wf(),
        g.width >= 5,
        g.height >= 5,
        1 <= row,
        row + 1 < g.height,
        1 <= column,
        column + 1 < g.width,
        g.is_column_of_three(row, column),
    ensures
        g.step().wf(),
        g.step().is_row_of_three(row, column),
{
    let s = g.step();
    lemma_step_wf(g);
    assert forall|r: int, c: int| s.in_bounds(r, c) implies #[trigger] s.alive(r, c) == (r
        == row && column - 1 <= c <= column + 1) by {
        lemma_step_cell(g, r, c);
        lemma_live_neighbors(g, r, c);
    }
}

/// The row of three is an oscillator of period two: after two generations
/// the grid is as it was.
pub proof fn lemma_row_of_three_returns(g: Grid, row: int, column: int)
    requires
        g.wf(),
        g.width >= 5,
        g.height >= 5,
        1 <= row,
        row + 1 < g.height,
        1 <= column,
        column + 1 < g.width,
        g.is_row_of_three(row, column),
    ensures
        g.step().step() == g,
{
    lemma_row_of_three_turns(g, row, column);
    lemma_column_of_three_turns(g.step(), row, column);
    let t = g.step().step();
    assert forall|r: int, c: int| t.in_bounds(r, c) implies #[trigger] t.alive(r, c) == g.alive(
        r,
        c,
    ) by {}
    lemma_grid_ext(t, g);
}

/// A generation step keeps the dimensions and the number of cells.
pub proof fn lemma_step_wf(g: Grid)
    requires
        g.wf(),
    ensures
        g.step().wf(),
        g.step().width == g.width,
        g.step().height == g.height,
{
}

} // verus!
