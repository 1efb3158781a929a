//! Counting the live cells of a grid.

use vstd::prelude::*;

use crate::cell::Cell;
use crate::grid::Grid;

verus! {

/// The number of live cells in a row.
pub open spec fn row_population(row: Seq<Cell>) -> int
    decreases row.len(),
{
    if row.len() == 0 {
        0
    } else {
        row_population(row.drop_last()) + row.last().weight()
    }
}

/// The number of live cells in a sequence of rows.
pub open spec fn rows_population(rows: Seq<Seq<Cell>>) -> int
    decreases rows.len(),
{
    if rows.len() == 0 {
        0
    } else {
        rows_population(rows.drop_last()) + row_population(rows.last())
    }
}

/// A row has no more live cells than cells.
pub proof fn lemma_row_population_range(row: Seq<Cell>)
    ensures
        0 <= row_population(row) <= row.len(),
    decreases row.len(),
{
    if row.len() > 0 {
        lemma_row_population_range(row.drop_last());
    }
}

/// Replacing one cell of a row changes the number of live cells by the
/// difference between the new cell and the old one.
pub proof fn lemma_row_population_update(row: Seq<Cell>, c: int, state: Cell)
    requires
        0 <= c < row.len(),
    ensures
        row_population(row.update(c, state)) == row_population(row) - row[c].weight()
            + state.weight(),
    decreases row.len(),
{
    let changed = row.update(c, state);
    if c == row.len() - 1 {
        assert(changed.drop_last() =~= row.drop_last());
    } else {
        lemma_row_population_update(row.drop_last(), c, state);
        assert(changed.drop_last() =~= row.drop_last().update(c, state));
    }
}

/// Replacing one row changes the number of live cells by the difference
/// between the new row and the old one.
pub proof fn lemma_rows_population_update(rows: Seq<Seq<Cell>>, r: int, row: Seq<Cell>)
    requires
        0 <= r < rows.len(),
    ensures
        rows_population(rows.update(r, row)) == rows_population(rows) - row_population(rows[r])
            + row_population(row),
    decreases rows.len(),
{
    let changed = rows.update(r, row);
    if r == rows.len() - 1 {
        assert(changed.drop_last() =~= rows.drop_last());
    } else {
        lemma_rows_population_update(rows.drop_last(), r, row);
        assert(changed.drop_last() =~= rows.drop_last().update(r, row));
    }
}

/// Rows of `cols` cells each have no more live cells than cells in all.
pub proof fn lemma_rows_population_range(rows: Seq<Seq<Cell>>, cols: nat)
    requires
        forall|r: int| 0 <= r < rows.len() ==> (#[trigger] rows[r]).len() == cols,
    ensures
        0 <= rows_population(rows) <= rows.len() * cols,
    decreases rows.len(),
{
    if rows.len() > 0 {
        lemma_rows_population_range(rows.drop_last(), cols);
        lemma_row_population_range(rows.last());
        assert((rows.len() - 1) * cols + cols == rows.len() * cols) by (nonlinear_arith);
    }
}

impl Grid {
    /// The number of live cells of the grid.
    pub open spec fn population(self) -> int {
        rows_population(self.cells)
    }

    /// A grid has no more live cells than cells.
    pub proof fn lemma_population_range(self)
        requires
            self.well_formed(),
        ensures
            0 <= self.population() <= self.rows * self.cols,
    {
        lemma_rows_population_range(self.cells, self.cols);
    }

    /// Replacing one cell changes the number of live cells by the difference
    /// between the new cell and the old one.
    pub proof fn lemma_with_cell_population(self, r: int, c: int, state: Cell)
        requires
            self.well_formed(),
            self.in_bounds(r, c),
        ensures
            self.with_cell(r, c, state).population() == self.population() - self.cell(
                r,
                c,
            ).weight() + state.weight(),
    {
        lemma_row_population_update(self.cells[r], c, state);
        lemma_rows_population_update(self.cells, r, self.cells[r].update(c, state));
    }
}

} // verus!
