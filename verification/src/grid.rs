//! The grid: its mathematical model and the executable matrix that holds it.

use vstd::prelude::*;

use crate::cell::Cell;

verus! {

/// The mathematical model of a grid: `rows` rows of `cols` cells each.
pub struct Grid {
    pub rows: nat,
    pub cols: nat,
    pub cells: Seq<Seq<Cell>>,
}

impl Grid {
    /// A grid is well formed when it has at least one row and one column,
    /// every row has exactly `cols` cells, and the number of cells fits a
    /// machine word.
    pub open spec fn well_formed(self) -> bool {
        &&& self.rows >= 1
        &&& self.cols >= 1
        &&& self.rows * self.cols <= usize::MAX
        &&& self.cells.len() == self.rows
        &&& forall|r: int| 0 <= r < self.rows ==> (#[trigger] self.cells[r]).len() == self.cols
    }

    /// Whether `(r, c)` names a cell of the grid.
    pub open spec fn in_bounds(self, r: int, c: int) -> bool {
        0 <= r < self.rows && 0 <= c < self.cols
    }

    /// The cell at row `r`, column `c`.
    pub open spec fn cell(self, r: int, c: int) -> Cell
        recommends
            self.in_bounds(r, c),
    {
        self.cells[r][c]
    }

    /// The grid of the given size in which every cell is dead.
    pub open spec fn blank(rows: nat, cols: nat) -> Grid {
        Grid { rows, cols, cells: Seq::new(rows, |r: int| Seq::new(cols, |c: int| Cell::Dead)) }
    }

    /// The grid with the cell at `(r, c)` replaced by `state`.
    pub open spec fn with_cell(self, r: int, c: int, state: Cell) -> Grid
        recommends
            self.in_bounds(r, c),
    {
        Grid { cells: self.cells.update(r, self.cells[r].update(c, state)), ..self }
    }

    /// Replacing one cell keeps the grid well formed, puts the new state at
    /// that place and leaves every other cell as it was.
    pub proof fn lemma_with_cell(self, r: int, c: int, state: Cell)
        requires
            self.well_formed(),
            self.in_bounds(r, c),
        ensures
            self.with_cell(r, c, state).well_formed(),
            self.with_cell(r, c, state).rows == self.rows,
            self.with_cell(r, c, state).cols == self.cols,
            self.with_cell(r, c, state).cell(r, c) == state,
            forall|i: int, j: int|
                self.in_bounds(i, j) && (i != r || j != c) ==> #[trigger] self.with_cell(
                    r,
                    c,
                    state,
                ).cell(i, j) == self.cell(i, j),
    {
    }
}

/// A grid of cells held in memory, row by row.
#[derive(Debug, PartialEq, Eq)]
pub struct Matrix {
    rows: usize,
    cols: usize,
    cells: Vec<Vec<Cell>>,
}

impl View for Matrix {
    type V = Grid;

    closed spec fn view(&self) -> Grid {
        Grid {
            rows: self.rows as nat,
            cols: self.cols as nat,
            cells: Seq::new(self.cells@.len(), |r: int| self.cells@[r]@),
        }
    }
}

impl Matrix {
    /// The invariant of every matrix that this library hands out.
    pub open spec fn wf(&self) -> bool {
        self@.well_formed()
    }

    /// A matrix of `rows` by `cols` cells, all of them dead.
    pub fn new(rows: usize, cols: usize) -> (m: Matrix)
        requires
            rows >= 1,
            cols >= 1,
            rows * cols <= usize::MAX,
        ensures
            m.wf(),
            m@ == Grid::blank(rows as nat, cols as nat),
    {
        let mut cells: Vec<Vec<Cell>> = Vec::new();
        let mut r: usize = 0;
        while r < rows
            invariant
                r <= rows,
                cells@.len() == r,
                forall|i: int| 0 <= i < r ==> (#[trigger] cells@[i])@ == Seq::new(cols as nat, |c: int| Cell::Dead),
            decreases rows - r,
        {
            let mut row: Vec<Cell> = Vec::new();
            let mut c: usize = 0;
            while c < cols
                invariant
                    c <= cols,
                    row@.len() == c,
                    forall|j: int| 0 <= j < c ==> row@[j] == Cell::Dead,
                decreases cols - c,
            {
                row.push(Cell::Dead);
                c += 1;
            }
            cells.push(row);
            r += 1;
        }
        let m = Matrix { rows, cols, cells };
        assert(m@.cells =~= Grid::blank(rows as nat, cols as nat).cells);
        m
    }

    /// The number of rows.
    pub fn rows(&self) -> (n: usize)
        ensures
            n == self@.rows,
    {
        self.rows
    }

    /// The number of columns.
    pub fn cols(&self) -> (n: usize)
        ensures
            n == self@.cols,
    {
        self.cols
    }

    /// The state of the cell at row `r`, column `c`.
    pub fn get(&self, r: usize, c: usize) -> (state: Cell)
        requires
            self.wf(),
            r < self@.rows,
            c < self@.cols,
        ensures
            state == self@.cell(r as int, c as int),
    {
        self.cells[r][c]
    }

    /// Puts `state` into the cell at row `r`, column `c`.
    pub fn set(&mut self, r: usize, c: usize, state: Cell)
        requires
            old(self).wf(),
            r < old(self)@.rows,
            c < old(self)@.cols,
        ensures
            final(self).wf(),
            final(self)@ == old(self)@.with_cell(r as int, c as int, state),
    {
        assert(self@.cells[r as int] == self.cells@[r as int]@);
        self.cells[r][c] = state;
        assert(self@.cells =~= old(self)@.with_cell(r as int, c as int, state).cells);
    }
}

} // verus!
