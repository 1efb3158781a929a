//! One generation step: neighbour sums on the torus and the transition rule.

use vstd::arithmetic::div_mod::{lemma_mod_add_multiples_vanish, lemma_mod_self_0, lemma_small_mod};
use vstd::prelude::*;

use crate::cell::Cell;
use crate::grid::{Grid, Matrix};

verus! {

/// The transition rule: the state that a cell in state `current` takes when
/// `sum` of its eight neighbours are alive.
///
/// Exactly three live neighbours make the cell alive whatever it was; one,
/// two or four leave it as it is; none, or five and more, leave it dead.
pub open spec fn next_state(current: Cell, sum: int) -> Cell {
    if sum == 3 {
        Cell::Alive
    } else if 0 < sum < 5 {
        current
    } else {
        Cell::Dead
    }
}

/// The place that the index `i` names on a ring of `len` places: an index
/// that runs off one end comes back in at the other.
#[verifier::opaque]
pub open spec fn wrap(i: int, len: nat) -> int {
    i % (len as int)
}

/// The place before `i` on a ring of `len` places: `i - 1`, or the last
/// place where `i` is the first.
pub open spec fn before(i: int, len: nat) -> int {
    if i > 0 {
        i - 1
    } else {
        len - 1
    }
}

/// The place after `i` on a ring of `len` places: `i + 1`, or the first
/// place where `i` is the last.
pub open spec fn after(i: int, len: nat) -> int {
    if i < len - 1 {
        i + 1
    } else {
        0
    }
}

impl Grid {
    /// The cell that lies `dr` rows and `dc` columns away from `(r, c)` on
    /// the torus.
    pub open spec fn neighbor(self, r: int, c: int, dr: int, dc: int) -> Cell {
        self.cells[wrap(r + dr, self.rows)][wrap(c + dc, self.cols)]
    }

    /// The number of live cells among the eight neighbours of `(r, c)`. The
    /// cell itself is not one of the eight.
    pub open spec fn neighbor_sum(self, r: int, c: int) -> int {
        self.neighbor(r, c, -1, -1).weight() + self.neighbor(r, c, -1, 0).weight()
            + self.neighbor(r, c, -1, 1).weight() + self.neighbor(r, c, 0, -1).weight()
            + self.neighbor(r, c, 0, 1).weight() + self.neighbor(r, c, 1, -1).weight()
            + self.neighbor(r, c, 1, 0).weight() + self.neighbor(r, c, 1, 1).weight()
    }

    /// The state of the cell at `(r, c)` one generation later.
    pub open spec fn next_cell(self, r: int, c: int) -> Cell {
        next_state(self.cell(r, c), self.neighbor_sum(r, c))
    }

    /// The grid one generation later: every cell takes the state that the
    /// transition rule gives it from this grid.
    pub open spec fn next(self) -> Grid {
        Grid {
            rows: self.rows,
            cols: self.cols,
            cells: Seq::new(
                self.rows,
                |r: int| Seq::new(self.cols, |c: int| self.next_cell(r, c)),
            ),
        }
    }
}

/// Stepping one place back or on from a place of the ring, or staying,
/// lands on the place that `before` and `after` name.
pub proof fn lemma_wrap_steps(i: int, len: nat)
    requires
        0 <= i < len,
    ensures
        wrap(i - 1, len) == before(i, len),
        wrap(i + 0, len) == i,
        wrap(i + 1, len) == after(i, len),
        0 <= before(i, len) < len,
        0 <= after(i, len) < len,
{
    reveal(wrap);
    let n = len as int;
    lemma_small_mod(i as nat, len);
    if i > 0 {
        lemma_small_mod((i - 1) as nat, len);
    } else {
        lemma_small_mod((n - 1) as nat, len);
        lemma_mod_add_multiples_vanish(-1, n);
    }
    if i < n - 1 {
        lemma_small_mod((i + 1) as nat, len);
    } else {
        lemma_mod_self_0(n);
    }
}

impl Grid {
    /// The neighbour sum written out by rows: three cells of the row above,
    /// three of the row below and the two beside the cell, where the row
    /// above the first is the last, the column left of the first is the
    /// last, and the other way round.
    pub proof fn lemma_neighbor_sum_by_rows(self, r: int, c: int)
        requires
            self.well_formed(),
            self.in_bounds(r, c),
        ensures
            ({
                let above = before(r, self.rows);
                let below = after(r, self.rows);
                let left = before(c, self.cols);
                let right = after(c, self.cols);
                self.neighbor_sum(r, c) == self.cell(above, left).weight() + self.cell(
                    above,
                    c,
                ).weight() + self.cell(above, right).weight() + self.cell(below, left).weight()
                    + self.cell(below, c).weight() + self.cell(below, right).weight()
                    + self.cell(r, left).weight() + self.cell(r, right).weight()
            }),
    {
        lemma_wrap_steps(r, self.rows);
        lemma_wrap_steps(c, self.cols);
    }

    /// A neighbour sum lies between zero and eight.
    pub proof fn lemma_neighbor_sum_range(self, r: int, c: int)
        ensures
            0 <= self.neighbor_sum(r, c) <= 8,
    {
    }

    /// Each of the eight neighbours of a cell is counted in its neighbour
    /// sum.
    pub proof fn lemma_neighbor_counted(self, r: int, c: int, dr: int, dc: int)
        requires
            -1 <= dr <= 1,
            -1 <= dc <= 1,
            dr != 0 || dc != 0,
        ensures
            self.neighbor_sum(r, c) >= self.neighbor(r, c, dr, dc).weight(),
    {
    }

    /// A cell with exactly three live neighbours is alive in the next
    /// generation, whatever it is now.
    pub proof fn lemma_three_neighbors_give_life(self, r: int, c: int)
        requires
            self.well_formed(),
            self.in_bounds(r, c),
            self.neighbor_sum(r, c) == 3,
        ensures
            self.next().cell(r, c) == Cell::Alive,
    {
    }

    /// A cell with no live neighbour, or with five or more, is dead in the
    /// next generation.
    pub proof fn lemma_lonely_or_crowded_dies(self, r: int, c: int)
        requires
            self.well_formed(),
            self.in_bounds(r, c),
            self.neighbor_sum(r, c) == 0 || self.neighbor_sum(r, c) >= 5,
        ensures
            self.next().cell(r, c) == Cell::Dead,
    {
    }

    /// A cell with one, two or four live neighbours keeps its state.
    pub proof fn lemma_few_neighbors_keep_state(self, r: int, c: int)
        requires
            self.well_formed(),
            self.in_bounds(r, c),
            self.neighbor_sum(r, c) == 1 || self.neighbor_sum(r, c) == 2 || self.neighbor_sum(r, c)
                == 4,
        ensures
            self.next().cell(r, c) == self.cell(r, c),
    {
    }

    /// The rows wrap around: a live cell in the first row is counted among
    /// the neighbours of the cells of the last row in its own column and in
    /// the two columns beside it, and a live cell in the last row among
    /// those of the same cells of the first row.
    pub proof fn lemma_rows_wrap_around(self, c: int, k: int)
        requires
            self.well_formed(),
            0 <= c < self.cols,
            k == c || k == before(c, self.cols) || k == after(c, self.cols),
        ensures
            self.cell(0, c) == Cell::Alive ==> self.neighbor_sum(self.rows - 1, k) >= 1,
            self.cell(self.rows - 1, c) == Cell::Alive ==> self.neighbor_sum(0, k) >= 1,
    {
        self.lemma_neighbor_sum_by_rows(self.rows - 1, k);
        self.lemma_neighbor_sum_by_rows(0, k);
    }

    /// The columns wrap around: a live cell in the first column is counted
    /// among the neighbours of the cells of the last column in its own row
    /// and in the two rows beside it, and a live cell in the last column
    /// among those of the same cells of the first column.
    pub proof fn lemma_cols_wrap_around(self, r: int, k: int)
        requires
            self.well_formed(),
            0 <= r < self.rows,
            k == r || k == before(r, self.rows) || k == after(r, self.rows),
        ensures
            self.cell(r, 0) == Cell::Alive ==> self.neighbor_sum(k, self.cols - 1) >= 1,
            self.cell(r, self.cols - 1) == Cell::Alive ==> self.neighbor_sum(k, 0) >= 1,
    {
        self.lemma_neighbor_sum_by_rows(k, self.cols - 1);
        self.lemma_neighbor_sum_by_rows(k, 0);
    }

    /// The next generation has the size of this one and is well formed.
    pub proof fn lemma_next_keeps_size(self)
        requires
            self.well_formed(),
        ensures
            self.next().well_formed(),
            self.next().rows == self.rows,
            self.next().cols == self.cols,
    {
    }

    /// The next generation depends on nothing but the cells: two grids of
    /// one size that agree cell for cell have the same next generation.
    pub proof fn lemma_next_is_determined(self, other: Grid)
        requires
            self.well_formed(),
            other.well_formed(),
            self.rows == other.rows,
            self.cols == other.cols,
            forall|r: int, c: int|
                self.in_bounds(r, c) ==> #[trigger] self.cell(r, c) == other.cell(r, c),
        ensures
            self.next() == other.next(),
    {
        assert forall|r: int| 0 <= r < self.rows implies #[trigger] self.cells[r]
            =~= other.cells[r] by {
            assert forall|c: int| 0 <= c < self.cols implies self.cells[r][c]
                == other.cells[r][c] by {
                assert(self.cell(r, c) == other.cell(r, c));
            }
        }
        assert(self.cells =~= other.cells);
    }
}

/// Executable form of [`next_state`].
pub fn transition(current: Cell, sum: u8) -> (state: Cell)
    ensures
        state == next_state(current, sum as int),
{
    if sum > 0 && sum < 5 {
        if sum == 3 {
            Cell::Alive
        } else {
            current
        }
    } else {
        Cell::Dead
    }
}

/// The index before `i` on a ring of `len` places.
fn step_back(i: usize, len: usize) -> (j: usize)
    requires
        i < len,
    ensures
        j == before(i as int, len as nat),
        j < len,
{
    if i > 0 {
        i - 1
    } else {
        len - 1
    }
}

/// The index after `i` on a ring of `len` places.
fn step_on(i: usize, len: usize) -> (j: usize)
    requires
        i < len,
    ensures
        j == after(i as int, len as nat),
        j < len,
{
    if i < len - 1 {
        i + 1
    } else {
        0
    }
}

impl Matrix {
    /// The number of live cells among the eight neighbours of `(r, c)` on the
    /// torus. The grid must have at least two columns.
    pub fn neighbor_sum(&self, r: usize, c: usize) -> (sum: u8)
        requires
            self.wf(),
            self@.cols >= 2,
            r < self@.rows,
            c < self@.cols,
        ensures
            sum == self@.neighbor_sum(r as int, c as int),
    {
        let rows = self.rows();
        let cols = self.cols();
        let above = step_back(r, rows);
        let below = step_on(r, rows);
        let left = step_back(c, cols);
        let right = step_on(c, cols);
        let above_left = self.get(above, left).value();
        let above_mid = self.get(above, c).value();
        let above_right = self.get(above, right).value();
        let below_left = self.get(below, left).value();
        let below_mid = self.get(below, c).value();
        let below_right = self.get(below, right).value();
        let beside_left = self.get(r, left).value();
        let beside_right = self.get(r, right).value();
        proof {
            self@.lemma_neighbor_sum_by_rows(r as int, c as int);
        }
        above_left + above_mid + above_right + below_left + below_mid + below_right + beside_left
            + beside_right
    }

    /// Computes the next generation into a matrix of its own; `self` is only
    /// read, so no cell's new state is seen while the others are computed.
    /// The grid must have at least two columns.
    #[must_use]
    pub fn pulse(&self) -> (next: Matrix)
        requires
            self.wf(),
            self@.cols >= 2,
        ensures
            next.wf(),
            next@.rows == self@.rows,
            next@.cols == self@.cols,
            next@ == self@.next(),
    {
        let rows = self.rows();
        let cols = self.cols();
        let mut next = Matrix::new(rows, cols);
        let mut r: usize = 0;
        while r < rows
            invariant
                self.wf(),
                self@.cols >= 2,
                rows == self@.rows,
                cols == self@.cols,
                next.wf(),
                next@.rows == rows,
                next@.cols == cols,
                r <= rows,
                forall|i: int, j: int|
                    0 <= i < r && 0 <= j < cols ==> #[trigger] next@.cell(i, j) == self@.next_cell(
                        i,
                        j,
                    ),
            decreases rows - r,
        {
            let mut c: usize = 0;
            while c < cols
                invariant
                    self.wf(),
                    self@.cols >= 2,
                    rows == self@.rows,
                    cols == self@.cols,
                    next.wf(),
                    next@.rows == rows,
                    next@.cols == cols,
                    r < rows,
                    c <= cols,
                    forall|i: int, j: int|
                        0 <= i < r && 0 <= j < cols ==> #[trigger] next@.cell(i, j)
                            == self@.next_cell(i, j),
                    forall|j: int|
                        0 <= j < c ==> #[trigger] next@.cell(r as int, j) == self@.next_cell(
                            r as int,
                            j,
                        ),
                decreases cols - c,
            {
                let sum = self.neighbor_sum(r, c);
                let state = transition(self.get(r, c), sum);
                proof {
                    next@.lemma_with_cell(r as int, c as int, state);
                }
                next.set(r, c, state);
                c += 1;
            }
            r += 1;
        }
        proof {
            assert forall|i: int| 0 <= i < rows implies #[trigger] next@.cells[i]
                =~= self@.next().cells[i] by {
                assert forall|j: int| 0 <= j < cols implies next@.cells[i][j]
                    == self@.next().cells[i][j] by {
                    assert(next@.cell(i, j) == self@.next_cell(i, j));
                }
            }
            assert(next@.cells =~= self@.next().cells);
        }
        next
    }
}

} // verus!
