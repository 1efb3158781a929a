//! The text form of a grid: one two-character glyph per cell, one line per
//! row.

use vstd::prelude::*;
use vstd::string::StringExecFns;

use crate::cell::Cell;
use crate::grid::{Grid, Matrix};

verus! {

/// The character that a live cell is drawn with, twice over.
pub const FILLED: char = '\u{2593}';

/// The character that a dead cell is drawn with, twice over.
pub const EMPTY: char = '\u{2591}';

/// The character between two lines.
pub const LINE_BREAK: char = '\n';

/// The glyph of a cell: two filled blocks for a live cell, two empty ones
/// for a dead cell.
pub open spec fn glyph(cell: Cell) -> Seq<char> {
    match cell {
        Cell::Alive => seq![FILLED, FILLED],
        Cell::Dead => seq![EMPTY, EMPTY],
    }
}

/// The glyphs of the cells of one row, with nothing between them.
pub open spec fn row_text(row: Seq<Cell>) -> Seq<char>
    decreases row.len(),
{
    if row.len() == 0 {
        Seq::empty()
    } else {
        row_text(row.drop_last()) + glyph(row.last())
    }
}

/// The lines with one line break between each two of them, and none after
/// the last.
pub open spec fn joined(lines: Seq<Seq<char>>) -> Seq<char>
    decreases lines.len(),
{
    if lines.len() == 0 {
        Seq::empty()
    } else if lines.len() == 1 {
        lines[0]
    } else {
        joined(lines.drop_last()) + seq![LINE_BREAK] + lines.last()
    }
}

/// `n` copies of `piece`, one after the other.
pub open spec fn repeated(piece: Seq<char>, n: nat) -> Seq<char>
    decreases n,
{
    if n == 0 {
        Seq::empty()
    } else {
        repeated(piece, (n - 1) as nat) + piece
    }
}

impl Grid {
    /// The lines of the text form, one for each row.
    pub open spec fn lines(self) -> Seq<Seq<char>> {
        Seq::new(self.rows, |r: int| row_text(self.cells[r]))
    }

    /// The text form of the grid.
    pub open spec fn text(self) -> Seq<char> {
        joined(self.lines())
    }
}

/// A row whose cells are all in one state is drawn as that state's glyph,
/// once for each cell.
pub proof fn lemma_uniform_row_text(row: Seq<Cell>, state: Cell)
    requires
        forall|c: int| 0 <= c < row.len() ==> row[c] == state,
    ensures
        row_text(row) == repeated(glyph(state), row.len()),
    decreases row.len(),
{
    if row.len() > 0 {
        lemma_uniform_row_text(row.drop_last(), state);
    }
}

/// A line of `n` glyphs has `2 * n` characters.
pub proof fn lemma_row_text_len(row: Seq<Cell>)
    ensures
        row_text(row).len() == 2 * row.len(),
    decreases row.len(),
{
    if row.len() > 0 {
        lemma_row_text_len(row.drop_last());
    }
}

/// Lines of `width` characters each, joined, have a line break less than
/// lines: `n * (width + 1) - 1` characters for `n` lines, and none for none.
pub proof fn lemma_joined_len(lines: Seq<Seq<char>>, width: nat)
    requires
        forall|i: int| 0 <= i < lines.len() ==> (#[trigger] lines[i]).len() == width,
    ensures
        lines.len() == 0 ==> joined(lines).len() == 0,
        lines.len() > 0 ==> joined(lines).len() == lines.len() * (width + 1) - 1,
    decreases lines.len(),
{
    if lines.len() > 1 {
        lemma_joined_len(lines.drop_last(), width);
        assert((lines.len() - 1) * (width + 1) + (width + 1) == lines.len() * (width + 1))
            by (nonlinear_arith);
    }
}

impl Grid {
    /// The text form has two characters for each cell and a line break
    /// after each row but the last.
    pub proof fn lemma_text_len(self)
        requires
            self.well_formed(),
        ensures
            self.text().len() == self.rows * (2 * self.cols + 1) - 1,
    {
        assert forall|r: int| 0 <= r < self.lines().len() implies (#[trigger] self.lines()[r]).len()
            == 2 * self.cols by {
            lemma_row_text_len(self.cells[r]);
        }
        lemma_joined_len(self.lines(), 2 * self.cols);
    }

    /// A grid whose cells are all in one state is drawn as `rows` lines, each
    /// of them `cols` copies of that state's glyph: the empty glyph where all
    /// cells are dead, the filled glyph where all are alive.
    pub proof fn lemma_uniform_text(self, state: Cell)
        requires
            self.well_formed(),
            forall|r: int, c: int| self.in_bounds(r, c) ==> #[trigger] self.cell(r, c) == state,
        ensures
            self.lines() == Seq::new(self.rows, |r: int| repeated(glyph(state), self.cols)),
            self.text() == joined(Seq::new(self.rows, |r: int| repeated(glyph(state), self.cols))),
    {
        assert forall|r: int| 0 <= r < self.rows implies #[trigger] self.lines()[r] == repeated(
            glyph(state),
            self.cols,
        ) by {
            assert forall|c: int| 0 <= c < self.cells[r].len() implies self.cells[r][c]
                == state by {
                assert(self.cell(r, c) == state);
            }
            lemma_uniform_row_text(self.cells[r], state);
        }
    }
}

impl Matrix {
    /// Appends the glyphs of row `r` to `out`.
    fn render_row(&self, r: usize, out: &mut String)
        requires
            self.wf(),
            r < self@.rows,
        ensures
            final(out)@ == old(out)@ + row_text(self@.cells[r as int]),
    {
        let cols = self.cols();
        let ghost row = self@.cells[r as int];
        let mut c: usize = 0;
        while c < cols
            invariant
                self.wf(),
                r < self@.rows,
                cols == self@.cols,
                row == self@.cells[r as int],
                c <= cols,
                out@ == old(out)@ + row_text(row.take(c as int)),
            decreases cols - c,
        {
            proof {
                reveal_strlit("\u{2593}\u{2593}");
                reveal_strlit("\u{2591}\u{2591}");
                assert(row.take(c + 1).drop_last() =~= row.take(c as int));
            }
            if self.get(r, c).is_alive() {
                out.append("\u{2593}\u{2593}");
            } else {
                out.append("\u{2591}\u{2591}");
            }
            c += 1;
        }
        assert(row.take(cols as int) =~= row);
    }

    /// The text form of the grid: one line for each row, a glyph of two
    /// characters for each cell, a line break between two lines and none at
    /// the end.
    pub fn render(&self) -> (text: String)
        requires
            self.wf(),
        ensures
            text@ == self@.text(),
    {
        let rows = self.rows();
        let ghost lines = self@.lines();
        let mut out = String::new();
        let mut r: usize = 0;
        while r < rows
            invariant
                self.wf(),
                rows == self@.rows,
                lines == self@.lines(),
                r <= rows,
                out@ == joined(lines.take(r as int)),
            decreases rows - r,
        {
            proof {
                reveal_strlit("\n");
                assert(lines.take(r + 1).drop_last() =~= lines.take(r as int));
            }
            if r > 0 {
                out.append("\n");
            }
            self.render_row(r, &mut out);
            r += 1;
        }
        assert(lines.take(rows as int) =~= lines);
        out
    }
}

} // verus!
