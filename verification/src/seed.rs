//! Seeding: bringing cells to life at places drawn at random.

use rand::distributions::{Distribution, Uniform};
use rand::rngs::ThreadRng;
use vstd::prelude::*;

use crate::cell::Cell;
use crate::grid::{Grid, Matrix};

verus! {

/// The generator of random numbers that `rand` keeps for each thread.
/// Nothing of its state is known here.
#[verifier::external_type_specification]
#[verifier::external_body]
pub struct ExThreadRng(ThreadRng);

/// `rand::thread_rng` hands out the generator of the current thread. Nothing
/// is claimed of the generator. It panics where the operating system gives
/// it no seed, which no argument decides.
pub assume_specification[ rand::thread_rng ]() -> (rng: ThreadRng)
;

/// Draws one number from `rng`, uniformly from `low` up to, not including,
/// `high`: `Uniform::from` makes the distribution over that range and
/// `Distribution::sample` draws from it. `Uniform::from` panics on an empty
/// range, so `low` must lie below `high`. Which number comes is left open;
/// that it lies in the range is all that is claimed.
#[verifier::external_body]
fn draw_between(rng: &mut ThreadRng, low: usize, high: usize) -> (drawn: usize)
    requires
        low < high,
    ensures
        low <= drawn < high,
{
    Uniform::from(low..high).sample(rng)
}

/// The places that a list of pairs of indices names, row first.
pub open spec fn places(picks: Seq<(usize, usize)>) -> Seq<(int, int)> {
    Seq::new(picks.len(), |k: int| (picks[k].0 as int, picks[k].1 as int))
}

impl Grid {
    /// Whether every place of `picks` names a cell of the grid.
    pub open spec fn holds(self, picks: Seq<(int, int)>) -> bool {
        forall|k: int| 0 <= k < picks.len() ==> self.in_bounds((#[trigger] picks[k]).0, picks[k].1)
    }

    /// The grid after the cells at `picks` were brought to life: a cell is
    /// alive where it was picked, once or more often, and is what it was
    /// where it was not.
    pub open spec fn sprinkled(self, picks: Seq<(int, int)>) -> Grid {
        Grid {
            rows: self.rows,
            cols: self.cols,
            cells: Seq::new(
                self.rows,
                |r: int|
                    Seq::new(
                        self.cols,
                        |c: int|
                            if picks.contains((r, c)) {
                                Cell::Alive
                            } else {
                                self.cells[r][c]
                            },
                    ),
            ),
        }
    }

    /// The number of places that are drawn where the caller names none: as
    /// many as half the rows, rounded down, have cells.
    pub open spec fn default_draws(self) -> nat {
        self.cols * (self.rows / 2)
    }

    /// The number of places that are drawn for the request `cells`.
    pub open spec fn draws(self, cells: Option<usize>) -> nat {
        match cells {
            Some(n) => n as nat,
            None => self.default_draws(),
        }
    }

    /// The default number of draws is no more than the number of cells.
    pub proof fn lemma_default_draws_fit(self)
        requires
            self.well_formed(),
        ensures
            self.default_draws() <= self.rows * self.cols,
    {
        assert(self.cols * (self.rows / 2) <= self.rows * self.cols) by (nonlinear_arith)
            requires
                self.rows / 2 <= self.rows,
        ;
    }

    /// Picking no place changes nothing.
    pub proof fn lemma_sprinkled_none(self)
        requires
            self.well_formed(),
        ensures
            self.sprinkled(Seq::empty()) == self,
    {
        assert forall|r: int| 0 <= r < self.rows implies #[trigger] self.sprinkled(
            Seq::empty(),
        ).cells[r] =~= self.cells[r] by {}
        assert(self.sprinkled(Seq::empty()).cells =~= self.cells);
    }

    /// Picking one more place brings the cell at that place to life and
    /// changes no other.
    pub proof fn lemma_sprinkled_push(self, picks: Seq<(int, int)>, r: int, c: int)
        requires
            self.well_formed(),
            self.in_bounds(r, c),
        ensures
            self.sprinkled(picks.push((r, c))) == self.sprinkled(picks).with_cell(
                r,
                c,
                Cell::Alive,
            ),
    {
        let more = picks.push((r, c));
        let a = self.sprinkled(more);
        let b = self.sprinkled(picks).with_cell(r, c, Cell::Alive);
        assert forall|i: int| 0 <= i < self.rows implies #[trigger] a.cells[i] =~= b.cells[i] by {
            assert forall|j: int| 0 <= j < self.cols implies a.cells[i][j] == b.cells[i][j] by {
                assert(more.last() == (r, c));
                if picks.contains((i, j)) {
                    let k = choose|k: int| 0 <= k < picks.len() && picks[k] == (i, j);
                    assert(more[k] == (i, j));
                }
            }
        }
        assert(a.cells =~= b.cells);
    }

    /// Seeding keeps the size of the grid, never kills a cell, and brings to
    /// life the picked cells and no others.
    pub proof fn lemma_sprinkled_cells(self, picks: Seq<(int, int)>)
        requires
            self.well_formed(),
        ensures
            self.sprinkled(picks).well_formed(),
            self.sprinkled(picks).rows == self.rows,
            self.sprinkled(picks).cols == self.cols,
            forall|r: int, c: int|
                self.in_bounds(r, c) ==> (#[trigger] self.sprinkled(picks).cell(r, c) == Cell::Alive
                    <==> self.cell(r, c) == Cell::Alive || picks.contains((r, c))),
    {
    }

    /// Seeding never lowers the number of live cells, and raises it by no
    /// more than the number of places picked: by less where a place was
    /// picked twice or its cell was alive before. However many places are
    /// picked, no more cells are alive than the grid has.
    pub proof fn lemma_sprinkled_population(self, picks: Seq<(int, int)>)
        requires
            self.well_formed(),
            self.holds(picks),
        ensures
            self.population() <= self.sprinkled(picks).population() <= self.population()
                + picks.len(),
            self.sprinkled(picks).population() <= self.rows * self.cols,
        decreases picks.len(),
    {
        self.sprinkled(picks).lemma_population_range();
        if picks.len() == 0 {
            assert(picks =~= Seq::empty());
            self.lemma_sprinkled_none();
        } else {
            let fewer = picks.drop_last();
            let (r, c) = picks.last();
            assert(fewer.push((r, c)) =~= picks);
            self.lemma_sprinkled_population(fewer);
            self.lemma_sprinkled_push(fewer, r, c);
            self.sprinkled(fewer).lemma_with_cell_population(r, c, Cell::Alive);
        }
    }
}

impl Matrix {
    /// The number of places that `seed` draws for the request `cells`: the
    /// number itself, or `cols * (rows / 2)` where there is none.
    pub fn seed_count(&self, cells: Option<usize>) -> (count: usize)
        requires
            self.wf(),
        ensures
            count == self@.draws(cells),
    {
        match cells {
            Some(n) => n,
            None => {
                proof {
                    self@.lemma_default_draws_fit();
                }
                self.cols() * (self.rows() / 2)
            },
        }
    }

    /// Brings the cells at `picks` to life, one after the other. A place may
    /// occur more than once.
    pub fn sprinkle(&mut self, picks: &Vec<(usize, usize)>)
        requires
            old(self).wf(),
            old(self)@.holds(places(picks@)),
        ensures
            final(self).wf(),
            final(self)@ == old(self)@.sprinkled(places(picks@)),
    {
        let ghost all = places(picks@);
        proof {
            self@.lemma_sprinkled_none();
            assert(all.take(0) =~= Seq::empty());
        }
        let mut k: usize = 0;
        while k < picks.len()
            invariant
                old(self).wf(),
                self.wf(),
                k <= picks@.len(),
                all == places(picks@),
                old(self)@.holds(all),
                self@ == old(self)@.sprinkled(all.take(k as int)),
            decreases picks@.len() - k,
        {
            let (r, c) = picks[k];
            proof {
                assert(all[k as int] == (r as int, c as int));
                old(self)@.lemma_sprinkled_push(all.take(k as int), r as int, c as int);
                assert(all.take(k as int).push((r as int, c as int)) =~= all.take(k + 1));
            }
            self.set(r, c, Cell::Alive);
            k += 1;
        }
        assert(all.take(picks@.len() as int) =~= all);
    }

    /// Brings cells to life at places drawn at random, each row and each
    /// column equally likely: as many draws as `cells` says, or
    /// `cols * (rows / 2)` where it says nothing. A place may be drawn more
    /// than once, so fewer cells than draws may come to life.
    ///
    /// Which places are drawn is left to the generator; whatever it gives,
    /// the grid afterwards is the grid before with the drawn cells alive.
    pub fn seed(&mut self, cells: Option<usize>)
        requires
            old(self).wf(),
        ensures
            final(self).wf(),
            final(self)@.rows == old(self)@.rows,
            final(self)@.cols == old(self)@.cols,
            exists|picks: Seq<(int, int)>|
                picks.len() == old(self)@.draws(cells) && old(self)@.holds(picks) && final(self)@
                    == #[trigger] old(self)@.sprinkled(picks),
            old(self)@.draws(cells) == 0 ==> final(self)@ == old(self)@,
            old(self)@.population() <= final(self)@.population() <= old(self)@.population()
                + old(self)@.draws(cells),
            final(self)@.population() <= old(self)@.rows * old(self)@.cols,
            forall|r: int, c: int|
                old(self)@.in_bounds(r, c) && old(self)@.cell(r, c) == Cell::Alive
                    ==> #[trigger] final(self)@.cell(r, c) == Cell::Alive,
    {
        let mut rng = rand::thread_rng();
        let rows = self.rows();
        let cols = self.cols();
        let count = self.seed_count(cells);
        let ghost mut picks: Seq<(int, int)> = Seq::empty();
        proof {
            self@.lemma_sprinkled_none();
        }
        let mut k: usize = 0;
        while k < count
            invariant
                old(self).wf(),
                self.wf(),
                rows == old(self)@.rows,
                cols == old(self)@.cols,
                k <= count,
                picks.len() == k,
                old(self)@.holds(picks),
                self@ == old(self)@.sprinkled(picks),
            decreases count - k,
        {
            let r = draw_between(&mut rng, 0, rows);
            let c = draw_between(&mut rng, 0, cols);
            proof {
                old(self)@.lemma_sprinkled_push(picks, r as int, c as int);
                picks = picks.push((r as int, c as int));
            }
            self.set(r, c, Cell::Alive);
            k += 1;
        }
        proof {
            old(self)@.lemma_sprinkled_population(picks);
            if count == 0 {
                assert(picks =~= Seq::empty());
            }
        }
    }
}

} // verus!
