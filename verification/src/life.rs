//! The simulation engine: the grid data model and its operations —
//! randomized construction, the synchronous generation update, resizing,
//! and the plain-text debug rendering.

use vstd::prelude::*;

use crate::rng::random_bool;
use crate::rules::{
    board_wf, clamped_next, live, next_cell, step, toroidal_next, wrap_dec, wrap_inc,
    BoundaryPolicy,
};
use crate::text::{board_text, cell_char, row_text, rows_text};

verus! {

/// Conway's Game of Life on a rectangular board of boolean cells, row-major,
/// with a boundary policy fixed at construction.
///
/// The dimensions are fixed for the board's lifetime except on an explicit
/// `resize`. Degenerate boards with zero rows or zero columns are legal and
/// update to themselves.
#[derive(Debug)]
pub struct LifeSimulator {
    board: Vec<Vec<bool>>,
    height: usize,
    width: usize,
    policy: BoundaryPolicy,
}

impl LifeSimulator {
    /// The board as a mathematical table: one sequence of cells per row.
    pub closed spec fn cells(self) -> Seq<Seq<bool>> {
        self.board@.map_values(|row: Vec<bool>| row@)
    }

    /// The number of rows, as a mathematical integer.
    pub closed spec fn spec_height(self) -> int {
        self.height as int
    }

    /// The number of columns, as a mathematical integer.
    pub closed spec fn spec_width(self) -> int {
        self.width as int
    }

    /// The boundary policy the board was built with.
    pub closed spec fn spec_policy(self) -> BoundaryPolicy {
        self.policy
    }

    /// Well-formed: the cell table has exactly `height` rows of exactly
    /// `width` cells each. Every constructor establishes this and every
    /// operation preserves it.
    pub open spec fn wf(self) -> bool {
        board_wf(self.cells(), self.spec_height(), self.spec_width())
    }

    /// Bridges the concrete `Vec` table and its mathematical view: the
    /// view has one row per vector, and each row is that vector's view.
    proof fn lemma_view(self)
        ensures
            self.cells().len() == self.board@.len(),
            forall|i: int|
                0 <= i < self.board@.len() ==> (#[trigger] self.board@[i])@ == self.cells()[i],
    {
        assert forall|i: int|
            0 <= i < self.board@.len() implies (#[trigger] self.board@[i])@
            == self.cells()[i] by {
            assert(self.cells()[i] == self.board@[i]@);
        }
    }

    /// The number of rows.
    pub fn height(&self) -> (h: usize)
        ensures
            h == self.spec_height(),
    {
        self.height
    }

    /// The number of columns.
    pub fn width(&self) -> (w: usize)
        ensures
            w == self.spec_width(),
    {
        self.width
    }

    /// The boundary policy the board was built with.
    pub fn policy(&self) -> (p: BoundaryPolicy)
        ensures
            p == self.spec_policy(),
    {
        self.policy
    }

    /// The state of the cell at row `r`, column `c`: true means live.
    pub fn cell(&self, r: usize, c: usize) -> (b: bool)
        requires
            self.wf(),
            r < self.spec_height(),
            c < self.spec_width(),
        ensures
            b == self.cells()[r as int][c as int],
    {
        proof {
            self.lemma_view();
        }
        self.board[r][c]
    }

    /// Builds a board of the given dimensions under the given boundary
    /// policy, with every cell initialized independently at random.
    pub fn new_with_policy(height: usize, width: usize, policy: BoundaryPolicy) -> (sim: Self)
        ensures
            sim.wf(),
            sim.spec_height() == height,
            sim.spec_width() == width,
            sim.spec_policy() == policy,
    {
        let mut board: Vec<Vec<bool>> = Vec::with_capacity(height);
        let mut r: usize = 0;
        while r < height
            invariant
                r <= height,
                board@.len() == r,
                forall|i: int| 0 <= i < r ==> (#[trigger] board@[i])@.len() == width,
            decreases height - r,
        {
            let mut row: Vec<bool> = Vec::with_capacity(width);
            let mut c: usize = 0;
            while c < width
                invariant
                    c <= width,
                    row@.len() == c,
                decreases width - c,
            {
                row.push(random_bool());
                c += 1;
            }
            board.push(row);
            r += 1;
        }
        let sim = LifeSimulator { board, height, width, policy };
        proof {
            sim.lemma_view();
            assert forall|i: int| 0 <= i < height implies (#[trigger] sim.cells()[i]).len()
                == width by {
                assert(sim.board@[i]@ == sim.cells()[i]);
            }
        }
        sim
    }

    /// Builds a board of the given dimensions with every cell randomized,
    /// on a torus: the policy of the original screensaver.
    pub fn new(height: usize, width: usize) -> (sim: Self)
        ensures
            sim.wf(),
            sim.spec_height() == height,
            sim.spec_width() == width,
            sim.spec_policy() == BoundaryPolicy::Toroidal,
    {
        Self::new_with_policy(height, width, BoundaryPolicy::Toroidal)
    }

    /// Builds a board from explicit rows, under the given boundary policy:
    /// the deterministic constructor, for seeding known patterns.
    pub fn from_rows(rows: Vec<Vec<bool>>, policy: BoundaryPolicy) -> (sim: Self)
        requires
            forall|i: int| 0 <= i < rows@.len() ==> (#[trigger] rows@[i])@.len() == rows@[0]@.len(),
        ensures
            sim.wf(),
            sim.spec_height() == rows@.len(),
            sim.spec_width() == (if rows@.len() == 0 { 0int } else { rows@[0]@.len() as int }),
            sim.spec_policy() == policy,
            sim.cells() == rows@.map_values(|row: Vec<bool>| row@),
    {
        let height = rows.len();
        let width = if height == 0 {
            0
        } else {
            rows[0].len()
        };
        let sim = LifeSimulator { board: rows, height, width, policy };
        proof {
            sim.lemma_view();
            assert(sim.cells() =~= rows@.map_values(|row: Vec<bool>| row@));
            assert forall|i: int| 0 <= i < height implies (#[trigger] sim.cells()[i]).len()
                == width by {
                assert(sim.board@[i]@ == sim.cells()[i]);
            }
        }
        sim
    }

    /// 1 if the cell at row `r`, column `c` is live, else 0.
    fn live_at(&self, r: usize, c: usize) -> (n: u8)
        requires
            self.wf(),
            r < self.spec_height(),
            c < self.spec_width(),
        ensures
            n as int == live(self.cells(), r as int, c as int),
    {
        proof {
            self.lemma_view();
        }
        if self.board[r][c] {
            1
        } else {
            0
        }
    }

    /// Toroidal next state of the cell at (r, c): the nine wraparound
    /// lookups are tallied and the cell lives on a tally of 3, or of 4
    /// when it is itself live.
    #[verifier::rlimit(50)]
    fn toroidal_cell_next(&self, r: usize, c: usize) -> (out: bool)
        requires
            self.wf(),
            r < self.spec_height(),
            c < self.spec_width(),
        ensures
            out == toroidal_next(self.cells(), self.spec_height(), self.spec_width(), r as int, c as int),
    {
        let rm: usize = if r == 0 {
            self.height - 1
        } else {
            r - 1
        };
        let rp: usize = if r == self.height - 1 {
            0
        } else {
            r + 1
        };
        let cm: usize = if c == 0 {
            self.width - 1
        } else {
            c - 1
        };
        let cp: usize = if c == self.width - 1 {
            0
        } else {
            c + 1
        };
        proof {
            assert(rm as int == wrap_dec(r as int, self.spec_height()));
            assert(rp as int == wrap_inc(r as int, self.spec_height()));
            assert(cm as int == wrap_dec(c as int, self.spec_width()));
            assert(cp as int == wrap_inc(c as int, self.spec_width()));
        }
        let tally: u8 = self.live_at(rm, cm) + self.live_at(rm, c) + self.live_at(rm, cp)
            + self.live_at(r, cm) + self.live_at(r, c) + self.live_at(r, cp) + self.live_at(
            rp,
            cm,
        ) + self.live_at(rp, c) + self.live_at(rp, cp);
        let here: bool = self.cell(r, c);
        tally == 3 || (tally == 4 && here)
    }

    /// Clamped next state of the cell at (r, c): the in-board neighbors are
    /// tallied, the cell itself left out, and the cell lives on a tally of
    /// 3, or of 2 when it is itself live.
    fn clamped_cell_next(&self, r: usize, c: usize) -> (out: bool)
        requires
            self.wf(),
            r < self.spec_height(),
            c < self.spec_width(),
        ensures
            out == clamped_next(self.cells(), self.spec_height(), self.spec_width(), r as int, c as int),
    {
        proof {
            self.lemma_view();
        }
        let mut tally: u8 = 0;
        if r > 0 {
            if c > 0 && self.board[r - 1][c - 1] {
                tally += 1;
            }
            if self.board[r - 1][c] {
                tally += 1;
            }
            if c + 1 < self.width && self.board[r - 1][c + 1] {
                tally += 1;
            }
        }
        if c > 0 && self.board[r][c - 1] {
            tally += 1;
        }
        if c + 1 < self.width && self.board[r][c + 1] {
            tally += 1;
        }
        if r + 1 < self.height {
            if c > 0 && self.board[r + 1][c - 1] {
                tally += 1;
            }
            if self.board[r + 1][c] {
                tally += 1;
            }
            if c + 1 < self.width && self.board[r + 1][c + 1] {
                tally += 1;
            }
        }
        tally == 3 || (tally == 2 && self.board[r][c])
    }

    /// Next state of the cell at (r, c) under the board's own policy.
    fn cell_next(&self, r: usize, c: usize) -> (out: bool)
        requires
            self.wf(),
            r < self.spec_height(),
            c < self.spec_width(),
        ensures
            out == next_cell(
                self.spec_policy(),
                self.cells(),
                self.spec_height(),
                self.spec_width(),
                r as int,
                c as int,
            ),
    {
        match self.policy {
            BoundaryPolicy::Toroidal => self.toroidal_cell_next(r, c),
            BoundaryPolicy::Clamped => self.clamped_cell_next(r, c),
        }
    }

    /// Advances the simulation one generation: every cell of the next
    /// board is computed from the same snapshot of the current board, and
    /// the whole table is replaced at once. Dimensions and policy are kept,
    /// so the update is a pure function of the current state.
    #[verifier::loop_isolation(false)]
    pub fn update(&mut self)
        requires
            old(self).wf(),
        ensures
            final(self).wf(),
            final(self).spec_height() == old(self).spec_height(),
            final(self).spec_width() == old(self).spec_width(),
            final(self).spec_policy() == old(self).spec_policy(),
            final(self).cells() == step(
                old(self).spec_policy(),
                old(self).cells(),
                old(self).spec_height() as nat,
                old(self).spec_width() as nat,
            ),
    {
        let height = self.height;
        let width = self.width;
        let mut next: Vec<Vec<bool>> = Vec::with_capacity(height);
        let mut r: usize = 0;
        while r < height
            invariant
                r <= height,
                next@.len() == r,
                forall|i: int| 0 <= i < r ==> (#[trigger] next@[i])@.len() == width,
                forall|i: int, j: int|
                    0 <= i < r && 0 <= j < width ==> (#[trigger] next@[i]@[j]) == next_cell(
                        self.spec_policy(),
                        self.cells(),
                        height as int,
                        width as int,
                        i,
                        j,
                    ),
            decreases height - r,
        {
            let mut row: Vec<bool> = Vec::with_capacity(width);
            let mut c: usize = 0;
            while c < width
                invariant
                    c <= width,
                    row@.len() == c,
                    forall|j: int|
                        0 <= j < c ==> (#[trigger] row@[j]) == next_cell(
                            self.spec_policy(),
                            self.cells(),
                            height as int,
                            width as int,
                            r as int,
                            j,
                        ),
                decreases width - c,
            {
                row.push(self.cell_next(r, c));
                c += 1;
            }
            next.push(row);
            r += 1;
        }
        self.board = next;
        proof {
            self.lemma_view();
            assert forall|i: int| 0 <= i < height implies (#[trigger] self.cells()[i]).len()
                == width by {
                assert(self.board@[i]@ == self.cells()[i]);
            }
            assert forall|i: int, j: int| 0 <= i < height && 0 <= j < width implies (
            #[trigger] self.cells()[i][j]) == next_cell(
                old(self).spec_policy(),
                old(self).cells(),
                height as int,
                width as int,
                i,
                j,
            ) by {
                assert(self.board@[i]@ == self.cells()[i]);
                assert(self.board@[i]@[j] == next_cell(
                    old(self).spec_policy(),
                    old(self).cells(),
                    height as int,
                    width as int,
                    i,
                    j,
                ));
            }
            assert(self.cells() =~~= step(
                old(self).spec_policy(),
                old(self).cells(),
                old(self).spec_height() as nat,
                old(self).spec_width() as nat,
            ));
        }
    }

    /// Replaces the board with a freshly randomized board of the new
    /// dimensions: old state is discarded, since reshaping it has no
    /// canonical mapping. The boundary policy is kept.
    pub fn resize(&mut self, new_height: usize, new_width: usize)
        ensures
            final(self).wf(),
            final(self).spec_height() == new_height,
            final(self).spec_width() == new_width,
            final(self).spec_policy() == old(self).spec_policy(),
    {
        let policy = self.policy;
        *self = Self::new_with_policy(new_height, new_width, policy);
    }

    /// Renders the board as plain text for offline diagnosis: one character
    /// per cell — '0' live, ' ' dead — and one line per row, each closed by
    /// a newline.
    #[verifier::loop_isolation(false)]
    pub fn to_text(&self) -> (out: String)
        requires
            self.wf(),
        ensures
            out@ == board_text(self.cells()),
    {
        proof {
            self.lemma_view();
        }
        let mut out = String::new();
        let mut r: usize = 0;
        while r < self.height
            invariant
                r <= self.height,
                out@ == rows_text(self.cells(), r as int),
            decreases self.height - r,
        {
            let mut c: usize = 0;
            while c < self.width
                invariant
                    c <= self.width,
                    out@ == rows_text(self.cells(), r as int) + self.cells()[r as int].take(
                        c as int,
                    ).map_values(|b: bool| cell_char(b)),
                decreases self.width - c,
            {
                let ghost prefix = out@;
                let ghost row_view = self.cells()[r as int];
                if self.board[r][c] {
                    out.append("0");
                } else {
                    out.append(" ");
                }
                proof {
                    reveal_strlit("0");
                    reveal_strlit(" ");
                    assert(self.board@[r as int]@ == row_view);
                    assert(out@ =~= prefix.push(cell_char(row_view[c as int])));
                    assert(row_view.take(c as int + 1).map_values(|b: bool| cell_char(b)) =~= row_view.take(
                        c as int,
                    ).map_values(|b: bool| cell_char(b)).push(cell_char(row_view[c as int])));
                    assert(out@ =~= rows_text(self.cells(), r as int) + row_view.take(
                        c as int + 1,
                    ).map_values(|b: bool| cell_char(b)));
                }
                c += 1;
            }
            out.append("\n");
            proof {
                reveal_strlit("\n");
                let row_view = self.cells()[r as int];
                assert(row_view.take(self.spec_width()) =~= row_view);
                assert(out@ =~= rows_text(self.cells(), r as int) + row_text(row_view));
                assert(rows_text(self.cells(), r as int + 1) == rows_text(self.cells(), r as int)
                    + row_text(row_view));
            }
            r += 1;
        }
        out
    }
}

} // verus!
