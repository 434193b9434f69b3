//! The grid itself: cell storage, coordinate mapping, neighbour counting,
//! the generation rule, and the viewport snapshot.

use rand::Rng;
use vstd::math::min;
use vstd::prelude::*;

verus! {

/// A fixed-size two-dimensional board of cells, stored row-major:
/// the cell at column `x`, row `y` lives at index `y * width + x`.
pub struct Grid {
    pub width: usize,
    pub height: usize,
    pub cells: Vec<bool>,
}

/// Relies on rand's `Rng::fill` through `rand::thread_rng`: it overwrites
/// each element of the slice in place with an independently drawn random
/// boolean, so the vector's length is unchanged. Nothing is claimed of
/// the values themselves.
#[verifier::external_body]
fn fill_random(cells: &mut Vec<bool>)
    ensures
        final(cells)@.len() == old(cells)@.len(),
{
    rand::thread_rng().fill(&mut cells[..])
}

/// The B3/S23 rule: a live cell survives with two or three live
/// neighbours, a dead cell is born with exactly three, and every other
/// combination leaves the cell dead.
pub open spec fn rule(alive: bool, neighbours: int) -> bool {
    if alive {
        neighbours == 2 || neighbours == 3
    } else {
        neighbours == 3
    }
}

/// The glyph a cell is drawn with: `'X'` when alive, a blank when dead.
pub open spec fn symbol(alive: bool) -> char {
    if alive {
        'X'
    } else {
        ' '
    }
}

/// 1 for a live cell, 0 for a dead one: the unit of neighbour counting.
pub open spec fn count_bool(b: bool) -> int {
    if b {
        1int
    } else {
        0int
    }
}

impl Grid {
    /// The storage holds exactly one cell per board position.
    pub open spec fn wf(self) -> bool {
        self.cells@.len() == self.width * self.height
    }

    /// A coordinate pair addresses a cell of the board. The board does not
    /// wrap: anything outside this range has no cell at all.
    pub open spec fn in_bounds(self, x: int, y: int) -> bool {
        0 <= x < self.width && 0 <= y < self.height
    }

    /// Whether the cell at (`x`, `y`) is alive; off-board positions count
    /// as dead, which is what makes the edges wrap-free.
    pub open spec fn alive(self, x: int, y: int) -> bool {
        self.in_bounds(x, y) && self.cells@[y * self.width + x]
    }

    /// How many of the eight Moore neighbours of (`x`, `y`) are alive.
    /// The cell itself is not among the eight.
    pub open spec fn live_neighbours(self, x: int, y: int) -> int {
        count_bool(self.alive(x - 1, y - 1)) + count_bool(self.alive(x, y - 1))
            + count_bool(self.alive(x + 1, y - 1)) + count_bool(self.alive(x - 1, y))
            + count_bool(self.alive(x + 1, y)) + count_bool(self.alive(x - 1, y + 1))
            + count_bool(self.alive(x, y + 1)) + count_bool(self.alive(x + 1, y + 1))
    }

    /// A cell position is valid exactly when its row-major index is.
    pub proof fn lemma_coord_index(self, x: int, y: int)
        requires
            self.wf(),
            self.in_bounds(x, y),
        ensures
            0 <= y * self.width + x < self.cells@.len(),
    {
        assert(0 <= y * self.width + x < self.width * self.height) by (nonlinear_arith)
            requires
                0 <= x < self.width,
                0 <= y < self.height,
        ;
    }

    /// Splitting a valid index back into coordinates lands on the board,
    /// and reads the same cell.
    pub proof fn lemma_index_coord(self, i: int)
        requires
            self.wf(),
            self.width > 0,
            0 <= i < self.cells@.len(),
        ensures
            self.in_bounds(i % self.width as int, i / self.width as int),
            self.cells@[i] == self.alive(i % self.width as int, i / self.width as int),
    {
        let w = self.width as int;
        vstd::arithmetic::div_mod::lemma_mod_bound(i, w);
        vstd::arithmetic::div_mod::lemma_fundamental_div_mod(i, w);
        assert(i / w < self.height) by (nonlinear_arith)
            requires
                0 < w,
                0 <= i < w * self.height,
                i == w * (i / w) + i % w,
                0 <= i % w < w,
        ;
        assert((i / w) * w + i % w == i) by (nonlinear_arith)
            requires
                i == w * (i / w) + i % w,
        ;
    }

    /// Builds a board of the given size with every cell drawn
    /// independently from the process-wide random source. Nothing beyond
    /// the dimensions can be promised of the contents.
    pub fn random(width: usize, height: usize) -> (g: Grid)
        requires
            width * height <= usize::MAX,
        ensures
            g.wf(),
            g.width == width,
            g.height == height,
    {
        let n = height * width;
        let mut cells: Vec<bool> = Vec::new();
        let mut i: usize = 0;
        while i < n
            invariant
                i <= n,
                cells@.len() == i,
            decreases n - i,
        {
            cells.push(false);
            i = i + 1;
        }
        fill_random(&mut cells);
        Grid { width, height, cells }
    }

    /// Builds a board of the given size from an explicit row-major cell
    /// buffer; refuses a buffer whose length does not match.
    pub fn from_cells(width: usize, height: usize, cells: Vec<bool>) -> (g: Option<Grid>)
        ensures
            g is Some <==> cells@.len() == width * height,
            g is Some ==> g->0.width == width && g->0.height == height && g->0.cells@ == cells@
                && g->0.wf(),
    {
        let n = width.checked_mul(height);
        if n == Some(cells.len()) {
            Some(Grid { width, height, cells })
        } else {
            None
        }
    }

    /// Recovers the coordinates of the cell stored at linear index `i`:
    /// the column is `i % width`, the row is `i / width`.
    pub fn idx_to_coord(&self, i: usize) -> (r: (usize, usize))
        requires
            self.width > 0,
        ensures
            r.0 == i as int % self.width as int,
            r.1 == i as int / self.width as int,
    {
        let x = i % self.width;
        let y = i / self.width;
        (x, y)
    }

    /// The row-major index of the cell at (`x`, `y`), or `None` when the
    /// position lies off the board.
    pub fn coord_to_idx(&self, x: usize, y: usize) -> (r: Option<usize>)
        requires
            self.wf(),
        ensures
            self.in_bounds(x as int, y as int) ==> r == Some((y * self.width + x) as usize),
            !self.in_bounds(x as int, y as int) ==> r is None,
            r is Some ==> r->0 < self.cells@.len(),
    {
        if x < self.width && y < self.height {
            proof {
                self.lemma_coord_index(x as int, y as int);
            }
            let _n = self.cells.len();
            assert(y * self.width + x < _n);
            Some(x + y * self.width)
        } else {
            None
        }
    }

    /// How many live cells the indices pick out, counted back to front.
    pub open spec fn count_living_in(cells: Seq<bool>, indices: Seq<usize>) -> int
        decreases indices.len(),
    {
        if indices.len() == 0 {
            0
        } else {
            Self::count_living_in(cells, indices.drop_last()) + count_bool(
                cells[indices.last() as int],
            )
        }
    }

    /// Appending an index adds that one cell to the count.
    proof fn lemma_count_living_push(cells: Seq<bool>, indices: Seq<usize>, j: usize)
        ensures
            Self::count_living_in(cells, indices.push(j)) == Self::count_living_in(cells, indices)
                + count_bool(cells[j as int]),
    {
        assert(indices.push(j).drop_last() =~= indices);
    }

    /// Counts how many of the given cell indices hold a live cell.
    pub fn count_living(&self, indices: &Vec<usize>) -> (n: usize)
        requires
            forall|k: int| 0 <= k < indices@.len() ==> indices@[k] < self.cells@.len(),
        ensures
            n == Self::count_living_in(self.cells@, indices@),
            n <= indices@.len(),
    {
        let mut n: usize = 0;
        let mut k: usize = 0;
        while k < indices.len()
            invariant
                k <= indices@.len(),
                n <= k,
                forall|j: int| 0 <= j < indices@.len() ==> indices@[j] < self.cells@.len(),
                n == Self::count_living_in(self.cells@, indices@.take(k as int)),
            decreases indices@.len() - k,
        {
            proof {
                assert(indices@.take(k + 1).drop_last() =~= indices@.take(k as int));
                assert(indices@.take(k + 1).last() == indices@[k as int]);
            }
            if self.cells[indices[k]] {
                n = n + 1;
            }
            k = k + 1;
        }
        proof {
            assert(indices@.take(indices@.len() as int) =~= indices@);
        }
        n
    }

    /// Counts the live cells among the eight Moore neighbours of the cell
    /// at linear index `i`. Positions that would fall off the board — past
    /// an edge in any direction — are simply skipped, never wrapped.
    pub fn count_living_neighbours(&self, i: usize) -> (n: usize)
        requires
            self.wf(),
            self.width > 0,
            i < self.cells@.len(),
        ensures
            n == self.live_neighbours(i as int % self.width as int, i as int / self.width as int),
            n <= 8,
    {
        let (x, y) = self.idx_to_coord(i);
        let _n_cells = self.cells.len();
        let ghost xi = x as int;
        let ghost yi = y as int;
        proof {
            self.lemma_index_coord(i as int);
        }
        // Candidate neighbour coordinates whose decrement would go below
        // zero, or whose position lies past the far edges, are off the
        // board and dropped; the rest are collected as linear indices.
        let mut idxs: Vec<usize> = Vec::new();
        if x > 0 && y > 0 {
            if let Some(j) = self.coord_to_idx(x - 1, y - 1) {
                idxs.push(j);
            }
        }
        proof {
            self.lemma_neighbour_term(idxs@, Seq::empty(), xi - 1, yi - 1);
        }
        let ghost s1 = idxs@;
        if y > 0 {
            if let Some(j) = self.coord_to_idx(x, y - 1) {
                idxs.push(j);
            }
        }
        proof {
            self.lemma_neighbour_term(idxs@, s1, xi, yi - 1);
        }
        let ghost s2 = idxs@;
        if y > 0 {
            if let Some(j) = self.coord_to_idx(x + 1, y - 1) {
                idxs.push(j);
            }
        }
        proof {
            self.lemma_neighbour_term(idxs@, s2, xi + 1, yi - 1);
        }
        let ghost s3 = idxs@;
        if x > 0 {
            if let Some(j) = self.coord_to_idx(x - 1, y) {
                idxs.push(j);
            }
        }
        proof {
            self.lemma_neighbour_term(idxs@, s3, xi - 1, yi);
        }
        let ghost s4 = idxs@;
        if let Some(j) = self.coord_to_idx(x + 1, y) {
            idxs.push(j);
        }
        proof {
            self.lemma_neighbour_term(idxs@, s4, xi + 1, yi);
        }
        let ghost s5 = idxs@;
        if x > 0 {
            if let Some(j) = self.coord_to_idx(x - 1, y + 1) {
                idxs.push(j);
            }
        }
        proof {
            self.lemma_neighbour_term(idxs@, s5, xi - 1, yi + 1);
        }
        let ghost s6 = idxs@;
        if let Some(j) = self.coord_to_idx(x, y + 1) {
            idxs.push(j);
        }
        proof {
            self.lemma_neighbour_term(idxs@, s6, xi, yi + 1);
        }
        let ghost s7 = idxs@;
        if let Some(j) = self.coord_to_idx(x + 1, y + 1) {
            idxs.push(j);
        }
        proof {
            self.lemma_neighbour_term(idxs@, s7, xi + 1, yi + 1);
        }
        self.count_living(&idxs)
    }

    /// The state the cell at linear index `i` takes in the next
    /// generation, as a function of the current one alone.
    pub open spec fn next_cell(self, i: int) -> bool
        recommends
            self.wf(),
            self.width > 0,
            0 <= i < self.cells@.len(),
    {
        rule(
            self.cells@[i],
            self.live_neighbours(i % self.width as int, i / self.width as int),
        )
    }

    /// Applies the rule to the cell at linear index `i`, reading only the
    /// current generation.
    pub fn next_at(&self, i: usize) -> (r: bool)
        requires
            self.wf(),
            self.width > 0,
            i < self.cells@.len(),
        ensures
            r == self.next_cell(i as int),
    {
        let n = self.count_living_neighbours(i);
        if self.cells[i] {
            n == 2 || n == 3
        } else {
            n == 3
        }
    }

    /// Advances the whole board one generation. Every cell's new state is
    /// computed from the same pre-advance snapshot — the fresh buffer is
    /// only swapped in once it is complete — so no cell ever sees a
    /// neighbour's already-updated state.
    pub fn update(&mut self)
        requires
            old(self).wf(),
        ensures
            final(self).wf(),
            final(self).width == old(self).width,
            final(self).height == old(self).height,
            final(self).cells@.len() == old(self).cells@.len(),
            forall|i: int|
                0 <= i < old(self).cells@.len() ==> final(self).cells@[i] == old(self).next_cell(
                    i,
                ),
    {
        let n = self.cells.len();
        proof {
            if n > 0 {
                assert(self.width > 0) by (nonlinear_arith)
                    requires
                        self.cells@.len() == self.width * self.height,
                        self.cells@.len() > 0,
                ;
            }
        }
        let mut next_cells: Vec<bool> = Vec::new();
        let mut i: usize = 0;
        while i < n
            invariant
                *self == *old(self),
                self.wf(),
                n == self.cells@.len(),
                n > 0 ==> self.width > 0,
                i <= n,
                next_cells@.len() == i,
                forall|j: int| 0 <= j < i ==> next_cells@[j] == self.next_cell(j),
            decreases n - i,
        {
            next_cells.push(self.next_at(i));
            i = i + 1;
        }
        self.cells = next_cells;
    }

    /// The entry a viewport snapshot holds at position `k`, for a
    /// viewport `mw` columns wide: the cell coordinates in row-major
    /// order, and the glyph for the cell's state.
    pub open spec fn render_entry(self, k: int, mw: int) -> (usize, usize, char)
        recommends
            mw > 0,
            0 <= k,
    {
        ((k % mw) as usize, (k / mw) as usize, symbol(self.alive(k % mw, k / mw)))
    }

    /// A read-only snapshot of the part of the board that fits a viewport
    /// of `area_width` by `area_height`: one `(x, y, glyph)` triple, in
    /// row-major order, for every cell that lies within both the viewport
    /// and the board. Viewport positions beyond the board's own bounds
    /// get no entry at all.
    pub fn render(&self, area_width: usize, area_height: usize) -> (out: Vec<(usize, usize, char)>)
        requires
            self.wf(),
        ensures
            out@.len() == min(self.width as int, area_width as int) * min(
                self.height as int,
                area_height as int,
            ),
            forall|k: int|
                0 <= k < out@.len() ==> out@[k] == self.render_entry(
                    k,
                    min(self.width as int, area_width as int),
                ),
    {
        let mw = if self.width < area_width {
            self.width
        } else {
            area_width
        };
        let mh = if self.height < area_height {
            self.height
        } else {
            area_height
        };
        let _n_cells = self.cells.len();
        let mut out: Vec<(usize, usize, char)> = Vec::new();
        let mut y: usize = 0;
        while y < mh
            invariant
                self.wf(),
                self.cells@.len() == _n_cells,
                mw == min(self.width as int, area_width as int),
                mh == min(self.height as int, area_height as int),
                y <= mh,
                out@.len() == y * mw,
                forall|k: int|
                    0 <= k < out@.len() ==> out@[k] == self.render_entry(k, mw as int),
            decreases mh - y,
        {
            let mut x: usize = 0;
            while x < mw
                invariant
                    self.wf(),
                    self.cells@.len() == _n_cells,
                        mw == min(self.width as int, area_width as int),
                    mh == min(self.height as int, area_height as int),
                    x <= mw,
                    y < mh,
                    out@.len() == y * mw + x,
                    forall|k: int|
                        0 <= k < out@.len() ==> out@[k] == self.render_entry(k, mw as int),
                decreases mw - x,
            {
                let i = self.coord_to_idx(x, y).unwrap();
                let glyph = if self.cells[i] {
                    'X'
                } else {
                    ' '
                };
                proof {
                    vstd::arithmetic::div_mod::lemma_fundamental_div_mod_converse(
                        y * mw + x,
                        mw as int,
                        y as int,
                        x as int,
                    );
                    self.lemma_coord_index(x as int, y as int);
                    assert(self.in_bounds(x as int, y as int));
                    assert(glyph == symbol(self.alive(x as int, y as int)));
                }
                out.push((x, y, glyph));
                x = x + 1;
            }
            proof {
                assert((y + 1) * mw == y * mw + mw) by (nonlinear_arith);
            }
            y = y + 1;
        }
        proof {
            assert(mh * mw == mw * mh) by (nonlinear_arith);
        }
        out
    }

    /// One step of the collection above: after handling the candidate at
    /// (`x`, `y`), the running count has gained exactly that position's
    /// contribution to the neighbour sum.
    proof fn lemma_neighbour_term(self, after: Seq<usize>, before: Seq<usize>, x: int, y: int)
        requires
            self.wf(),
            self.cells@.len() <= usize::MAX,
            self.in_bounds(x, y) ==> after =~= before.push((y * self.width + x) as usize),
            !self.in_bounds(x, y) ==> after =~= before,
        ensures
            Self::count_living_in(self.cells@, after) == Self::count_living_in(self.cells@, before)
                + count_bool(self.alive(x, y)),
    {
        if self.in_bounds(x, y) {
            self.lemma_coord_index(x, y);
            Self::lemma_count_living_push(
                self.cells@,
                before,
                (y * self.width + x) as usize,
            );
        }
    }
}

} // verus!
