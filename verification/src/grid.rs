//! The simulation grid: a fixed-dimension rectangular array of cell states
//! on a torus, stored as a flat row-major buffer, with wraparound neighbor
//! counting and generational stepping.

use vstd::prelude::*;
use vstd::arithmetic::div_mod::lemma_fundamental_div_mod_converse;
use crate::state::{next_state_spec, State};
use crate::torus::{wrap_spec, wrapping_bound};

verus! {

/// One cell read from a flat row-major sequence of row length `w`.
pub open spec fn cell_at(cells: Seq<State>, w: int, x: int, y: int) -> State {
    cells[y * w + x]
}

/// 1 if the addressed cell is alive, else 0.
pub open spec fn alive_ind(cells: Seq<State>, w: int, x: int, y: int) -> nat {
    if cell_at(cells, w, x, y) is Alive {
        1
    } else {
        0
    }
}

/// The number of alive cells among the 8 toroidal neighbors of `(x, y)`
/// in a flat `w` by `h` grid, both axes wrapping independently.
pub open spec fn neighbor_count_spec(cells: Seq<State>, w: int, h: int, x: int, y: int) -> nat {
    let xm = wrap_spec(x, -1, w);
    let xp = wrap_spec(x, 1, w);
    let ym = wrap_spec(y, -1, h);
    let yp = wrap_spec(y, 1, h);
    alive_ind(cells, w, xm, ym) + alive_ind(cells, w, x, ym) + alive_ind(cells, w, xp, ym)
        + alive_ind(cells, w, xm, y) + alive_ind(cells, w, xp, y) + alive_ind(cells, w, xm, yp)
        + alive_ind(cells, w, x, yp) + alive_ind(cells, w, xp, yp)
}

/// The next generation of a flat grid: the transition rule applied at every
/// cell independently, all counts taken from the same source generation.
pub open spec fn next_cells(cells: Seq<State>, w: int, h: int) -> Seq<State> {
    Seq::new(
        (w * h) as nat,
        |k: int| next_state_spec(cells[k], neighbor_count_spec(cells, w, h, k % w, k / w)),
    )
}

/// A flat row-major index addresses exactly one in-range coordinate pair.
pub proof fn lemma_index_bound(x: int, y: int, w: int, h: int)
    requires
        0 <= x < w,
        0 <= y < h,
    ensures
        0 <= y * w + x < w * h,
        (y * w + x) % w == x,
        (y * w + x) / w == y,
{
    assert(0 <= y * w + x < w * h) by (nonlinear_arith)
        requires
            0 <= x < w,
            0 <= y < h,
    ;
    lemma_fundamental_div_mod_converse(y * w + x, w, y, x);
}

/// The authoritative simulation state: a `width` by `height` toroidal grid
/// of cells, held as one flat row-major buffer.
pub struct Grid {
    pub width: usize,
    pub height: usize,
    pub cells: Vec<State>,
}

impl Grid {
    /// Well-formed: positive fixed dimensions and one cell per coordinate.
    pub open spec fn wf(self) -> bool {
        &&& 0 < self.width
        &&& 0 < self.height
        &&& self.cells@.len() == (self.width as int) * (self.height as int)
    }

    /// The cell at column `x`, row `y`.
    pub open spec fn at(self, x: int, y: int) -> State {
        cell_at(self.cells@, self.width as int, x, y)
    }

    /// The number of alive cells among the 8 toroidal neighbors of `(x, y)`.
    pub open spec fn neighbor_count(self, x: int, y: int) -> nat {
        neighbor_count_spec(
            self.cells@,
            self.width as int,
            self.height as int,
            x,
            y,
        )
    }

    /// An all-dead grid of the given dimensions.
    pub fn new(width: usize, height: usize) -> (g: Grid)
        requires
            0 < width,
            0 < height,
            (width as int) * (height as int) <= usize::MAX as int,
        ensures
            g.wf(),
            g.width == width,
            g.height == height,
            forall|x: int, y: int|
                0 <= x < width && 0 <= y < height ==> g.at(x, y) is Dead,
    {
        let n: usize = width * height;
        let mut cells: Vec<State> = Vec::new();
        let mut i: usize = 0;
        while i < n
            invariant
                i <= n,
                cells@.len() == i,
                forall|j: int| 0 <= j < i ==> cells@[j] is Dead,
            decreases n - i,
        {
            cells.push(State::Dead);
            i = i + 1;
        }
        let g = Grid { width, height, cells };
        proof {
            assert forall|x: int, y: int|
                0 <= x < width && 0 <= y < height implies g.at(x, y) is Dead by {
                lemma_index_bound(x, y, width as int, height as int);
            }
        }
        g
    }

    /// The flat buffer index of coordinate `(x, y)`.
    pub(crate) fn idx(&self, x: usize, y: usize) -> (r: usize)
        requires
            self.wf(),
            x < self.width,
            y < self.height,
        ensures
            r == y * self.width + x,
            r < self.cells@.len(),
    {
        // Binding the length brings the fact that it fits in usize into scope.
        let _len = self.cells.len();
        proof {
            lemma_index_bound(x as int, y as int, self.width as int, self.height as int);
        }
        y * self.width + x
    }

    /// Read the cell at `(x, y)`.
    pub fn get(&self, x: usize, y: usize) -> (s: State)
        requires
            self.wf(),
            x < self.width,
            y < self.height,
        ensures
            s == self.at(x as int, y as int),
    {
        let i = self.idx(x, y);
        self.cells[i]
    }

    /// Overwrite the cell at `(x, y)` with `s`, leaving every other cell
    /// unchanged.
    pub fn set(&mut self, x: usize, y: usize, s: State)
        requires
            old(self).wf(),
            x < old(self).width,
            y < old(self).height,
        ensures
            final(self).wf(),
            final(self).width == old(self).width,
            final(self).height == old(self).height,
            final(self).cells@ == old(self).cells@.update(
                y * old(self).width + x,
                s,
            ),
            final(self).at(x as int, y as int) == s,
            forall|a: int, b: int|
                0 <= a < old(self).width && 0 <= b < old(self).height
                    && !(a == x && b == y) ==> final(self).at(a, b) == old(self).at(a, b),
    {
        let i = self.idx(x, y);
        self.cells.set(i, s);
        proof {
            let w = old(self).width as int;
            let h = old(self).height as int;
            lemma_index_bound(x as int, y as int, w, h);
            assert forall|a: int, b: int|
                0 <= a < w && 0 <= b < h && !(a == x && b == y) implies self.at(a, b) == old(
                self,
            ).at(a, b) by {
                lemma_index_bound(a, b, w, h);
            }
        }
    }

    /// Flip the cell at `(x, y)` between `Dead` and `Alive`, leaving every
    /// other cell unchanged.
    pub fn toggle(&mut self, x: usize, y: usize)
        requires
            old(self).wf(),
            x < old(self).width,
            y < old(self).height,
        ensures
            final(self).wf(),
            final(self).width == old(self).width,
            final(self).height == old(self).height,
            final(self).at(x as int, y as int) is Alive <==> old(self).at(
                x as int,
                y as int,
            ) is Dead,
            forall|a: int, b: int|
                0 <= a < old(self).width && 0 <= b < old(self).height
                    && !(a == x && b == y) ==> final(self).at(a, b) == old(self).at(a, b),
    {
        let s = self.get(x, y);
        let flipped = match s {
            State::Dead => State::Alive,
            State::Alive => State::Dead,
        };
        self.set(x, y, flipped);
    }

    /// Count the alive cells among the 8 toroidal neighbors of `(x, y)`.
    fn count_at(&self, x: usize, y: usize) -> (c: u8)
        requires
            self.wf(),
            2 <= self.width,
            2 <= self.height,
            x < self.width,
            y < self.height,
        ensures
            c as nat == self.neighbor_count(x as int, y as int),
            c <= 8,
    {
        let xm = wrapping_bound(x, -1, self.width);
        let xp = wrapping_bound(x, 1, self.width);
        let ym = wrapping_bound(y, -1, self.height);
        let yp = wrapping_bound(y, 1, self.height);
        let mut c: u8 = 0;
        if self.get(xm, ym).is_alive() {
            c = c + 1;
        }
        if self.get(x, ym).is_alive() {
            c = c + 1;
        }
        if self.get(xp, ym).is_alive() {
            c = c + 1;
        }
        if self.get(xm, y).is_alive() {
            c = c + 1;
        }
        if self.get(xp, y).is_alive() {
            c = c + 1;
        }
        if self.get(xm, yp).is_alive() {
            c = c + 1;
        }
        if self.get(x, yp).is_alive() {
            c = c + 1;
        }
        if self.get(xp, yp).is_alive() {
            c = c + 1;
        }
        c
    }

    /// The ephemeral neighbor-count grid: one count per cell, in the same
    /// flat row-major layout as the cell buffer.
    fn neighbor_counts(&self) -> (counts: Vec<u8>)
        requires
            self.wf(),
            2 <= self.width,
            2 <= self.height,
        ensures
            counts@.len() == self.cells@.len(),
            forall|k: int|
                0 <= k < counts@.len() ==> counts@[k] as nat == self.neighbor_count(
                    k % (self.width as int),
                    k / (self.width as int),
                ),
    {
        let ghost w = self.width as int;
        let ghost h = self.height as int;
        let mut counts: Vec<u8> = Vec::new();
        let mut y: usize = 0;
        while y < self.height
            invariant
                self.wf(),
                2 <= self.width,
                2 <= self.height,
                y <= self.height,
                w == self.width as int,
                h == self.height as int,
                counts@.len() == y * w,
                forall|k: int|
                    0 <= k < counts@.len() ==> counts@[k] as nat == self.neighbor_count(
                        k % w,
                        k / w,
                    ),
            decreases self.height - y,
        {
            let mut x: usize = 0;
            while x < self.width
                invariant
                    self.wf(),
                    2 <= self.width,
                    2 <= self.height,
                    y < self.height,
                    x <= self.width,
                    w == self.width as int,
                    h == self.height as int,
                    counts@.len() == y * w + x,
                    forall|k: int|
                        0 <= k < counts@.len() ==> counts@[k] as nat == self.neighbor_count(
                            k % w,
                            k / w,
                        ),
                decreases self.width - x,
            {
                proof {
                    lemma_index_bound(x as int, y as int, w, h);
                }
                let c = self.count_at(x, y);
                counts.push(c);
                x = x + 1;
            }
            proof {
                assert((y as int + 1) * w == y as int * w + w) by (nonlinear_arith);
            }
            y = y + 1;
        }
        proof {
            assert(h * w == w * h) by (nonlinear_arith);
        }
        counts
    }

    /// Advance the grid one generation: every cell is replaced according to
    /// the transition rule on its own prior state and the count of its alive
    /// toroidal neighbors, all read from the prior generation.
    pub fn step(&mut self)
        requires
            old(self).wf(),
            2 <= old(self).width,
            2 <= old(self).height,
        ensures
            final(self).wf(),
            final(self).width == old(self).width,
            final(self).height == old(self).height,
            final(self).cells@ == next_cells(
                old(self).cells@,
                old(self).width as int,
                old(self).height as int,
            ),
            forall|x: int, y: int|
                0 <= x < old(self).width && 0 <= y < old(self).height ==> final(self).at(x, y)
                    == next_state_spec(old(self).at(x, y), old(self).neighbor_count(x, y)),
    {
        let ghost w = self.width as int;
        let ghost h = self.height as int;
        let counts = self.neighbor_counts();
        let n = self.cells.len();
        let mut next: Vec<State> = Vec::new();
        let mut k: usize = 0;
        while k < n
            invariant
                self.wf(),
                w == self.width as int,
                h == self.height as int,
                n == self.cells@.len(),
                counts@.len() == n,
                forall|j: int|
                    0 <= j < n ==> counts@[j] as nat == self.neighbor_count(j % w, j / w),
                k <= n,
                next@.len() == k,
                forall|j: int|
                    0 <= j < k ==> next@[j] == next_state_spec(
                        self.cells@[j],
                        self.neighbor_count(j % w, j / w),
                    ),
            decreases n - k,
        {
            let s = self.cells[k].get_next_state(counts[k] as usize);
            next.push(s);
            k = k + 1;
        }
        proof {
            assert(next@ =~= next_cells(self.cells@, w, h));
        }
        self.cells = next;
        proof {
            assert forall|x: int, y: int|
                0 <= x < old(self).width && 0 <= y < old(self).height implies self.at(x, y)
                == next_state_spec(old(self).at(x, y), old(self).neighbor_count(x, y)) by {
                lemma_index_bound(x, y, w, h);
            }
        }
    }
}

}
