//! The region clipboard: capture a rectangular sub-grid from the grid and
//! paste a stored pattern back at an arbitrary anchor, wrapping around the
//! grid boundary on both axes.

use vstd::prelude::*;
use vstd::arithmetic::div_mod::{
    lemma_fundamental_div_mod, lemma_mod_bound, lemma_small_mod,
};
use crate::grid::{cell_at, lemma_index_bound, Grid};
use crate::state::State;
use crate::torus::{wrap_index, wrap_spec};

verus! {

/// A captured rectangular pattern of cells, independent of the grid's
/// dimensions, possibly empty, stored row-major like the grid itself.
pub struct Pattern {
    pub width: usize,
    pub height: usize,
    pub cells: Vec<State>,
}

impl Pattern {
    /// Well-formed: one cell per coordinate of the (possibly empty) rectangle.
    pub open spec fn wf(self) -> bool {
        self.cells@.len() == (self.width as int) * (self.height as int)
    }

    /// The pattern cell at column `i`, row `j`.
    pub open spec fn at(self, i: int, j: int) -> State {
        cell_at(self.cells@, self.width as int, i, j)
    }

    /// Whether the pattern holds no cells at all.
    pub open spec fn is_empty(self) -> bool {
        self.width == 0 || self.height == 0
    }

    /// The empty pattern: what the clipboard holds before any capture.
    pub fn empty() -> (p: Pattern)
        ensures
            p.wf(),
            p.width == 0,
            p.height == 0,
            p.is_empty(),
    {
        Pattern { width: 0, height: 0, cells: Vec::new() }
    }
}

/// The cell buffer that capturing a `pw` by `ph` rectangle anchored at
/// `(sx, sy)` yields: entry `(i, j)` is grid cell `(sx + i, sy + j)`.
pub open spec fn capture_spec(
    cells: Seq<State>,
    w: int,
    sx: int,
    sy: int,
    pw: int,
    ph: int,
) -> Seq<State> {
    Seq::new((pw * ph) as nat, |k: int| cell_at(cells, w, sx + k % pw, sy + k / pw))
}

/// The grid buffer after the first `n` pattern cells, taken in row-major
/// order, have been written at their wrapped destinations. A later write
/// overwrites an earlier one, exactly as the paste loop runs.
pub open spec fn paste_upto(
    cells: Seq<State>,
    w: int,
    h: int,
    ax: int,
    ay: int,
    pw: int,
    pcells: Seq<State>,
    n: nat,
) -> Seq<State>
    decreases n,
{
    if n == 0 {
        cells
    } else {
        let k = (n - 1) as int;
        let i = k % pw;
        let j = k / pw;
        let dst = wrap_spec(ay, j, h) * w + wrap_spec(ax, i, w);
        paste_upto(cells, w, h, ax, ay, pw, pcells, (n - 1) as nat).update(dst, pcells[k])
    }
}

impl Grid {
    /// Capture the rectangle with corners `(start_x, start_y)` and
    /// `(end_x, end_y)`, both inclusive and in range, as a fresh pattern.
    /// The grid itself is untouched.
    pub fn capture(&self, start_x: usize, start_y: usize, end_x: usize, end_y: usize) -> (p:
        Pattern)
        requires
            self.wf(),
            start_x <= end_x < self.width,
            start_y <= end_y < self.height,
        ensures
            p.wf(),
            p.width == end_x - start_x + 1,
            p.height == end_y - start_y + 1,
            p.cells@ == capture_spec(
                self.cells@,
                self.width as int,
                start_x as int,
                start_y as int,
                p.width as int,
                p.height as int,
            ),
            forall|i: int, j: int|
                0 <= i < p.width && 0 <= j < p.height ==> p.at(i, j) == self.at(
                    start_x + i,
                    start_y + j,
                ),
    {
        let pw: usize = end_x - start_x + 1;
        let ph: usize = end_y - start_y + 1;
        let ghost target = capture_spec(
            self.cells@,
            self.width as int,
            start_x as int,
            start_y as int,
            pw as int,
            ph as int,
        );
        let mut cells: Vec<State> = Vec::new();
        let mut j: usize = 0;
        while j < ph
            invariant
                self.wf(),
                pw == end_x - start_x + 1,
                ph == end_y - start_y + 1,
                start_x <= end_x < self.width,
                start_y <= end_y < self.height,
                j <= ph,
                cells@.len() == j * pw,
                target == capture_spec(
                    self.cells@,
                    self.width as int,
                    start_x as int,
                    start_y as int,
                    pw as int,
                    ph as int,
                ),
                forall|k: int| 0 <= k < cells@.len() ==> cells@[k] == target[k],
            decreases ph - j,
        {
            let mut i: usize = 0;
            while i < pw
                invariant
                    self.wf(),
                    pw == end_x - start_x + 1,
                    ph == end_y - start_y + 1,
                    start_x <= end_x < self.width,
                    start_y <= end_y < self.height,
                    j < ph,
                    i <= pw,
                    cells@.len() == j * pw + i,
                    target == capture_spec(
                        self.cells@,
                        self.width as int,
                        start_x as int,
                        start_y as int,
                        pw as int,
                        ph as int,
                    ),
                    forall|k: int| 0 <= k < cells@.len() ==> cells@[k] == target[k],
                decreases pw - i,
            {
                proof {
                    lemma_index_bound(i as int, j as int, pw as int, ph as int);
                }
                let s = self.get(start_x + i, start_y + j);
                cells.push(s);
                i = i + 1;
            }
            proof {
                assert((j as int + 1) * pw == j as int * pw + pw) by (nonlinear_arith);
            }
            j = j + 1;
        }
        proof {
            assert(ph as int * pw as int == pw as int * ph as int) by (nonlinear_arith);
            assert(cells@ =~= target);
        }
        let p = Pattern { width: pw, height: ph, cells };
        proof {
            assert forall|i: int, j: int|
                0 <= i < p.width && 0 <= j < p.height implies p.at(i, j) == self.at(
                start_x + i,
                start_y + j,
            ) by {
                lemma_index_bound(i, j, pw as int, ph as int);
            }
        }
        p
    }

    /// Paste `pattern` into the grid with its top-left cell at the anchor.
    /// Both axes wrap: a pattern larger than the grid wraps around as many
    /// times as needed, overwriting cells more than once in row-major order.
    /// An empty pattern leaves the grid untouched.
    pub fn paste(&mut self, anchor_x: usize, anchor_y: usize, pattern: &Pattern)
        requires
            old(self).wf(),
            pattern.wf(),
            anchor_x < old(self).width,
            anchor_y < old(self).height,
        ensures
            final(self).wf(),
            final(self).width == old(self).width,
            final(self).height == old(self).height,
            final(self).cells@ == paste_upto(
                old(self).cells@,
                old(self).width as int,
                old(self).height as int,
                anchor_x as int,
                anchor_y as int,
                pattern.width as int,
                pattern.cells@,
                (pattern.width as int * pattern.height as int) as nat,
            ),
    {
        let ghost w = self.width as int;
        let ghost h = self.height as int;
        let ghost pw = pattern.width as int;
        let ghost ph = pattern.height as int;
        let ghost orig = self.cells@;
        if pattern.width == 0 || pattern.height == 0 {
            proof {
                assert(pw * ph == 0) by (nonlinear_arith)
                    requires
                        pw == 0 || ph == 0,
                ;
            }
            return ;
        }
        let mut j: usize = 0;
        while j < pattern.height
            invariant
                self.wf(),
                pattern.wf(),
                self.width == old(self).width,
                self.height == old(self).height,
                w == self.width as int,
                h == self.height as int,
                pw == pattern.width as int,
                ph == pattern.height as int,
                0 < pw,
                0 < ph,
                anchor_x < self.width,
                anchor_y < self.height,
                orig == old(self).cells@,
                j <= ph,
                self.cells@ == paste_upto(
                    orig,
                    w,
                    h,
                    anchor_x as int,
                    anchor_y as int,
                    pw,
                    pattern.cells@,
                    (j * pw) as nat,
                ),
            decreases ph - j,
        {
            let mut i: usize = 0;
            while i < pattern.width
                invariant
                    self.wf(),
                    pattern.wf(),
                    self.width == old(self).width,
                    self.height == old(self).height,
                    w == self.width as int,
                    h == self.height as int,
                    pw == pattern.width as int,
                    ph == pattern.height as int,
                    0 < pw,
                    0 < ph,
                    anchor_x < self.width,
                    anchor_y < self.height,
                    orig == old(self).cells@,
                    j < ph,
                    i <= pw,
                    self.cells@ == paste_upto(
                        orig,
                        w,
                        h,
                        anchor_x as int,
                        anchor_y as int,
                        pw,
                        pattern.cells@,
                        (j * pw + i) as nat,
                    ),
                decreases pw - i,
            {
                proof {
                    lemma_index_bound(i as int, j as int, pw, ph);
                }
                let nx = wrap_index(anchor_x, i, self.width);
                let ny = wrap_index(anchor_y, j, self.height);
                let d = self.idx(nx, ny);
                // Binding the length shows the flat pattern index fits in usize.
                let _plen = pattern.cells.len();
                let pk = j * pattern.width + i;
                let s = pattern.cells[pk];
                self.cells.set(d, s);
                i = i + 1;
            }
            proof {
                assert((j as int + 1) * pw == j as int * pw + pw) by (nonlinear_arith);
            }
            j = j + 1;
        }
        proof {
            assert(ph * pw == pw * ph) by (nonlinear_arith);
        }
    }
}

/// Every write a paste makes lands inside the grid: the wrapped destination
/// coordinates are in `[0, w)` and `[0, h)`, and the flat destination index
/// is in range, however far the pattern extends beyond the grid.
pub proof fn lemma_paste_writes_in_bounds(w: int, h: int, ax: int, ay: int, i: int, j: int)
    requires
        0 < w,
        0 < h,
    ensures
        0 <= wrap_spec(ax, i, w) < w,
        0 <= wrap_spec(ay, j, h) < h,
        0 <= wrap_spec(ay, j, h) * w + wrap_spec(ax, i, w) < w * h,
{
    lemma_mod_bound(ax + i, w);
    lemma_mod_bound(ay + j, h);
    lemma_index_bound(wrap_spec(ax, i, w), wrap_spec(ay, j, h), w, h);
}

/// Pasting never changes the size of the grid buffer, regardless of how
/// large the pattern is.
pub proof fn lemma_paste_preserves_len(
    cells: Seq<State>,
    w: int,
    h: int,
    ax: int,
    ay: int,
    pw: int,
    pcells: Seq<State>,
    n: nat,
)
    requires
        0 < w,
        0 < h,
        cells.len() == w * h,
    ensures
        paste_upto(cells, w, h, ax, ay, pw, pcells, n).len() == cells.len(),
    decreases n,
{
    if n > 0 {
        lemma_paste_preserves_len(cells, w, h, ax, ay, pw, pcells, (n - 1) as nat);
        let k = (n - 1) as int;
        lemma_paste_writes_in_bounds(w, h, ax, ay, k % pw, k / pw);
    }
}

/// Capturing a rectangle that lies fully inside the grid and pasting it
/// back at its own top-left corner writes every captured cell over itself:
/// the grid comes out unchanged.
pub proof fn lemma_capture_paste_round_trip(
    cells: Seq<State>,
    w: int,
    h: int,
    sx: int,
    sy: int,
    pw: int,
    ph: int,
)
    requires
        0 < w,
        0 < h,
        cells.len() == w * h,
        0 <= sx,
        0 <= sy,
        0 < pw,
        0 < ph,
        sx + pw <= w,
        sy + ph <= h,
    ensures
        paste_upto(
            cells,
            w,
            h,
            sx,
            sy,
            pw,
            capture_spec(cells, w, sx, sy, pw, ph),
            (pw * ph) as nat,
        ) == cells,
{
    assert(0 <= pw * ph) by (nonlinear_arith)
        requires
            0 < pw,
            0 < ph,
    ;
    lemma_round_trip_upto(cells, w, h, sx, sy, pw, ph, (pw * ph) as nat);
}

/// Induction behind the round trip: after any prefix of the writes, the
/// grid still equals its original contents, because each write puts a cell's
/// own value back at its own index.
proof fn lemma_round_trip_upto(
    cells: Seq<State>,
    w: int,
    h: int,
    sx: int,
    sy: int,
    pw: int,
    ph: int,
    n: nat,
)
    requires
        0 < w,
        0 < h,
        cells.len() == w * h,
        0 <= sx,
        0 <= sy,
        0 < pw,
        0 < ph,
        sx + pw <= w,
        sy + ph <= h,
        n <= pw * ph,
    ensures
        paste_upto(cells, w, h, sx, sy, pw, capture_spec(cells, w, sx, sy, pw, ph), n) == cells,
    decreases n,
{
    let pcells = capture_spec(cells, w, sx, sy, pw, ph);
    if n > 0 {
        lemma_round_trip_upto(cells, w, h, sx, sy, pw, ph, (n - 1) as nat);
        let k = (n - 1) as int;
        let i = k % pw;
        let j = k / pw;
        lemma_mod_bound(k, pw);
        lemma_fundamental_div_mod(k, pw);
        assert(0 <= j && j < ph) by (nonlinear_arith)
            requires
                0 < pw,
                0 <= k < pw * ph,
                k == pw * j + i,
                0 <= i < pw,
        ;
        lemma_small_mod((sx + i) as nat, w as nat);
        lemma_small_mod((sy + j) as nat, h as nat);
        let dst = (sy + j) * w + (sx + i);
        lemma_index_bound(sx + i, sy + j, w, h);
        assert(pcells[k] == cells[dst]);
        assert(paste_upto(cells, w, h, sx, sy, pw, pcells, n) =~= cells);
    }
}

}
