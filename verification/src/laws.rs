//! Proved facts about whole-grid configurations under one simulation step:
//! an isolated cell dies, a 2 by 2 block is a still life, and the blinker
//! oscillates from vertical to horizontal.

use vstd::prelude::*;
use crate::grid::{lemma_index_bound, next_cells, Grid};
use crate::state::next_state_spec;
use crate::torus::{lemma_unit_wraps, wrap_spec};

verus! {

/// `post` is `pre` advanced by exactly one generation.
pub open spec fn is_step(pre: Grid, post: Grid) -> bool {
    &&& post.width == pre.width
    &&& post.height == pre.height
    &&& post.cells@ == next_cells(pre.cells@, pre.width as int, pre.height as int)
}

/// One generation, read cell by cell: each cell of `post` is the transition
/// rule applied to the matching cell of `pre` and its neighbor count.
pub proof fn lemma_step_pointwise(pre: Grid, post: Grid)
    requires
        pre.wf(),
        is_step(pre, post),
    ensures
        post.wf(),
        forall|x: int, y: int|
            0 <= x < pre.width && 0 <= y < pre.height ==> post.at(x, y) == next_state_spec(
                pre.at(x, y),
                pre.neighbor_count(x, y),
            ),
{
    let w = pre.width as int;
    let h = pre.height as int;
    assert forall|x: int, y: int|
        0 <= x < w && 0 <= y < h implies post.at(x, y) == next_state_spec(
        pre.at(x, y),
        pre.neighbor_count(x, y),
    ) by {
        lemma_index_bound(x, y, w, h);
    }
}

/// The only alive cell of `g` is at `(ax, ay)`.
pub open spec fn single_alive(g: Grid, ax: int, ay: int) -> bool {
    forall|x: int, y: int|
        0 <= x < g.width && 0 <= y < g.height ==> (g.at(x, y) is Alive <==> (x == ax && y == ay))
}

/// Every cell of `g` is dead.
pub open spec fn all_dead(g: Grid) -> bool {
    forall|x: int, y: int| 0 <= x < g.width && 0 <= y < g.height ==> g.at(x, y) is Dead
}

/// On a grid of at least 3 by 3, a cell's 8 toroidal neighbor positions
/// are all distinct from each other, so at most one of them can coincide
/// with any single given cell: a lone alive cell gives every cell a
/// neighbor count of at most 1.
proof fn lemma_single_count(g: Grid, ax: int, ay: int, x: int, y: int)
    requires
        g.wf(),
        3 <= g.width,
        3 <= g.height,
        0 <= ax < g.width,
        0 <= ay < g.height,
        0 <= x < g.width,
        0 <= y < g.height,
        single_alive(g, ax, ay),
    ensures
        g.neighbor_count(x, y) <= 1,
{
    let w = g.width as int;
    let h = g.height as int;
    lemma_unit_wraps(x, w);
    lemma_unit_wraps(y, h);
    let xm = wrap_spec(x, -1, w);
    let xp = wrap_spec(x, 1, w);
    let ym = wrap_spec(y, -1, h);
    let yp = wrap_spec(y, 1, h);
    assert(xm != x && xp != x && xm != xp);
    assert(ym != y && yp != y && ym != yp);
    assert(g.at(xm, ym) is Alive <==> (xm == ax && ym == ay));
    assert(g.at(x, ym) is Alive <==> (x == ax && ym == ay));
    assert(g.at(xp, ym) is Alive <==> (xp == ax && ym == ay));
    assert(g.at(xm, y) is Alive <==> (xm == ax && y == ay));
    assert(g.at(xp, y) is Alive <==> (xp == ax && y == ay));
    assert(g.at(xm, yp) is Alive <==> (xm == ax && yp == ay));
    assert(g.at(x, yp) is Alive <==> (x == ax && yp == ay));
    assert(g.at(xp, yp) is Alive <==> (xp == ax && yp == ay));
}

/// An isolated alive cell dies: one step of a grid of any size at least
/// 3 by 3 whose only alive cell is `(ax, ay)` yields an all-dead grid.
pub proof fn lemma_isolated_cell_dies(pre: Grid, post: Grid, ax: int, ay: int)
    requires
        pre.wf(),
        3 <= pre.width,
        3 <= pre.height,
        0 <= ax < pre.width,
        0 <= ay < pre.height,
        single_alive(pre, ax, ay),
        is_step(pre, post),
    ensures
        all_dead(post),
{
    lemma_step_pointwise(pre, post);
    assert forall|x: int, y: int|
        0 <= x < post.width && 0 <= y < post.height implies post.at(x, y) is Dead by {
        lemma_single_count(pre, ax, ay, x, y);
    }
}

/// The alive cells of `g` are exactly the 2 by 2 block whose top-left
/// corner is `(bx, by)`.
pub open spec fn block_only(g: Grid, bx: int, by: int) -> bool {
    forall|x: int, y: int|
        0 <= x < g.width && 0 <= y < g.height ==> (g.at(x, y) is Alive <==> (bx <= x <= bx + 1
            && by <= y <= by + 1))
}

/// Per-cell count for the still life: a block cell sees exactly 3 alive
/// neighbors and stays alive; every other cell sees at most 2 and stays
/// dead.
proof fn lemma_block_cell(g: Grid, bx: int, by: int, x: int, y: int)
    requires
        g.wf(),
        4 <= g.width,
        4 <= g.height,
        0 <= bx,
        bx + 1 < g.width,
        0 <= by,
        by + 1 < g.height,
        0 <= x < g.width,
        0 <= y < g.height,
        block_only(g, bx, by),
    ensures
        next_state_spec(g.at(x, y), g.neighbor_count(x, y)) == g.at(x, y),
{
    let w = g.width as int;
    let h = g.height as int;
    lemma_unit_wraps(x, w);
    lemma_unit_wraps(y, h);
    let xm = wrap_spec(x, -1, w);
    let xp = wrap_spec(x, 1, w);
    let ym = wrap_spec(y, -1, h);
    let yp = wrap_spec(y, 1, h);
    assert(g.at(x, y) is Alive <==> (bx <= x <= bx + 1 && by <= y <= by + 1));
    assert(g.at(xm, ym) is Alive <==> (bx <= xm <= bx + 1 && by <= ym <= by + 1));
    assert(g.at(x, ym) is Alive <==> (bx <= x <= bx + 1 && by <= ym <= by + 1));
    assert(g.at(xp, ym) is Alive <==> (bx <= xp <= bx + 1 && by <= ym <= by + 1));
    assert(g.at(xm, y) is Alive <==> (bx <= xm <= bx + 1 && by <= y <= by + 1));
    assert(g.at(xp, y) is Alive <==> (bx <= xp <= bx + 1 && by <= y <= by + 1));
    assert(g.at(xm, yp) is Alive <==> (bx <= xm <= bx + 1 && by <= yp <= by + 1));
    assert(g.at(x, yp) is Alive <==> (bx <= x <= bx + 1 && by <= yp <= by + 1));
    assert(g.at(xp, yp) is Alive <==> (bx <= xp <= bx + 1 && by <= yp <= by + 1));
}

/// Still life: one step of a grid of any size at least 4 by 4 whose alive
/// cells are exactly a 2 by 2 block leaves every cell unchanged.
pub proof fn lemma_block_is_still(pre: Grid, post: Grid, bx: int, by: int)
    requires
        pre.wf(),
        4 <= pre.width,
        4 <= pre.height,
        0 <= bx,
        bx + 1 < pre.width,
        0 <= by,
        by + 1 < pre.height,
        block_only(pre, bx, by),
        is_step(pre, post),
    ensures
        forall|x: int, y: int|
            0 <= x < post.width && 0 <= y < post.height ==> post.at(x, y) == pre.at(x, y),
{
    lemma_step_pointwise(pre, post);
    assert forall|x: int, y: int|
        0 <= x < post.width && 0 <= y < post.height implies post.at(x, y) == pre.at(x, y) by {
        lemma_block_cell(pre, bx, by, x, y);
    }
}

/// The alive cells of `g` are exactly the vertical blinker
/// `(1, 0), (1, 1), (1, 2)`.
pub open spec fn vertical_blinker(g: Grid) -> bool {
    forall|x: int, y: int|
        0 <= x < g.width && 0 <= y < g.height ==> (g.at(x, y) is Alive <==> (x == 1 && 0 <= y
            <= 2))
}

/// The alive cells of `g` are exactly the horizontal blinker
/// `(0, 1), (1, 1), (2, 1)`.
pub open spec fn horizontal_blinker(g: Grid) -> bool {
    forall|x: int, y: int|
        0 <= x < g.width && 0 <= y < g.height ==> (g.at(x, y) is Alive <==> (y == 1 && 0 <= x
            <= 2))
}

/// Per-cell transition for the blinker: after one step a cell is alive
/// exactly when it belongs to the horizontal triple through `(1, 1)`.
proof fn lemma_blinker_cell(g: Grid, x: int, y: int)
    requires
        g.wf(),
        3 <= g.width,
        4 <= g.height,
        0 <= x < g.width,
        0 <= y < g.height,
        vertical_blinker(g),
    ensures
        next_state_spec(g.at(x, y), g.neighbor_count(x, y)) is Alive <==> (y == 1 && 0 <= x
            <= 2),
{
    let w = g.width as int;
    let h = g.height as int;
    lemma_unit_wraps(x, w);
    lemma_unit_wraps(y, h);
    let xm = wrap_spec(x, -1, w);
    let xp = wrap_spec(x, 1, w);
    let ym = wrap_spec(y, -1, h);
    let yp = wrap_spec(y, 1, h);
    assert(g.at(x, y) is Alive <==> (x == 1 && 0 <= y <= 2));
    assert(g.at(xm, ym) is Alive <==> (xm == 1 && 0 <= ym <= 2));
    assert(g.at(x, ym) is Alive <==> (x == 1 && 0 <= ym <= 2));
    assert(g.at(xp, ym) is Alive <==> (xp == 1 && 0 <= ym <= 2));
    assert(g.at(xm, y) is Alive <==> (xm == 1 && 0 <= y <= 2));
    assert(g.at(xp, y) is Alive <==> (xp == 1 && 0 <= y <= 2));
    assert(g.at(xm, yp) is Alive <==> (xm == 1 && 0 <= yp <= 2));
    assert(g.at(x, yp) is Alive <==> (x == 1 && 0 <= yp <= 2));
    assert(g.at(xp, yp) is Alive <==> (xp == 1 && 0 <= yp <= 2));
}

/// Oscillator: one step of a grid at least 3 wide and at least 4 tall
/// holding exactly the vertical blinker yields exactly the horizontal
/// blinker. (On a grid exactly 3 tall the vertical triple spans a whole
/// wrapped column and behaves differently, so height 3 is excluded.)
pub proof fn lemma_blinker_oscillates(pre: Grid, post: Grid)
    requires
        pre.wf(),
        3 <= pre.width,
        4 <= pre.height,
        vertical_blinker(pre),
        is_step(pre, post),
    ensures
        horizontal_blinker(post),
{
    lemma_step_pointwise(pre, post);
    assert forall|x: int, y: int|
        0 <= x < post.width && 0 <= y < post.height implies (post.at(x, y) is Alive <==> (y == 1
        && 0 <= x <= 2)) by {
        lemma_blinker_cell(pre, x, y);
    }
}

}

