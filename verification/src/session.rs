//! The interactive session: the grid, the scheduler, the pause flag, the
//! clipboard and the in-progress selection anchor, advanced by one input
//! event or one frame of elapsed time at a time. The caller (an input and
//! rendering layer) delivers discrete events together with the current
//! cursor cell, which may lie outside the grid and is range-checked here.

use vstd::prelude::*;
use crate::clipboard::{capture_spec, paste_upto, Pattern};
use crate::grid::Grid;
use crate::scheduler::{iter_cells, Scheduler};

verus! {

/// A discrete one-shot input event, as delivered by the input layer.
#[derive(Clone, Copy, PartialEq, Eq, Structural, Debug)]
pub enum Event {
    /// Toggle the pause flag.
    TogglePause,
    /// Double the simulation rate.
    IncreaseRate,
    /// Halve the simulation rate.
    DecreaseRate,
    /// Flip the cell under the cursor between dead and alive.
    ToggleCell,
    /// Begin a region selection at the cursor.
    RegionStart,
    /// Finish the region selection at the cursor and capture it.
    RegionEnd,
    /// Paste the captured pattern anchored at the cursor.
    PasteAtCursor,
}

/// Two grids hold the same state.
pub open spec fn same_grid(a: Grid, b: Grid) -> bool {
    a.width == b.width && a.height == b.height && a.cells@ == b.cells@
}

/// Two patterns hold the same state.
pub open spec fn same_pattern(a: Pattern, b: Pattern) -> bool {
    a.width == b.width && a.height == b.height && a.cells@ == b.cells@
}

/// The whole mutable state of one running simulation session.
pub struct Session {
    /// The authoritative simulation grid.
    pub grid: Grid,
    /// The fixed-timestep scheduler.
    pub scheduler: Scheduler,
    /// While paused, frames accumulate no time and trigger no steps;
    /// editing (toggling, selecting, pasting) is only possible while paused.
    pub paused: bool,
    /// The last captured pattern; empty before any capture.
    pub clipboard: Pattern,
    /// The fixed corner of an in-progress region selection, if any.
    pub anchor: Option<(usize, usize)>,
}

impl Session {
    /// Well-formed: the grid is big enough to step, the scheduler's period
    /// is positive, the clipboard is rectangular, and any selection anchor
    /// lies on the grid.
    pub open spec fn wf(self) -> bool {
        &&& self.grid.wf()
        &&& 2 <= self.grid.width
        &&& 2 <= self.grid.height
        &&& self.scheduler.wf()
        &&& self.clipboard.wf()
        &&& match self.anchor {
            Some(p) => p.0 < self.grid.width && p.1 < self.grid.height,
            None => true,
        }
    }

    /// Whether the cursor points at a grid cell.
    pub open spec fn cursor_in_range(self, cx: int, cy: int) -> bool {
        0 <= cx < self.grid.width && 0 <= cy < self.grid.height
    }

    /// The session state machine: how one event takes the state `pre` to
    /// the state `post`, given the cursor cell `(cx, cy)`.
    ///
    /// The pause flag and the rate respond to their events at any time.
    /// Editing events act only while paused and only with the cursor on the
    /// grid; otherwise they leave everything unchanged. Ending a selection
    /// sorts the two corners, captures the rectangle and clears the anchor;
    /// pasting is valid only with no selection in progress and leaves the
    /// selection state alone.
    pub open spec fn transition(pre: Session, post: Session, event: Event, cx: int, cy: int) -> bool {
        match event {
            Event::TogglePause => {
                &&& post.paused == !pre.paused
                &&& same_grid(post.grid, pre.grid)
                &&& post.scheduler == pre.scheduler
                &&& same_pattern(post.clipboard, pre.clipboard)
                &&& post.anchor == pre.anchor
            },
            Event::IncreaseRate => {
                &&& post.scheduler.period == if pre.scheduler.period >= 2 {
                    pre.scheduler.period / 2
                } else {
                    1u64
                }
                &&& post.scheduler.accumulator == pre.scheduler.accumulator
                &&& same_grid(post.grid, pre.grid)
                &&& post.paused == pre.paused
                &&& same_pattern(post.clipboard, pre.clipboard)
                &&& post.anchor == pre.anchor
            },
            Event::DecreaseRate => {
                &&& post.scheduler.period == if pre.scheduler.period <= u64::MAX / 2 {
                    2 * (pre.scheduler.period as int)
                } else {
                    pre.scheduler.period as int
                }
                &&& post.scheduler.accumulator == pre.scheduler.accumulator
                &&& same_grid(post.grid, pre.grid)
                &&& post.paused == pre.paused
                &&& same_pattern(post.clipboard, pre.clipboard)
                &&& post.anchor == pre.anchor
            },
            Event::ToggleCell => {
                &&& if pre.paused && pre.cursor_in_range(cx, cy) {
                    &&& post.grid.width == pre.grid.width
                    &&& post.grid.height == pre.grid.height
                    &&& (post.grid.at(cx, cy) is Alive <==> pre.grid.at(cx, cy) is Dead)
                    &&& forall|a: int, b: int|
                        0 <= a < pre.grid.width && 0 <= b < pre.grid.height && !(a == cx && b
                            == cy) ==> post.grid.at(a, b) == pre.grid.at(a, b)
                } else {
                    same_grid(post.grid, pre.grid)
                }
                &&& post.paused == pre.paused
                &&& post.scheduler == pre.scheduler
                &&& same_pattern(post.clipboard, pre.clipboard)
                &&& post.anchor == pre.anchor
            },
            Event::RegionStart => {
                &&& post.anchor == if pre.paused && pre.cursor_in_range(cx, cy) {
                    Some((cx as usize, cy as usize))
                } else {
                    pre.anchor
                }
                &&& same_grid(post.grid, pre.grid)
                &&& post.paused == pre.paused
                &&& post.scheduler == pre.scheduler
                &&& same_pattern(post.clipboard, pre.clipboard)
            },
            Event::RegionEnd => {
                &&& if pre.paused && pre.cursor_in_range(cx, cy) && pre.anchor is Some {
                    let a = pre.anchor->0;
                    let sx = if a.0 <= cx { a.0 as int } else { cx };
                    let sy = if a.1 <= cy { a.1 as int } else { cy };
                    let ex = if a.0 <= cx { cx } else { a.0 as int };
                    let ey = if a.1 <= cy { cy } else { a.1 as int };
                    &&& post.anchor is None
                    &&& post.clipboard.width == ex - sx + 1
                    &&& post.clipboard.height == ey - sy + 1
                    &&& post.clipboard.cells@ == capture_spec(
                        pre.grid.cells@,
                        pre.grid.width as int,
                        sx,
                        sy,
                        ex - sx + 1,
                        ey - sy + 1,
                    )
                } else {
                    &&& post.anchor == pre.anchor
                    &&& same_pattern(post.clipboard, pre.clipboard)
                }
                &&& same_grid(post.grid, pre.grid)
                &&& post.paused == pre.paused
                &&& post.scheduler == pre.scheduler
            },
            Event::PasteAtCursor => {
                &&& if pre.paused && pre.cursor_in_range(cx, cy) && pre.anchor is None {
                    &&& post.grid.width == pre.grid.width
                    &&& post.grid.height == pre.grid.height
                    &&& post.grid.cells@ == paste_upto(
                        pre.grid.cells@,
                        pre.grid.width as int,
                        pre.grid.height as int,
                        cx,
                        cy,
                        pre.clipboard.width as int,
                        pre.clipboard.cells@,
                        (pre.clipboard.width as int * pre.clipboard.height as int) as nat,
                    )
                } else {
                    same_grid(post.grid, pre.grid)
                }
                &&& post.paused == pre.paused
                &&& post.scheduler == pre.scheduler
                &&& same_pattern(post.clipboard, pre.clipboard)
                &&& post.anchor == pre.anchor
            },
        }
    }

    /// A paused session over an all-dead grid of the given dimensions, at
    /// the default rate, with an empty clipboard and no selection.
    pub fn new(width: usize, height: usize) -> (s: Session)
        requires
            2 <= width,
            2 <= height,
            (width as int) * (height as int) <= usize::MAX as int,
        ensures
            s.wf(),
            s.grid.width == width,
            s.grid.height == height,
            forall|x: int, y: int|
                0 <= x < width && 0 <= y < height ==> s.grid.at(x, y) is Dead,
            s.paused,
            s.scheduler.accumulator == 0,
            s.clipboard.is_empty(),
            s.anchor is None,
    {
        Session {
            grid: Grid::new(width, height),
            scheduler: Scheduler::new(),
            paused: true,
            clipboard: Pattern::empty(),
            anchor: None,
        }
    }

    /// The cursor's grid cell, if the cursor lies on the grid.
    fn cursor_cell(&self, cursor_x: i64, cursor_y: i64) -> (r: Option<(usize, usize)>)
        ensures
            r is Some <==> self.cursor_in_range(cursor_x as int, cursor_y as int),
            r is Some ==> (r->0).0 == cursor_x as int && (r->0).1 == cursor_y as int,
    {
        if cursor_x >= 0 && cursor_y >= 0 {
            let cx = cursor_x as u64;
            let cy = cursor_y as u64;
            if cx < self.grid.width as u64 && cy < self.grid.height as u64 {
                return Some((cx as usize, cy as usize));
            }
        }
        None
    }

    /// Apply one input event, given the current cursor cell, which may lie
    /// outside the grid. The state changes exactly as the session state
    /// machine [`Session::transition`] prescribes.
    pub fn handle_event(&mut self, event: Event, cursor_x: i64, cursor_y: i64)
        requires
            old(self).wf(),
        ensures
            final(self).wf(),
            Session::transition(
                *old(self),
                *final(self),
                event,
                cursor_x as int,
                cursor_y as int,
            ),
    {
        match event {
            Event::TogglePause => {
                self.paused = !self.paused;
            },
            Event::IncreaseRate => {
                self.scheduler.increase_rate();
            },
            Event::DecreaseRate => {
                self.scheduler.decrease_rate();
            },
            Event::ToggleCell => {
                if self.paused {
                    if let Some((cx, cy)) = self.cursor_cell(cursor_x, cursor_y) {
                        self.grid.toggle(cx, cy);
                    }
                }
            },
            Event::RegionStart => {
                if self.paused {
                    if let Some(cell) = self.cursor_cell(cursor_x, cursor_y) {
                        self.anchor = Some(cell);
                    }
                }
            },
            Event::RegionEnd => {
                if self.paused {
                    if let Some((cx, cy)) = self.cursor_cell(cursor_x, cursor_y) {
                        if let Some((ax, ay)) = self.anchor {
                            let sx = if ax <= cx { ax } else { cx };
                            let ex = if ax <= cx { cx } else { ax };
                            let sy = if ay <= cy { ay } else { cy };
                            let ey = if ay <= cy { cy } else { ay };
                            self.clipboard = self.grid.capture(sx, sy, ex, ey);
                            self.anchor = None;
                        }
                    }
                }
            },
            Event::PasteAtCursor => {
                if self.paused {
                    if let Some((cx, cy)) = self.cursor_cell(cursor_x, cursor_y) {
                        if self.anchor.is_none() {
                            self.grid.paste(cx, cy, &self.clipboard);
                        }
                    }
                }
            },
        }
    }

    /// Run one frame: while not paused, add the frame's elapsed time and
    /// run the catch-up loop, returning how many simulation steps ran.
    /// While paused, nothing advances and nothing accumulates, but the
    /// grid, clipboard and selection stay as they are.
    pub fn frame(&mut self, elapsed_micros: u64) -> (steps: u64)
        requires
            old(self).wf(),
            old(self).scheduler.accumulator + elapsed_micros <= u64::MAX,
        ensures
            final(self).wf(),
            final(self).paused == old(self).paused,
            same_pattern(final(self).clipboard, old(self).clipboard),
            final(self).anchor == old(self).anchor,
            final(self).grid.width == old(self).grid.width,
            final(self).grid.height == old(self).grid.height,
            final(self).scheduler.period == old(self).scheduler.period,
            old(self).paused ==> steps == 0 && same_grid(final(self).grid, old(self).grid)
                && final(self).scheduler == old(self).scheduler,
            !old(self).paused ==> {
                &&& steps == old(self).scheduler.steps_for(elapsed_micros as int)
                &&& final(self).scheduler.accumulator == old(self).scheduler.accumulator_after(
                    elapsed_micros as int,
                )
                &&& final(self).grid.cells@ == iter_cells(
                    old(self).grid.cells@,
                    old(self).grid.width as int,
                    old(self).grid.height as int,
                    steps as nat,
                )
            },
    {
        if self.paused {
            0
        } else {
            self.scheduler.advance(elapsed_micros, &mut self.grid)
        }
    }
}

}
