//! The tick scheduler: a fixed-timestep catch-up loop that keeps the
//! simulation rate independent of the caller's frame rate. Time is measured
//! in whole microseconds of elapsed wall time.

use vstd::prelude::*;
use vstd::arithmetic::div_mod::{
    lemma_fundamental_div_mod, lemma_fundamental_div_mod_converse, lemma_mod_bound,
};
use crate::grid::{next_cells, Grid};
use crate::state::State;

verus! {

/// Microseconds in one second.
pub const MICROS_PER_SECOND: u64 = 1_000_000;

/// The default tick period: five simulation steps per second.
pub const DEFAULT_PERIOD_MICROS: u64 = 200_000;

/// The cell buffer after `n` generations.
pub open spec fn iter_cells(cells: Seq<State>, w: int, h: int, n: nat) -> Seq<State>
    decreases n,
{
    if n == 0 {
        cells
    } else {
        next_cells(iter_cells(cells, w, h, (n - 1) as nat), w, h)
    }
}

/// Generations compose: stepping `a` times and then `b` more times is the
/// same as stepping `a + b` times.
pub proof fn lemma_iter_cells_add(cells: Seq<State>, w: int, h: int, a: nat, b: nat)
    ensures
        iter_cells(iter_cells(cells, w, h, a), w, h, b) == iter_cells(cells, w, h, (a + b) as nat),
    decreases b,
{
    if b > 0 {
        lemma_iter_cells_add(cells, w, h, a, (b - 1) as nat);
    }
}

/// The fixed-timestep scheduler: an accumulator of elapsed microseconds not
/// yet consumed by a simulation step, and the period of one step.
pub struct Scheduler {
    /// Elapsed microseconds not yet consumed by a simulation step.
    pub accumulator: u64,
    /// Microseconds per simulation step. Always at least 1, so the
    /// simulation rate can never reach zero and the catch-up loop always
    /// terminates.
    pub period: u64,
}

impl Scheduler {
    /// Well-formed: the period is positive.
    pub open spec fn wf(self) -> bool {
        1 <= self.period
    }

    /// How many simulation steps a frame of `elapsed` microseconds triggers.
    pub open spec fn steps_for(self, elapsed: int) -> int {
        (self.accumulator + elapsed) / (self.period as int)
    }

    /// The accumulator left over after a frame of `elapsed` microseconds.
    pub open spec fn accumulator_after(self, elapsed: int) -> int {
        (self.accumulator + elapsed) % (self.period as int)
    }

    /// A scheduler at the default rate with nothing accumulated.
    pub fn new() -> (s: Scheduler)
        ensures
            s.wf(),
            s.period == DEFAULT_PERIOD_MICROS,
            s.accumulator == 0,
    {
        Scheduler { accumulator: 0, period: DEFAULT_PERIOD_MICROS }
    }

    /// A scheduler with the given tick period and nothing accumulated.
    pub fn with_period(period_micros: u64) -> (s: Scheduler)
        requires
            1 <= period_micros,
        ensures
            s.wf(),
            s.period == period_micros,
            s.accumulator == 0,
    {
        Scheduler { accumulator: 0, period: period_micros }
    }

    /// Double the simulation rate by halving the period, clamped so the
    /// period never drops below one microsecond.
    pub fn increase_rate(&mut self)
        requires
            old(self).wf(),
        ensures
            final(self).wf(),
            final(self).accumulator == old(self).accumulator,
            final(self).period == if old(self).period >= 2 {
                old(self).period / 2
            } else {
                1u64
            },
    {
        if self.period >= 2 {
            self.period = self.period / 2;
        }
    }

    /// Halve the simulation rate by doubling the period, clamped at the
    /// largest representable period so the doubling cannot overflow.
    pub fn decrease_rate(&mut self)
        requires
            old(self).wf(),
        ensures
            final(self).wf(),
            final(self).accumulator == old(self).accumulator,
            final(self).period == if old(self).period <= u64::MAX / 2 {
                2 * (old(self).period as int)
            } else {
                old(self).period as int
            },
    {
        if self.period <= u64::MAX / 2 {
            self.period = 2 * self.period;
        }
    }

    /// Add one frame's elapsed time to the accumulator and run the catch-up
    /// loop: step the grid once for every whole period accumulated, leaving
    /// the remainder for the next frame. There is deliberately no cap on
    /// steps per frame, so a long frame catches up in full; the loop still
    /// terminates because the period is at least one microsecond.
    pub fn advance(&mut self, elapsed_micros: u64, grid: &mut Grid) -> (steps: u64)
        requires
            old(self).wf(),
            old(grid).wf(),
            2 <= old(grid).width,
            2 <= old(grid).height,
            old(self).accumulator + elapsed_micros <= u64::MAX,
        ensures
            final(self).wf(),
            final(self).period == old(self).period,
            steps == old(self).steps_for(elapsed_micros as int),
            final(self).accumulator == old(self).accumulator_after(elapsed_micros as int),
            final(grid).wf(),
            final(grid).width == old(grid).width,
            final(grid).height == old(grid).height,
            final(grid).cells@ == iter_cells(
                old(grid).cells@,
                old(grid).width as int,
                old(grid).height as int,
                steps as nat,
            ),
    {
        self.accumulator = self.accumulator + elapsed_micros;
        let ghost total = self.accumulator as int;
        let ghost p = self.period as int;
        let mut steps: u64 = 0;
        while self.accumulator >= self.period
            invariant
                self.wf(),
                self.period == old(self).period,
                p == self.period as int,
                grid.wf(),
                grid.width == old(grid).width,
                grid.height == old(grid).height,
                2 <= grid.width,
                2 <= grid.height,
                total == old(self).accumulator + elapsed_micros,
                total <= u64::MAX,
                steps * p + self.accumulator == total,
                grid.cells@ == iter_cells(
                    old(grid).cells@,
                    grid.width as int,
                    grid.height as int,
                    steps as nat,
                ),
            decreases self.accumulator,
        {
            proof {
                assert(steps * p >= steps) by (nonlinear_arith)
                    requires
                        1 <= p,
                        0 <= steps,
                ;
                assert((steps + 1) * p == steps * p + p) by (nonlinear_arith);
            }
            grid.step();
            self.accumulator = self.accumulator - self.period;
            steps = steps + 1;
        }
        proof {
            lemma_fundamental_div_mod_converse(total, p, steps as int, self.accumulator as int);
        }
        steps
    }
}

/// Consuming elapsed time `e1` and then `e2` yields the same step count
/// and leftover as consuming `e1 + e2` at once.
proof fn lemma_split_total(acc: int, e1: int, e2: int, p: int)
    requires
        1 <= p,
        0 <= acc,
        0 <= e1,
        0 <= e2,
    ensures
        (acc + e1) / p + (((acc + e1) % p) + e2) / p == (acc + e1 + e2) / p,
        (((acc + e1) % p) + e2) % p == (acc + e1 + e2) % p,
{
    let t = acc + e1;
    lemma_fundamental_div_mod(t, p);
    lemma_mod_bound(t, p);
    let q2 = (t % p + e2) / p;
    let r2 = (t % p + e2) % p;
    lemma_fundamental_div_mod(t % p + e2, p);
    lemma_mod_bound(t % p + e2, p);
    assert(t + e2 == (t / p + q2) * p + r2) by (nonlinear_arith)
        requires
            t == p * (t / p) + t % p,
            t % p + e2 == p * q2 + r2,
    ;
    lemma_fundamental_div_mod_converse(t + e2, p, t / p + q2, r2);
}

/// Fragmentation invariance: a frame of `e1` followed by a frame of `e2`
/// triggers exactly as many steps in total as one undivided frame of
/// `e1 + e2`, and leaves the same accumulator. `s2` is the scheduler state
/// that [`Scheduler::advance`] leaves behind after the first frame.
pub proof fn lemma_fragmentation_invariant(s: Scheduler, s2: Scheduler, e1: int, e2: int)
    requires
        s.wf(),
        s2.wf(),
        0 <= e1,
        0 <= e2,
        s2.period == s.period,
        s2.accumulator == s.accumulator_after(e1),
    ensures
        s.steps_for(e1) + s2.steps_for(e2) == s.steps_for(e1 + e2),
        s2.accumulator_after(e2) == s.accumulator_after(e1 + e2),
{
    lemma_split_total(s.accumulator as int, e1, e2, s.period as int);
}

/// The elapsed time of a whole run, frame by frame.
pub open spec fn sum_frames(frames: Seq<int>) -> int
    decreases frames.len(),
{
    if frames.len() == 0 {
        0
    } else {
        frames[0] + sum_frames(frames.drop_first())
    }
}

/// The steps the catch-up loop triggers over a whole run of frames,
/// starting from accumulator `acc` with period `p`.
pub open spec fn steps_of_frames(acc: int, p: int, frames: Seq<int>) -> int
    decreases frames.len(),
{
    if frames.len() == 0 {
        0
    } else {
        (acc + frames[0]) / p + steps_of_frames((acc + frames[0]) % p, p, frames.drop_first())
    }
}

/// The accumulator left after a whole run of frames.
pub open spec fn accumulator_after_frames(acc: int, p: int, frames: Seq<int>) -> int
    decreases frames.len(),
{
    if frames.len() == 0 {
        acc
    } else {
        accumulator_after_frames((acc + frames[0]) % p, p, frames.drop_first())
    }
}

/// The sum of non-negative frame times is non-negative.
proof fn lemma_sum_frames_nonneg(frames: Seq<int>)
    requires
        forall|i: int| 0 <= i < frames.len() ==> frames[i] >= 0,
    ensures
        sum_frames(frames) >= 0,
    decreases frames.len(),
{
    if frames.len() > 0 {
        lemma_sum_frames_nonneg(frames.drop_first());
    }
}

/// However the elapsed time is fragmented across frames, the total number
/// of steps and the final accumulator depend only on the total: a run of
/// frames summing to `t` triggers exactly `(acc + t) / p` steps and leaves
/// `(acc + t) % p` accumulated.
pub proof fn lemma_frames_by_total(acc: int, p: int, frames: Seq<int>)
    requires
        1 <= p,
        0 <= acc < p,
        forall|i: int| 0 <= i < frames.len() ==> frames[i] >= 0,
    ensures
        steps_of_frames(acc, p, frames) == (acc + sum_frames(frames)) / p,
        accumulator_after_frames(acc, p, frames) == (acc + sum_frames(frames)) % p,
    decreases frames.len(),
{
    if frames.len() == 0 {
        lemma_fundamental_div_mod_converse(acc, p, 0, acc);
    } else {
        let e0 = frames[0];
        let rest = frames.drop_first();
        let acc1 = (acc + e0) % p;
        lemma_mod_bound(acc + e0, p);
        assert(forall|i: int| 0 <= i < rest.len() ==> rest[i] >= 0);
        lemma_frames_by_total(acc1, p, rest);
        lemma_sum_frames_nonneg(rest);
        lemma_split_total(acc, e0, sum_frames(rest), p);
    }
}

/// A fresh scheduler fed a whole number of periods triggers exactly that
/// many steps and leaves nothing accumulated. In particular, `n` seconds at
/// a rate of `r` steps per second, with the period dividing one second
/// evenly, triggers exactly `n * r` steps.
pub proof fn lemma_exact_multiple(s: Scheduler, n: int)
    requires
        s.wf(),
        s.accumulator == 0,
        0 <= n,
    ensures
        s.steps_for(n * s.period) == n,
        s.accumulator_after(n * s.period) == 0,
{
    lemma_fundamental_div_mod_converse(n * (s.period as int), s.period as int, n, 0);
}

}
