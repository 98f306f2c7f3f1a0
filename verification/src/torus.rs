//! Toroidal index arithmetic: wrapping a signed offset around a fixed
//! axis length, always normalizing into `[0, width)`.

use vstd::prelude::*;
use vstd::arithmetic::div_mod::{
    lemma_add_mod_noop, lemma_mod_multiples_vanish, lemma_small_mod,
};

verus! {

/// Mathematical toroidal wrap: `(v + o) mod w`, normalized into `[0, w)`
/// whenever `w > 0` (Euclidean remainder, never negative).
pub open spec fn wrap_spec(v: int, o: int, w: int) -> int {
    (v + o) % w
}

/// Wrap a signed offset `offset` around an axis of length `width`, starting
/// from a base index `value` already in `[0, width)`. The offset magnitude
/// must be below `width`; larger offsets are a contract violation of this
/// restricted form (pasting uses [`wrap_index`], which has no such bound).
pub fn wrapping_bound(value: usize, offset: isize, width: usize) -> (r: usize)
    requires
        0 < width,
        value < width,
        -(width as int) < (offset as int),
        (offset as int) < (width as int),
    ensures
        r == wrap_spec(value as int, offset as int, width as int),
        r < width,
{
    proof {
        lemma_wrapping_cases(value as int, offset as int, width as int);
    }
    if offset >= 0 {
        let o: usize = offset as usize;
        if value >= width - o {
            value - (width - o)
        } else {
            value + o
        }
    } else {
        // Magnitude of the offset, computed without risking negation overflow.
        let m: usize = ((-(offset + 1)) as usize) + 1;
        if value >= m {
            value - m
        } else {
            value + (width - m)
        }
    }
}

/// Case analysis behind [`wrapping_bound`]: for offsets of magnitude below
/// the axis length, the wrap is a single conditional add or subtract.
proof fn lemma_wrapping_cases(v: int, o: int, w: int)
    requires
        0 < w,
        0 <= v < w,
        -w < o < w,
    ensures
        0 <= v + o < w ==> wrap_spec(v, o, w) == v + o,
        v + o >= w ==> wrap_spec(v, o, w) == v + o - w,
        v + o < 0 ==> wrap_spec(v, o, w) == v + o + w,
{
    if 0 <= v + o < w {
        lemma_small_mod((v + o) as nat, w as nat);
    } else if v + o >= w {
        lemma_mod_multiples_vanish(1, v + o - w, w);
        lemma_small_mod((v + o - w) as nat, w as nat);
    } else {
        lemma_mod_multiples_vanish(1, v + o, w);
        lemma_small_mod((v + o + w) as nat, w as nat);
    }
}

/// Unrestricted toroidal wrap for non-negative offsets of any size, as used
/// by pasting: the offset may exceed the axis length arbitrarily, wrapping
/// around the torus as many times as needed.
pub fn wrap_index(value: usize, offset: usize, width: usize) -> (r: usize)
    requires
        0 < width,
        value < width,
    ensures
        r == wrap_spec(value as int, offset as int, width as int),
        r < width,
{
    let o: usize = offset % width;
    proof {
        lemma_small_mod(value as nat, width as nat);
        lemma_add_mod_noop(value as int, offset as int, width as int);
        lemma_wrapping_cases(value as int, o as int, width as int);
    }
    if value >= width - o {
        value - (width - o)
    } else {
        value + o
    }
}

/// A zero offset wraps to the base index itself.
pub proof fn lemma_wrap_zero_offset(v: int, w: int)
    requires
        0 < w,
        0 <= v < w,
    ensures
        wrap_spec(v, 0, w) == v,
{
    lemma_small_mod(v as nat, w as nat);
}

/// Offsets one short of a full turn and minus one wrap to the same index.
pub proof fn lemma_wrap_full_turn(v: int, w: int)
    requires
        0 < w,
        0 <= v < w,
    ensures
        wrap_spec(v, w - 1, w) == wrap_spec(v, -1, w),
{
    lemma_mod_multiples_vanish(1, v - 1, w);
}

/// Stepping one index backward on the torus, written without `mod`.
pub open spec fn dec_wrap(v: int, w: int) -> int {
    if v == 0 {
        w - 1
    } else {
        v - 1
    }
}

/// Stepping one index forward on the torus, written without `mod`.
pub open spec fn inc_wrap(v: int, w: int) -> int {
    if v == w - 1 {
        0
    } else {
        v + 1
    }
}

/// The branch-form neighbors agree with the modular wrap at offsets -1 and 1.
pub proof fn lemma_unit_wraps(v: int, w: int)
    requires
        0 < w,
        0 <= v < w,
    ensures
        dec_wrap(v, w) == wrap_spec(v, -1, w),
        inc_wrap(v, w) == wrap_spec(v, 1, w),
        0 <= dec_wrap(v, w) < w,
        0 <= inc_wrap(v, w) < w,
{
    if w == 1 {
        lemma_wrapping_cases(v, 0, w);
        lemma_mod_multiples_vanish(1, v - 1, w);
        lemma_small_mod(0, w as nat);
    } else {
        lemma_wrapping_cases(v, -1, w);
        lemma_wrapping_cases(v, 1, w);
    }
}

}
