//! Cell state and the Conway transition rule.

use vstd::prelude::*;

verus! {

/// The two-valued state of one cell. An immutable value type, replaced
/// wholesale each generation.
#[derive(Clone, Copy, PartialEq, Eq, Structural, Debug)]
pub enum State {
    Dead,
    Alive,
}

/// The Conway transition rule: an `Alive` cell survives with 2 or 3 alive
/// neighbors, a `Dead` cell is born with exactly 3 alive neighbors, and
/// every other combination yields `Dead`. Total over all counts, so an
/// out-of-range count (above 8) simply falls to `Dead`.
pub open spec fn next_state_spec(s: State, n: nat) -> State {
    if (s is Alive && (n == 2 || n == 3)) || (s is Dead && n == 3) {
        State::Alive
    } else {
        State::Dead
    }
}

impl State {
    /// Apply the transition rule to a cell in state `self` with
    /// `neighbor_count` alive neighbors.
    pub fn get_next_state(&self, neighbor_count: usize) -> (r: Self)
        ensures
            r == next_state_spec(*self, neighbor_count as nat),
    {
        match (self, neighbor_count) {
            (Self::Alive, 2 | 3) => Self::Alive,
            (Self::Dead, 3) => Self::Alive,
            (_, _) => Self::Dead,
        }
    }
}

impl State {
    /// Whether this cell is `Alive`.
    pub fn is_alive(&self) -> (b: bool)
        ensures
            b == (*self is Alive),
    {
        match self {
            State::Alive => true,
            State::Dead => false,
        }
    }
}

/// The transition rule produces `Alive` in exactly the documented cases:
/// survival at 2 or 3 neighbors, birth at exactly 3, death otherwise.
pub proof fn lemma_transition_rule(s: State, n: nat)
    ensures
        next_state_spec(State::Alive, n) is Alive <==> (n == 2 || n == 3),
        next_state_spec(State::Dead, n) is Alive <==> n == 3,
        next_state_spec(s, n) is Alive || next_state_spec(s, n) is Dead,
{
}

}
