//! Boundary laser observations: one classified outcome per border
//! position, addressed by inward direction and shift index.

use vstd::prelude::*;

use crate::geometry::Direction;
use crate::geometry::GRID_SIZE;

verus! {

/// The classified outcome of firing one laser.
#[derive(Clone, Copy, Debug, PartialEq, Eq, Structural)]
pub enum Observation {
    /// No laser was fired at this border position, or its outcome is not
    /// used by the solver's rules.
    NotObserved,
    /// The laser returned out of the border position it entered.
    Reflected,
    /// The laser terminated inside the grid without exiting.
    Absorbed,
    /// The laser exited at another border position; the character pairs
    /// the entry with its exit.
    Letter(char),
}

impl Observation {
    /// Whether this outcome is a letter-tagged pass-through.
    pub open spec fn is_letter_spec(self) -> bool {
        self is Letter
    }

    pub fn is_letter(self) -> (r: bool)
        ensures
            r == self.is_letter_spec(),
    {
        match self {
            Observation::Letter(_) => true,
            _ => false,
        }
    }
}

/// One recorded outcome per border position: four sides of `GRID_SIZE`
/// positions each, stored flat and addressed by direction index and shift.
pub struct Observations {
    sides: [Observation; 32],
}

impl Observations {
    /// The outcome recorded for the laser fired in direction `d` at shift
    /// index `s`.
    pub closed spec fn outcome_spec(self, d: Direction, s: int) -> Observation {
        self.sides@[d.index_spec() * (GRID_SIZE as int) + s]
    }

    /// An observation set with no outcome recorded anywhere.
    pub fn new() -> (r: Observations)
        ensures
            forall|d: Direction, s: int|
                0 <= s < GRID_SIZE as int ==> r.outcome_spec(d, s) == Observation::NotObserved,
    {
        Observations { sides: [Observation::NotObserved; 32] }
    }

    /// Reads the outcome at one border position.
    pub fn outcome(&self, d: Direction, shift: u8) -> (r: Observation)
        requires
            shift < GRID_SIZE,
        ensures
            r == self.outcome_spec(d, shift as int),
    {
        let idx: usize = d.index() * GRID_SIZE + (shift as usize);
        self.sides[idx]
    }

    /// Records the outcome at one border position, leaving every other
    /// position as it was.
    pub fn record(&mut self, d: Direction, shift: u8, o: Observation)
        requires
            shift < GRID_SIZE,
        ensures
            final(self).outcome_spec(d, shift as int) == o,
            forall|d2: Direction, s2: int|
                0 <= s2 < GRID_SIZE as int && !(d2 == d && s2 == shift as int)
                    ==> final(self).outcome_spec(d2, s2) == old(self).outcome_spec(d2, s2),
    {
        let idx: usize = d.index() * GRID_SIZE + (shift as usize);
        self.sides[idx] = o;
        proof {
            assert forall|d2: Direction, s2: int|
                0 <= s2 < GRID_SIZE as int && !(d2 == d && s2 == shift as int) implies self
                .outcome_spec(d2, s2) == old(self).outcome_spec(d2, s2) by {
                lemma_side_index_distinct(d2, s2, d, shift as int);
            }
        }
    }
}

/// Distinct border positions map to distinct indices of the flat backing
/// array.
proof fn lemma_side_index_distinct(d1: Direction, s1: int, d2: Direction, s2: int)
    requires
        0 <= s1 < GRID_SIZE as int,
        0 <= s2 < GRID_SIZE as int,
        !(d1 == d2 && s1 == s2),
    ensures
        d1.index_spec() * (GRID_SIZE as int) + s1 != d2.index_spec() * (GRID_SIZE as int) + s2,
{
}

} // verus!
