//! The knowledge grid: tri-state per-cell knowledge with safe,
//! consistency-checked writes.

use vstd::prelude::*;

use crate::geometry::in_grid_spec;
use crate::geometry::I8Vec2;
use crate::geometry::GRID_SIZE;

verus! {

/// What is known about one grid cell.
#[derive(Clone, Copy, Debug, PartialEq, Eq, Structural)]
pub enum GridKnowledge {
    /// No evidence about this cell yet.
    Unknown,
    /// The cell provably contains an atom.
    Atom,
    /// The cell provably contains no atom.
    Empty,
}

impl Default for GridKnowledge {
    fn default() -> (r: GridKnowledge)
        ensures
            r == GridKnowledge::Unknown,
    {
        GridKnowledge::Unknown
    }
}

/// A fatal fault of the solve: invariants of the evidence were broken.
/// It is not a recoverable runtime condition but a sign of malformed
/// observation input or a rule-set bug.
#[derive(Clone, Copy, Debug, PartialEq, Eq, Structural)]
pub enum SolverError {
    /// Two pieces of evidence disagree about the same cell.
    ContradictoryEvidence,
}

/// A `GRID_SIZE x GRID_SIZE` grid of per-cell knowledge, stored row-major
/// by `x`.
pub struct UncertainGrid {
    atoms: [GridKnowledge; 64],
}

impl UncertainGrid {
    /// The knowledge recorded for cell `(x, y)`.
    pub closed spec fn cell(self, x: int, y: int) -> GridKnowledge {
        self.atoms@[x * (GRID_SIZE as int) + y]
    }

    /// Returns the current knowledge for an in-grid coordinate.
    pub fn get(&self, v: I8Vec2) -> (r: GridKnowledge)
        requires
            v.in_grid_spec(),
        ensures
            r == self.cell(v.x as int, v.y as int),
    {
        let idx: usize = (v.x as usize) * GRID_SIZE + (v.y as usize);
        self.atoms[idx]
    }

    /// Conditionally updates one cell (see `set_safe_post`):
    /// an out-of-grid coordinate is silently ignored, a cell may move away
    /// from `Unknown` once, and a write that disagrees with existing
    /// knowledge reports contradictory evidence and changes nothing.
    pub fn set_safe(&mut self, v: I8Vec2, knowledge: GridKnowledge) -> (r: Result<
        (),
        SolverError,
    >)
        requires
            knowledge != GridKnowledge::Unknown,
        ensures
            set_safe_post(*old(self), *final(self), v, knowledge, r),
    {
        if v.in_grid() {
            let idx: usize = (v.x as usize) * GRID_SIZE + (v.y as usize);
            let previous_knowledge = self.atoms[idx];
            if previous_knowledge != GridKnowledge::Unknown && previous_knowledge != knowledge {
                return Err(SolverError::ContradictoryEvidence);
            }
            self.atoms[idx] = knowledge;
            proof {
                lemma_flat_index_injective();
            }
            Ok(())
        } else {
            Ok(())
        }
    }
}

impl Default for UncertainGrid {
    /// A fresh grid reports `Unknown` for every in-grid coordinate.
    fn default() -> (r: UncertainGrid)
        ensures
            forall|x: int, y: int|
                in_grid_spec(x, y) ==> r.cell(x, y) == GridKnowledge::Unknown,
    {
        UncertainGrid { atoms: [GridKnowledge::Unknown; 64] }
    }
}

/// True when `g1` holds the same knowledge as `g0` at every in-grid cell.
pub open spec fn unchanged_grid(g0: UncertainGrid, g1: UncertainGrid) -> bool {
    forall|x: int, y: int| in_grid_spec(x, y) ==> g1.cell(x, y) == g0.cell(x, y)
}

/// True when `g1` holds `k` at `(x, y)` and agrees with `g0` at every
/// other in-grid cell.
pub open spec fn updated_cell(
    g0: UncertainGrid,
    g1: UncertainGrid,
    x: int,
    y: int,
    k: GridKnowledge,
) -> bool {
    &&& g1.cell(x, y) == k
    &&& forall|a: int, b: int|
        in_grid_spec(a, b) && !(a == x && b == y) ==> g1.cell(a, b) == g0.cell(a, b)
}

/// The full behaviour of `UncertainGrid::set_safe`, relating the grid
/// before (`g0`) and after (`g1`) a call with coordinate `v`, value `k`
/// and result `r`.
pub open spec fn set_safe_post(
    g0: UncertainGrid,
    g1: UncertainGrid,
    v: I8Vec2,
    k: GridKnowledge,
    r: Result<(), SolverError>,
) -> bool {
    let x = v.x as int;
    let y = v.y as int;
    if !in_grid_spec(x, y) {
        r == Ok::<(), SolverError>(()) && unchanged_grid(g0, g1)
    } else if g0.cell(x, y) == GridKnowledge::Unknown || g0.cell(x, y) == k {
        r == Ok::<(), SolverError>(()) && updated_cell(g0, g1, x, y, k)
    } else {
        r == Err::<(), SolverError>(SolverError::ContradictoryEvidence) && unchanged_grid(g0, g1)
    }
}

/// Distinct in-grid coordinates map to distinct indices of the flat
/// backing array.
proof fn lemma_flat_index_injective()
    ensures
        forall|a: int, b: int, x: int, y: int|
            in_grid_spec(a, b) && in_grid_spec(x, y) && a * (GRID_SIZE as int) + b == x * (
            GRID_SIZE as int) + y ==> a == x && b == y,
{
}

/// Applying the same `(coordinate, knowledge)` update twice gives the same
/// result both times and leaves the grid unchanged after the first
/// application.
pub proof fn lemma_set_safe_idempotent(
    g0: UncertainGrid,
    g1: UncertainGrid,
    g2: UncertainGrid,
    v: I8Vec2,
    k: GridKnowledge,
    r1: Result<(), SolverError>,
    r2: Result<(), SolverError>,
)
    requires
        k != GridKnowledge::Unknown,
        set_safe_post(g0, g1, v, k, r1),
        set_safe_post(g1, g2, v, k, r2),
    ensures
        unchanged_grid(g1, g2),
        r2 == r1,
{
}

} // verus!
