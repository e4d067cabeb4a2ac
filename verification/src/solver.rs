//! The inference engine: three deduction rules applied in sequence over
//! the observation set, writing into the knowledge grid.
//!
//! The rules only ever conclude that a cell is `Empty`; starting from a
//! fresh grid no contradiction can arise, so `solve_as_much_as_you_can`
//! returns a grid whose contents are pinned down exactly as a function of
//! the observations alone.

use vstd::prelude::*;

use crate::geometry::direction_of_index;
use crate::geometry::direction_of_index_spec;
use crate::geometry::forward_cell;
use crate::geometry::in_grid_spec;
use crate::geometry::Direction;
use crate::geometry::I8Vec2;
use crate::geometry::LaserTip;
use crate::geometry::GRID_SIZE;
use crate::knowledge::set_safe_post;
use crate::knowledge::GridKnowledge;
use crate::knowledge::SolverError;
use crate::knowledge::UncertainGrid;
use crate::observation::Observation;
use crate::observation::Observations;

verus! {

/// The knowledge grid as a finite map from in-grid coordinates to cell
/// knowledge.
pub open spec fn grid_map(g: UncertainGrid) -> Map<(int, int), GridKnowledge> {
    Map::new(|p: (int, int)| in_grid_spec(p.0, p.1), |p: (int, int)| g.cell(p.0, p.1))
}

/// True when no in-grid cell is recorded as `Atom`. The rules only ever
/// record `Empty`, so they preserve this and never meet a contradiction.
pub open spec fn atom_free(g: UncertainGrid) -> bool {
    forall|x: int, y: int| in_grid_spec(x, y) ==> g.cell(x, y) != GridKnowledge::Atom
}

/// Marks cell `p` as `Empty` if it lies inside the grid; an out-of-grid
/// cell is left alone, mirroring `set_safe` on a derived coordinate.
pub open spec fn mark_empty(
    m: Map<(int, int), GridKnowledge>,
    p: (int, int),
) -> Map<(int, int), GridKnowledge> {
    if in_grid_spec(p.0, p.1) {
        m.insert(p, GridKnowledge::Empty)
    } else {
        m
    }
}

/// True when `(x, y)` is `c` or one of its four orthogonal neighbours.
pub open spec fn cross_cells(c: (int, int), x: int, y: int) -> bool {
    ||| (x, y) == c
    ||| (x, y) == (c.0, c.1 + 1)
    ||| (x, y) == (c.0, c.1 - 1)
    ||| (x, y) == (c.0 + 1, c.1)
    ||| (x, y) == (c.0 - 1, c.1)
}

/// True when some letter-pass observation obliges the letter rule to mark
/// `(x, y)` as `Empty`: the cell lies on the cross around the forward cell
/// of that observation.
pub open spec fn letter_target(o: Observations, x: int, y: int) -> bool {
    exists|d: Direction, s: int|
        0 <= s < GRID_SIZE as int && (#[trigger] o.outcome_spec(d, s)) is Letter && cross_cells(
            forward_cell(d, s),
            x,
            y,
        )
}

/// Like `letter_target`, but only over the observations the rule's pass
/// has already visited: those whose step index lies below `n`.
spec fn letter_target_upto(o: Observations, x: int, y: int, n: int) -> bool {
    exists|d: Direction, s: int|
        0 <= s < GRID_SIZE as int && d.index_spec() * (GRID_SIZE as int) + s < n && (
        #[trigger] o.outcome_spec(d, s)) is Letter && cross_cells(forward_cell(d, s), x, y)
}

/// Every step index of the pass lies below `4 * GRID_SIZE`, so the bounded
/// and the unbounded target predicates agree there.
proof fn lemma_letter_target_full(o: Observations, x: int, y: int)
    ensures
        letter_target_upto(o, x, y, 4 * GRID_SIZE as int) == letter_target(o, x, y),
{
    if letter_target(o, x, y) {
        let (d, s) = choose|d: Direction, s: int|
            0 <= s < GRID_SIZE as int && (#[trigger] o.outcome_spec(d, s)) is Letter
                && cross_cells(forward_cell(d, s), x, y);
        assert(d.index_spec() * (GRID_SIZE as int) + s < 4 * GRID_SIZE as int);
        assert(letter_target_upto(o, x, y, 4 * GRID_SIZE as int));
    }
    if letter_target_upto(o, x, y, 4 * GRID_SIZE as int) {
        assert(letter_target(o, x, y));
    }
}

/// Rule 1, the letter rule: a letter-tagged pass-through proves the beam
/// crossed its first interior cell undeflected, so that cell and its four
/// orthogonal neighbours are `Empty`.
///
/// The result is exact: a cell becomes `Empty` precisely when some
/// letter-pass observation targets it; every other cell keeps its old
/// knowledge.
pub fn letter_finds_four_empty_spaces(grid: &mut UncertainGrid, observations: &Observations)
    requires
        atom_free(*old(grid)),
    ensures
        forall|x: int, y: int|
            in_grid_spec(x, y) ==> final(grid).cell(x, y) == (if letter_target(
                *observations,
                x,
                y,
            ) {
                GridKnowledge::Empty
            } else {
                old(grid).cell(x, y)
            }),
        atom_free(*final(grid)),
{
    let mut di: usize = 0;
    while di < 4
        invariant
            di <= 4,
            atom_free(*grid),
            forall|x: int, y: int|
                in_grid_spec(x, y) ==> grid.cell(x, y) == (if letter_target_upto(
                    *observations,
                    x,
                    y,
                    di as int * GRID_SIZE as int,
                ) {
                    GridKnowledge::Empty
                } else {
                    old(grid).cell(x, y)
                }),
        decreases 4 - di,
    {
        let d = direction_of_index(di);
        let mut s: usize = 0;
        while s < GRID_SIZE
            invariant
                di < 4,
                s <= GRID_SIZE,
                d == direction_of_index_spec(di as int),
                d.index_spec() == di as int,
                atom_free(*grid),
                forall|x: int, y: int|
                    in_grid_spec(x, y) ==> grid.cell(x, y) == (if letter_target_upto(
                        *observations,
                        x,
                        y,
                        di as int * GRID_SIZE as int + s as int,
                    ) {
                        GridKnowledge::Empty
                    } else {
                        old(grid).cell(x, y)
                    }),
            decreases GRID_SIZE - s,
        {
            let ghost n: int = di as int * GRID_SIZE as int + s as int;
            let obs = observations.outcome(d, s as u8);
            if obs.is_letter() {
                let l = LaserTip::new(s as u8, d);
                let center = l.forward().position();
                proof {
                    assert((center.x as int, center.y as int) == forward_cell(d, s as int));
                    assert(in_grid_spec(center.x as int, center.y as int));
                }
                let _ = grid.set_safe(center, GridKnowledge::Empty);
                let _ = grid.set_safe(center.plus(I8Vec2::new(0, 1)), GridKnowledge::Empty);
                let _ = grid.set_safe(center.plus(I8Vec2::new(0, -1)), GridKnowledge::Empty);
                let _ = grid.set_safe(center.plus(I8Vec2::new(1, 0)), GridKnowledge::Empty);
                let _ = grid.set_safe(center.plus(I8Vec2::new(-1, 0)), GridKnowledge::Empty);
            }
            proof {
                lemma_letter_step(*observations, d, s as int, n);
            }
            s += 1;
        }
        di += 1;
    }
    proof {
        assert forall|x: int, y: int| in_grid_spec(x, y) implies grid.cell(x, y) == (
        if letter_target(*observations, x, y) {
            GridKnowledge::Empty
        } else {
            old(grid).cell(x, y)
        }) by {
            lemma_letter_target_full(*observations, x, y);
        }
    }
}

/// True when some `Reflected` observation obliges the reflection rule to
/// mark `(x, y)` as `Empty`: the cell is that observation's forward cell.
pub open spec fn reflection_target(o: Observations, x: int, y: int) -> bool {
    exists|d: Direction, s: int|
        0 <= s < GRID_SIZE as int && (#[trigger] o.outcome_spec(d, s)) == Observation::Reflected
            && forward_cell(d, s) == (x, y)
}

/// Like `reflection_target`, but only over the observations whose step
/// index lies below `n`.
spec fn reflection_target_upto(o: Observations, x: int, y: int, n: int) -> bool {
    exists|d: Direction, s: int|
        0 <= s < GRID_SIZE as int && d.index_spec() * (GRID_SIZE as int) + s < n && (
        #[trigger] o.outcome_spec(d, s)) == Observation::Reflected && forward_cell(d, s) == (x, y)
}

proof fn lemma_reflection_target_full(o: Observations, x: int, y: int)
    ensures
        reflection_target_upto(o, x, y, 4 * GRID_SIZE as int) == reflection_target(o, x, y),
{
    if reflection_target(o, x, y) {
        let (d, s) = choose|d: Direction, s: int|
            0 <= s < GRID_SIZE as int && (#[trigger] o.outcome_spec(d, s))
                == Observation::Reflected && forward_cell(d, s) == (x, y);
        assert(d.index_spec() * (GRID_SIZE as int) + s < 4 * GRID_SIZE as int);
        assert(reflection_target_upto(o, x, y, 4 * GRID_SIZE as int));
    }
    if reflection_target_upto(o, x, y, 4 * GRID_SIZE as int) {
        assert(reflection_target(o, x, y));
    }
}

/// Rule 2, the reflection rule: a reflection is produced by an atom beside
/// — not in — the first interior cell, so that cell itself is `Empty`.
///
/// The result is exact: a cell becomes `Empty` precisely when it is the
/// forward cell of some `Reflected` observation; every other cell keeps
/// its old knowledge.
pub fn reflection_is_not_blocked(grid: &mut UncertainGrid, observations: &Observations)
    requires
        atom_free(*old(grid)),
    ensures
        forall|x: int, y: int|
            in_grid_spec(x, y) ==> final(grid).cell(x, y) == (if reflection_target(
                *observations,
                x,
                y,
            ) {
                GridKnowledge::Empty
            } else {
                old(grid).cell(x, y)
            }),
        atom_free(*final(grid)),
{
    let mut di: usize = 0;
    while di < 4
        invariant
            di <= 4,
            atom_free(*grid),
            forall|x: int, y: int|
                in_grid_spec(x, y) ==> grid.cell(x, y) == (if reflection_target_upto(
                    *observations,
                    x,
                    y,
                    di as int * GRID_SIZE as int,
                ) {
                    GridKnowledge::Empty
                } else {
                    old(grid).cell(x, y)
                }),
        decreases 4 - di,
    {
        let d = direction_of_index(di);
        let mut s: usize = 0;
        while s < GRID_SIZE
            invariant
                di < 4,
                s <= GRID_SIZE,
                d == direction_of_index_spec(di as int),
                d.index_spec() == di as int,
                atom_free(*grid),
                forall|x: int, y: int|
                    in_grid_spec(x, y) ==> grid.cell(x, y) == (if reflection_target_upto(
                        *observations,
                        x,
                        y,
                        di as int * GRID_SIZE as int + s as int,
                    ) {
                        GridKnowledge::Empty
                    } else {
                        old(grid).cell(x, y)
                    }),
            decreases GRID_SIZE - s,
        {
            let ghost n: int = di as int * GRID_SIZE as int + s as int;
            let obs = observations.outcome(d, s as u8);
            if obs == Observation::Reflected {
                let l = LaserTip::new(s as u8, d);
                let center = l.forward().position();
                proof {
                    assert((center.x as int, center.y as int) == forward_cell(d, s as int));
                    assert(in_grid_spec(center.x as int, center.y as int));
                }
                let _ = grid.set_safe(center, GridKnowledge::Empty);
            }
            proof {
                lemma_reflection_step(*observations, d, s as int, n);
            }
            s += 1;
        }
        di += 1;
    }
    proof {
        assert forall|x: int, y: int| in_grid_spec(x, y) implies grid.cell(x, y) == (
        if reflection_target(*observations, x, y) {
            GridKnowledge::Empty
        } else {
            old(grid).cell(x, y)
        }) by {
            lemma_reflection_target_full(*observations, x, y);
        }
    }
}

/// Visiting step `n` of the reflection pass, which reads the observation
/// at `(d, s)`, extends the visited targets by that observation's forward
/// cell when it is `Reflected`, and by nothing otherwise.
proof fn lemma_reflection_step(o: Observations, d: Direction, s: int, n: int)
    requires
        0 <= s < GRID_SIZE as int,
        d.index_spec() * (GRID_SIZE as int) + s == n,
    ensures
        forall|x: int, y: int|
            reflection_target_upto(o, x, y, n + 1) == (reflection_target_upto(o, x, y, n) || (
            o.outcome_spec(d, s) == Observation::Reflected && forward_cell(d, s) == (x, y))),
{
    assert forall|x: int, y: int|
        reflection_target_upto(o, x, y, n + 1) == (reflection_target_upto(o, x, y, n) || (
        o.outcome_spec(d, s) == Observation::Reflected && forward_cell(d, s) == (x, y))) by {
        if reflection_target_upto(o, x, y, n + 1) {
            let (d2, s2) = choose|d2: Direction, s2: int|
                0 <= s2 < GRID_SIZE as int && d2.index_spec() * (GRID_SIZE as int) + s2 < n + 1
                    && (#[trigger] o.outcome_spec(d2, s2)) == Observation::Reflected
                    && forward_cell(d2, s2) == (x, y);
            if d2.index_spec() * (GRID_SIZE as int) + s2 == n {
                assert(d2 == d && s2 == s);
            } else {
                assert(reflection_target_upto(o, x, y, n));
            }
        }
        if reflection_target_upto(o, x, y, n) {
            assert(reflection_target_upto(o, x, y, n + 1));
        }
        if o.outcome_spec(d, s) == Observation::Reflected && forward_cell(d, s) == (x, y) {
            assert(reflection_target_upto(o, x, y, n + 1));
        }
    }
}

/// The cell one step clockwise-lateral of the forward cell of the
/// observation at `(d, s)`.
pub open spec fn lateral_cw(d: Direction, s: int) -> (int, int) {
    let c = forward_cell(d, s);
    let o = d.clockwise_spec().dxy_spec();
    (c.0 + o.0, c.1 + o.1)
}

/// The cell one step counter-clockwise-lateral of the forward cell of the
/// observation at `(d, s)`.
pub open spec fn lateral_ccw(d: Direction, s: int) -> (int, int) {
    let c = forward_cell(d, s);
    let o = d.counter_clockwise_spec().dxy_spec();
    (c.0 + o.0, c.1 + o.1)
}

/// One step of the absorption pass, visiting the observation at `(d, s)`:
/// when it is `Absorbed` and its forward cell is already known `Empty`,
/// both lateral neighbours of the forward cell become `Empty`; otherwise
/// nothing changes.
pub open spec fn absorb_step(
    m: Map<(int, int), GridKnowledge>,
    o: Observations,
    d: Direction,
    s: int,
) -> Map<(int, int), GridKnowledge> {
    if o.outcome_spec(d, s) == Observation::Absorbed && m[forward_cell(d, s)]
        == GridKnowledge::Empty {
        mark_empty(mark_empty(m, lateral_cw(d, s)), lateral_ccw(d, s))
    } else {
        m
    }
}

/// The first `n` steps of the absorption pass, visiting the observations
/// in the pass's fixed order: directions by their index, and within one
/// direction the shifts in increasing order.
pub open spec fn absorb_upto(
    m: Map<(int, int), GridKnowledge>,
    o: Observations,
    n: int,
) -> Map<(int, int), GridKnowledge>
    decreases n,
{
    if n <= 0 {
        m
    } else {
        absorb_step(
            absorb_upto(m, o, n - 1),
            o,
            direction_of_index_spec((n - 1) / (GRID_SIZE as int)),
            (n - 1) % (GRID_SIZE as int),
        )
    }
}

/// One full absorption pass over every observation, in the fixed order.
/// The pass is order-sensitive on purpose: a later observation sees the
/// `Empty` cells an earlier one of the same pass has just established.
pub open spec fn absorb_pass(
    m: Map<(int, int), GridKnowledge>,
    o: Observations,
) -> Map<(int, int), GridKnowledge> {
    absorb_upto(m, o, 4 * GRID_SIZE as int)
}

/// A successful `Empty` write through `set_safe` acts on the grid's map
/// exactly as `mark_empty`, and an atom-free grid stays atom-free.
proof fn lemma_set_safe_marks_empty(
    g0: UncertainGrid,
    g1: UncertainGrid,
    v: I8Vec2,
    r: Result<(), SolverError>,
)
    requires
        atom_free(g0),
        set_safe_post(g0, g1, v, GridKnowledge::Empty, r),
    ensures
        grid_map(g1) == mark_empty(grid_map(g0), (v.x as int, v.y as int)),
        atom_free(g1),
{
    assert(grid_map(g1) =~= mark_empty(grid_map(g0), (v.x as int, v.y as int)));
}

/// Rule 3, the absorption rule: when an absorbed beam's first interior
/// cell is already known `Empty`, the beam was absorbed one cell further
/// in, so the two cells lateral to its path are `Empty`.
///
/// The result is exactly one forward pass of `absorb_step` over the whole
/// observation set: it runs after the other two rules so it benefits from
/// the `Empty` cells they — or earlier steps of the same pass — recorded.
pub fn absorption_with_one_free_field(grid: &mut UncertainGrid, observations: &Observations)
    requires
        atom_free(*old(grid)),
    ensures
        grid_map(*final(grid)) == absorb_pass(grid_map(*old(grid)), *observations),
        atom_free(*final(grid)),
{
    let ghost m0 = grid_map(*old(grid));
    let mut di: usize = 0;
    while di < 4
        invariant
            di <= 4,
            atom_free(*grid),
            grid_map(*grid) == absorb_upto(m0, *observations, di as int * GRID_SIZE as int),
        decreases 4 - di,
    {
        let d = direction_of_index(di);
        let mut s: usize = 0;
        while s < GRID_SIZE
            invariant
                di < 4,
                s <= GRID_SIZE,
                d == direction_of_index_spec(di as int),
                d.index_spec() == di as int,
                atom_free(*grid),
                grid_map(*grid) == absorb_upto(
                    m0,
                    *observations,
                    di as int * GRID_SIZE as int + s as int,
                ),
            decreases GRID_SIZE - s,
        {
            let ghost n: int = di as int * GRID_SIZE as int + s as int;
            proof {
                assert(n / (GRID_SIZE as int) == di as int && n % (GRID_SIZE as int)
                    == s as int) by (nonlinear_arith)
                    requires
                        n == di as int * (GRID_SIZE as int) + s as int,
                        0 <= s < GRID_SIZE as int,
                        0 <= di,
                ;
            }
            let obs = observations.outcome(d, s as u8);
            if obs == Observation::Absorbed {
                let l = LaserTip::new(s as u8, d);
                let center = l.forward().position();
                proof {
                    assert((center.x as int, center.y as int) == forward_cell(d, s as int));
                    assert(in_grid_spec(center.x as int, center.y as int));
                }
                if grid.get(center) == GridKnowledge::Empty {
                    let ghost g_before = *grid;
                    let lat_cw = center.plus(d.clockwise().dxy());
                    let r1 = grid.set_safe(lat_cw, GridKnowledge::Empty);
                    proof {
                        lemma_set_safe_marks_empty(g_before, *grid, lat_cw, r1);
                        assert((lat_cw.x as int, lat_cw.y as int) == lateral_cw(d, s as int));
                    }
                    let ghost g_mid = *grid;
                    let lat_ccw = center.plus(d.counter_clockwise().dxy());
                    let r2 = grid.set_safe(lat_ccw, GridKnowledge::Empty);
                    proof {
                        lemma_set_safe_marks_empty(g_mid, *grid, lat_ccw, r2);
                        assert((lat_ccw.x as int, lat_ccw.y as int) == lateral_ccw(d, s as int));
                    }
                }
            }
            proof {
                assert(grid_map(*grid) == absorb_upto(m0, *observations, n + 1));
            }
            s += 1;
        }
        di += 1;
    }
}

/// The knowledge the first two rules together derive for cell `(x, y)`
/// starting from a fresh grid: `Empty` when the letter or the reflection
/// rule targets the cell, `Unknown` otherwise.
pub open spec fn base_deduction(o: Observations, x: int, y: int) -> GridKnowledge {
    if letter_target(o, x, y) || reflection_target(o, x, y) {
        GridKnowledge::Empty
    } else {
        GridKnowledge::Unknown
    }
}

/// The grid map the first two rules produce from a fresh grid.
pub open spec fn base_map(o: Observations) -> Map<(int, int), GridKnowledge> {
    Map::new(|p: (int, int)| in_grid_spec(p.0, p.1), |p: (int, int)| base_deduction(o, p.0, p.1))
}

/// The exact result of a whole solve: the letter and reflection rules
/// lay down their targets on a fresh grid, then one absorption pass runs
/// over that.
pub open spec fn solve_spec(o: Observations) -> Map<(int, int), GridKnowledge> {
    absorb_pass(base_map(o), o)
}

/// The inference entry point: derives everything the three rules can
/// prove from the observations, with certainty only, and returns the
/// possibly partial knowledge grid.
///
/// The rules run in a fixed order — letter, reflection, absorption — and
/// the absorption pass must come last so it benefits from the `Empty`
/// cells the first two rules recorded.
pub fn solve_as_much_as_you_can(observations: &Observations) -> (r: UncertainGrid)
    ensures
        grid_map(r) == solve_spec(*observations),
        atom_free(r),
{
    let mut grid = UncertainGrid::default();

    letter_finds_four_empty_spaces(&mut grid, observations);
    reflection_is_not_blocked(&mut grid, observations);
    proof {
        assert(grid_map(grid) =~= base_map(*observations));
    }

    // Benefits from the "free field" information established above.
    absorption_with_one_free_field(&mut grid, observations);

    grid
}

/// An absorption pass over an observation set without any `Absorbed`
/// observation changes nothing, step by step.
proof fn lemma_absorb_upto_none(m: Map<(int, int), GridKnowledge>, o: Observations, b: int)
    requires
        0 <= b <= 4 * GRID_SIZE as int,
        forall|d: Direction, s: int|
            0 <= s < GRID_SIZE as int ==> #[trigger] o.outcome_spec(d, s)
                != Observation::Absorbed,
    ensures
        absorb_upto(m, o, b) == m,
    decreases b,
{
    if b > 0 {
        lemma_absorb_upto_none(m, o, b - 1);
        let ks = (b - 1) % (GRID_SIZE as int);
        assert(0 <= ks < GRID_SIZE as int);
    }
}

/// Steps of the absorption pass that do not visit the one `Absorbed`
/// observation at `(d0, s0)` change nothing: the pass from `a` to `b` is
/// the identity when `(d0, s0)`'s step index lies outside `[a, b)`.
proof fn lemma_absorb_upto_skip(
    m: Map<(int, int), GridKnowledge>,
    o: Observations,
    d0: Direction,
    s0: int,
    a: int,
    b: int,
)
    requires
        0 <= a <= b <= 4 * GRID_SIZE as int,
        0 <= s0 < GRID_SIZE as int,
        forall|d: Direction, s: int|
            0 <= s < GRID_SIZE as int && !(d == d0 && s == s0) ==> #[trigger] o.outcome_spec(d, s)
                != Observation::Absorbed,
        !(a <= d0.index_spec() * (GRID_SIZE as int) + s0 < b),
    ensures
        absorb_upto(m, o, b) == absorb_upto(m, o, a),
    decreases b - a,
{
    if b > a {
        lemma_absorb_upto_skip(m, o, d0, s0, a, b - 1);
        let k = b - 1;
        let kd = direction_of_index_spec(k / (GRID_SIZE as int));
        let ks = k % (GRID_SIZE as int);
        assert(0 <= ks < GRID_SIZE as int);
        assert(0 <= k / (GRID_SIZE as int) < 4);
        assert(kd.index_spec() == k / (GRID_SIZE as int));
        assert(kd.index_spec() * (GRID_SIZE as int) + ks == k);
        assert(!(kd == d0 && ks == s0));
        assert(o.outcome_spec(kd, ks) != Observation::Absorbed);
    }
}

/// A solve over an observation set holding exactly one letter-pass, at
/// `(d0, s0)`, marks that observation's forward cell and its four
/// orthogonal neighbours `Empty` and leaves every other cell `Unknown`.
pub proof fn lemma_single_letter_solve(o: Observations, d0: Direction, s0: int)
    requires
        0 <= s0 < GRID_SIZE as int,
        o.outcome_spec(d0, s0) is Letter,
        forall|d: Direction, s: int|
            0 <= s < GRID_SIZE as int && !(d == d0 && s == s0) ==> #[trigger] o.outcome_spec(d, s)
                == Observation::NotObserved,
    ensures
        forall|x: int, y: int|
            in_grid_spec(x, y) ==> solve_spec(o)[(x, y)] == (if cross_cells(
                forward_cell(d0, s0),
                x,
                y,
            ) {
                GridKnowledge::Empty
            } else {
                GridKnowledge::Unknown
            }),
{
    lemma_absorb_upto_none(base_map(o), o, 4 * GRID_SIZE as int);
    assert forall|x: int, y: int| in_grid_spec(x, y) implies solve_spec(o)[(x, y)] == (
    if cross_cells(forward_cell(d0, s0), x, y) {
        GridKnowledge::Empty
    } else {
        GridKnowledge::Unknown
    }) by {
        if letter_target(o, x, y) {
            let (d, s) = choose|d: Direction, s: int|
                0 <= s < GRID_SIZE as int && (#[trigger] o.outcome_spec(d, s)) is Letter
                    && cross_cells(forward_cell(d, s), x, y);
            assert(d == d0 && s == s0);
        }
        if reflection_target(o, x, y) {
            let (d, s) = choose|d: Direction, s: int|
                0 <= s < GRID_SIZE as int && (#[trigger] o.outcome_spec(d, s))
                    == Observation::Reflected && forward_cell(d, s) == (x, y);
            assert(false);
        }
        if cross_cells(forward_cell(d0, s0), x, y) {
            assert(letter_target(o, x, y));
        }
    }
}

/// A solve over an observation set holding exactly one `Reflected`
/// observation, at `(d0, s0)`, marks only that observation's forward cell
/// `Empty` and leaves every other cell `Unknown`.
pub proof fn lemma_single_reflection_solve(o: Observations, d0: Direction, s0: int)
    requires
        0 <= s0 < GRID_SIZE as int,
        o.outcome_spec(d0, s0) == Observation::Reflected,
        forall|d: Direction, s: int|
            0 <= s < GRID_SIZE as int && !(d == d0 && s == s0) ==> #[trigger] o.outcome_spec(d, s)
                == Observation::NotObserved,
    ensures
        forall|x: int, y: int|
            in_grid_spec(x, y) ==> solve_spec(o)[(x, y)] == (if forward_cell(d0, s0) == (x, y) {
                GridKnowledge::Empty
            } else {
                GridKnowledge::Unknown
            }),
{
    lemma_absorb_upto_none(base_map(o), o, 4 * GRID_SIZE as int);
    assert forall|x: int, y: int| in_grid_spec(x, y) implies solve_spec(o)[(x, y)] == (
    if forward_cell(d0, s0) == (x, y) {
        GridKnowledge::Empty
    } else {
        GridKnowledge::Unknown
    }) by {
        if letter_target(o, x, y) {
            let (d, s) = choose|d: Direction, s: int|
                0 <= s < GRID_SIZE as int && (#[trigger] o.outcome_spec(d, s)) is Letter
                    && cross_cells(forward_cell(d, s), x, y);
            assert(false);
        }
        if reflection_target(o, x, y) {
            let (d, s) = choose|d: Direction, s: int|
                0 <= s < GRID_SIZE as int && (#[trigger] o.outcome_spec(d, s))
                    == Observation::Reflected && forward_cell(d, s) == (x, y);
            assert(d == d0 && s == s0);
        }
        if forward_cell(d0, s0) == (x, y) {
            assert(reflection_target(o, x, y));
        }
    }
}

/// The absorption dependency: a pass over an observation set holding
/// exactly one `Absorbed` observation, at `(d0, s0)`, changes nothing
/// when that observation's forward cell is not yet known `Empty`, and
/// marks exactly the two lateral neighbours of the forward cell `Empty`
/// when it is.
pub proof fn lemma_single_absorption_pass(
    m: Map<(int, int), GridKnowledge>,
    o: Observations,
    d0: Direction,
    s0: int,
)
    requires
        0 <= s0 < GRID_SIZE as int,
        o.outcome_spec(d0, s0) == Observation::Absorbed,
        forall|d: Direction, s: int|
            0 <= s < GRID_SIZE as int && !(d == d0 && s == s0) ==> #[trigger] o.outcome_spec(d, s)
                != Observation::Absorbed,
    ensures
        m[forward_cell(d0, s0)] != GridKnowledge::Empty ==> absorb_pass(m, o) == m,
        m[forward_cell(d0, s0)] == GridKnowledge::Empty ==> absorb_pass(m, o) == mark_empty(
            mark_empty(m, lateral_cw(d0, s0)),
            lateral_ccw(d0, s0),
        ),
{
    let n0 = d0.index_spec() * (GRID_SIZE as int) + s0;
    assert(0 <= d0.index_spec() < 4);
    assert(0 <= n0 < 4 * GRID_SIZE as int);
    lemma_absorb_upto_skip(m, o, d0, s0, 0, n0);
    assert(n0 / (GRID_SIZE as int) == d0.index_spec() && n0 % (GRID_SIZE as int)
        == s0) by (nonlinear_arith)
        requires
            n0 == d0.index_spec() * (GRID_SIZE as int) + s0,
            0 <= s0 < GRID_SIZE as int,
            0 <= d0.index_spec(),
    ;
    assert(direction_of_index_spec(n0 / (GRID_SIZE as int)) == d0);
    assert(absorb_upto(m, o, n0 + 1) == absorb_step(m, o, d0, s0));
    lemma_absorb_upto_skip(m, o, d0, s0, n0 + 1, 4 * GRID_SIZE as int);
    assert(absorb_pass(m, o) == absorb_step(m, o, d0, s0));
}

/// Visiting step `n` of the letter pass, which reads the observation at
/// `(d, s)`, extends the visited targets by the cross around that
/// observation's forward cell when it is a letter-pass, and by nothing
/// otherwise.
proof fn lemma_letter_step(o: Observations, d: Direction, s: int, n: int)
    requires
        0 <= s < GRID_SIZE as int,
        d.index_spec() * (GRID_SIZE as int) + s == n,
    ensures
        forall|x: int, y: int|
            letter_target_upto(o, x, y, n + 1) == (letter_target_upto(o, x, y, n) || (
            o.outcome_spec(d, s) is Letter && cross_cells(forward_cell(d, s), x, y))),
{
    assert forall|x: int, y: int|
        letter_target_upto(o, x, y, n + 1) == (letter_target_upto(o, x, y, n) || (o.outcome_spec(
            d,
            s,
        ) is Letter && cross_cells(forward_cell(d, s), x, y))) by {
        if letter_target_upto(o, x, y, n + 1) {
            let (d2, s2) = choose|d2: Direction, s2: int|
                0 <= s2 < GRID_SIZE as int && d2.index_spec() * (GRID_SIZE as int) + s2 < n + 1
                    && (#[trigger] o.outcome_spec(d2, s2)) is Letter && cross_cells(
                    forward_cell(d2, s2),
                    x,
                    y,
                );
            if d2.index_spec() * (GRID_SIZE as int) + s2 == n {
                assert(d2 == d && s2 == s);
            } else {
                assert(letter_target_upto(o, x, y, n));
            }
        }
        if letter_target_upto(o, x, y, n) {
            assert(letter_target_upto(o, x, y, n + 1));
        }
        if o.outcome_spec(d, s) is Letter && cross_cells(forward_cell(d, s), x, y) {
            assert(letter_target_upto(o, x, y, n + 1));
        }
    }
}

} // verus!
