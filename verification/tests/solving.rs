use blackbox_solver::solve_as_much_as_you_can;
use blackbox_solver::solver::absorption_with_one_free_field;
use blackbox_solver::solver::letter_finds_four_empty_spaces;
use blackbox_solver::solver::reflection_is_not_blocked;
use blackbox_solver::Direction;
use blackbox_solver::GridKnowledge;
use blackbox_solver::I8Vec2;
use blackbox_solver::Observation;
use blackbox_solver::Observations;
use blackbox_solver::UncertainGrid;
use blackbox_solver::GRID_SIZE;

/// Asserts that exactly the cells in `empties` are `Empty` and every
/// other cell is `Unknown`.
fn assert_only_empties(grid: &UncertainGrid, empties: &[(i8, i8)]) {
    for x in 0..GRID_SIZE {
        for y in 0..GRID_SIZE {
            let expected = if empties.contains(&(x as i8, y as i8)) {
                GridKnowledge::Empty
            } else {
                GridKnowledge::Unknown
            };
            assert_eq!(
                grid.get(I8Vec2::new(x as i8, y as i8)),
                expected,
                "cell ({}, {})",
                x,
                y
            );
        }
    }
}

#[test]
fn letter_rule_marks_forward_cell_and_four_neighbours() {
    let mut obs = Observations::new();
    obs.record(Direction::Down, 3, Observation::Letter('a'));
    let mut grid = UncertainGrid::default();
    letter_finds_four_empty_spaces(&mut grid, &obs);
    // Forward cell of (Down, 3) is (3, 0); its neighbour (3, -1) falls
    // off-grid and is ignored.
    assert_only_empties(&grid, &[(3, 0), (3, 1), (2, 0), (4, 0)]);
}

#[test]
fn letter_rule_clips_the_cross_at_a_corner() {
    let mut obs = Observations::new();
    obs.record(Direction::Right, 0, Observation::Letter('b'));
    let mut grid = UncertainGrid::default();
    letter_finds_four_empty_spaces(&mut grid, &obs);
    // Forward cell of (Right, 0) is (0, 0); two of its neighbours fall
    // off-grid.
    assert_only_empties(&grid, &[(0, 0), (0, 1), (1, 0)]);
}

#[test]
fn reflection_rule_marks_only_the_forward_cell() {
    let mut obs = Observations::new();
    obs.record(Direction::Right, 5, Observation::Reflected);
    let mut grid = UncertainGrid::default();
    reflection_is_not_blocked(&mut grid, &obs);
    assert_only_empties(&grid, &[(0, 5)]);
}

#[test]
fn absorption_rule_needs_a_known_free_forward_cell() {
    let mut obs = Observations::new();
    obs.record(Direction::Down, 2, Observation::Absorbed);

    // The forward cell (2, 0) is still unknown: no lateral marks.
    let mut grid = UncertainGrid::default();
    absorption_with_one_free_field(&mut grid, &obs);
    assert_only_empties(&grid, &[]);

    // The same observation with the forward cell already known empty
    // marks exactly the two lateral neighbours.
    let mut grid = UncertainGrid::default();
    assert_eq!(grid.set_safe(I8Vec2::new(2, 0), GridKnowledge::Empty), Ok(()));
    absorption_with_one_free_field(&mut grid, &obs);
    assert_only_empties(&grid, &[(2, 0), (1, 0), (3, 0)]);
}

#[test]
fn solve_with_no_observations_learns_nothing() {
    let obs = Observations::new();
    let grid = solve_as_much_as_you_can(&obs);
    assert_only_empties(&grid, &[]);
}

#[test]
fn solve_composes_all_three_rules() {
    let mut obs = Observations::new();
    obs.record(Direction::Down, 3, Observation::Letter('a'));
    obs.record(Direction::Right, 5, Observation::Reflected);
    // The absorbed beam's forward cell (4, 0) is one the letter rule has
    // already marked empty, so its laterals (3, 0) and (5, 0) follow.
    obs.record(Direction::Down, 4, Observation::Absorbed);

    let grid = solve_as_much_as_you_can(&obs);
    assert_only_empties(
        &grid,
        &[(3, 0), (3, 1), (2, 0), (4, 0), (0, 5), (5, 0)],
    );
}

#[test]
fn absorption_chains_forward_within_one_pass() {
    let mut obs = Observations::new();
    obs.record(Direction::Down, 3, Observation::Letter('a'));
    // Visited in shift order: the first absorption frees (5, 0), which the
    // second one, visited later in the same pass, builds on.
    obs.record(Direction::Down, 4, Observation::Absorbed);
    obs.record(Direction::Down, 5, Observation::Absorbed);

    let grid = solve_as_much_as_you_can(&obs);
    assert_only_empties(
        &grid,
        &[(2, 0), (3, 0), (4, 0), (3, 1), (5, 0), (6, 0)],
    );
}

#[test]
fn absorption_does_not_chain_backwards_within_one_pass() {
    let mut obs = Observations::new();
    obs.record(Direction::Down, 3, Observation::Letter('a'));
    // (Down, 1) is visited before (Down, 2); when its turn comes its
    // forward cell (1, 0) is still unknown, so it deduces nothing, even
    // though the later absorption frees (1, 0). A single pass, not a
    // fixed point.
    obs.record(Direction::Down, 1, Observation::Absorbed);
    obs.record(Direction::Down, 2, Observation::Absorbed);

    let grid = solve_as_much_as_you_can(&obs);
    assert_only_empties(
        &grid,
        &[(2, 0), (3, 0), (4, 0), (3, 1), (1, 0)],
    );
}

#[test]
fn solve_ignores_an_absorption_without_free_forward_cell() {
    let mut obs = Observations::new();
    // An absorbed beam far from everything else deduces nothing.
    obs.record(Direction::Up, 6, Observation::Absorbed);
    obs.record(Direction::Right, 1, Observation::Reflected);
    let grid = solve_as_much_as_you_can(&obs);
    assert_only_empties(&grid, &[(0, 1)]);
}
