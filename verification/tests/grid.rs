use blackbox_solver::Direction;
use blackbox_solver::GridKnowledge;
use blackbox_solver::I8Vec2;
use blackbox_solver::LaserTip;
use blackbox_solver::Observation;
use blackbox_solver::Observations;
use blackbox_solver::SolverError;
use blackbox_solver::UncertainGrid;
use blackbox_solver::GRID_SIZE;

#[test]
fn default_grid_is_all_unknown() {
    let grid = UncertainGrid::default();
    for x in 0..GRID_SIZE {
        for y in 0..GRID_SIZE {
            assert_eq!(grid.get(I8Vec2::new(x as i8, y as i8)), GridKnowledge::Unknown);
        }
    }
}

#[test]
fn set_safe_stores_either_value_over_unknown() {
    let mut grid = UncertainGrid::default();
    assert_eq!(grid.set_safe(I8Vec2::new(1, 2), GridKnowledge::Atom), Ok(()));
    assert_eq!(grid.get(I8Vec2::new(1, 2)), GridKnowledge::Atom);
    assert_eq!(grid.set_safe(I8Vec2::new(3, 4), GridKnowledge::Empty), Ok(()));
    assert_eq!(grid.get(I8Vec2::new(3, 4)), GridKnowledge::Empty);
}

#[test]
fn set_safe_is_idempotent() {
    let mut grid = UncertainGrid::default();
    assert_eq!(grid.set_safe(I8Vec2::new(5, 6), GridKnowledge::Atom), Ok(()));
    assert_eq!(grid.set_safe(I8Vec2::new(5, 6), GridKnowledge::Atom), Ok(()));
    for x in 0..GRID_SIZE {
        for y in 0..GRID_SIZE {
            let expected = if (x, y) == (5, 6) {
                GridKnowledge::Atom
            } else {
                GridKnowledge::Unknown
            };
            assert_eq!(grid.get(I8Vec2::new(x as i8, y as i8)), expected);
        }
    }
}

#[test]
fn set_safe_out_of_grid_is_a_no_op() {
    let mut grid = UncertainGrid::default();
    let outside = [
        I8Vec2::new(-1, 0),
        I8Vec2::new(0, -1),
        I8Vec2::new(8, 3),
        I8Vec2::new(3, 8),
        I8Vec2::new(-100, 100),
    ];
    for v in outside {
        assert_eq!(grid.set_safe(v, GridKnowledge::Atom), Ok(()));
        assert_eq!(grid.set_safe(v, GridKnowledge::Empty), Ok(()));
    }
    for x in 0..GRID_SIZE {
        for y in 0..GRID_SIZE {
            assert_eq!(grid.get(I8Vec2::new(x as i8, y as i8)), GridKnowledge::Unknown);
        }
    }
}

#[test]
fn set_safe_detects_contradictions_both_ways() {
    let mut grid = UncertainGrid::default();
    assert_eq!(grid.set_safe(I8Vec2::new(2, 2), GridKnowledge::Atom), Ok(()));
    assert_eq!(
        grid.set_safe(I8Vec2::new(2, 2), GridKnowledge::Empty),
        Err(SolverError::ContradictoryEvidence)
    );
    // The failed write must not have altered the cell.
    assert_eq!(grid.get(I8Vec2::new(2, 2)), GridKnowledge::Atom);

    let mut grid = UncertainGrid::default();
    assert_eq!(grid.set_safe(I8Vec2::new(2, 2), GridKnowledge::Empty), Ok(()));
    assert_eq!(
        grid.set_safe(I8Vec2::new(2, 2), GridKnowledge::Atom),
        Err(SolverError::ContradictoryEvidence)
    );
    assert_eq!(grid.get(I8Vec2::new(2, 2)), GridKnowledge::Empty);
}

#[test]
fn in_grid_tests_both_bounds() {
    assert!(I8Vec2::new(0, 0).in_grid());
    assert!(I8Vec2::new(7, 7).in_grid());
    assert!(!I8Vec2::new(-1, 0).in_grid());
    assert!(!I8Vec2::new(0, -1).in_grid());
    assert!(!I8Vec2::new(8, 0).in_grid());
    assert!(!I8Vec2::new(0, 8).in_grid());
}

#[test]
fn plus_adds_componentwise() {
    let v = I8Vec2::new(3, -2).plus(I8Vec2::new(-1, 5));
    assert_eq!(v, I8Vec2::new(2, 3));
}

#[test]
fn rotations_cycle_through_all_directions() {
    assert_eq!(Direction::Up.clockwise(), Direction::Right);
    assert_eq!(Direction::Right.clockwise(), Direction::Down);
    assert_eq!(Direction::Down.clockwise(), Direction::Left);
    assert_eq!(Direction::Left.clockwise(), Direction::Up);
    assert_eq!(Direction::Up.counter_clockwise(), Direction::Left);
    assert_eq!(Direction::Left.counter_clockwise(), Direction::Down);
    assert_eq!(Direction::Down.counter_clockwise(), Direction::Right);
    assert_eq!(Direction::Right.counter_clockwise(), Direction::Up);
}

#[test]
fn forward_position_is_first_interior_cell() {
    let down = LaserTip::new(3, Direction::Down).forward().position();
    assert_eq!(down, I8Vec2::new(3, 0));
    let up = LaserTip::new(3, Direction::Up).forward().position();
    assert_eq!(up, I8Vec2::new(3, 7));
    let right = LaserTip::new(5, Direction::Right).forward().position();
    assert_eq!(right, I8Vec2::new(0, 5));
    let left = LaserTip::new(5, Direction::Left).forward().position();
    assert_eq!(left, I8Vec2::new(7, 5));
}

#[test]
fn observations_record_and_read_back() {
    let mut obs = Observations::new();
    for d in [Direction::Up, Direction::Down, Direction::Left, Direction::Right] {
        for s in 0..GRID_SIZE {
            assert_eq!(obs.outcome(d, s as u8), Observation::NotObserved);
        }
    }
    obs.record(Direction::Down, 3, Observation::Letter('a'));
    obs.record(Direction::Right, 5, Observation::Reflected);
    assert_eq!(obs.outcome(Direction::Down, 3), Observation::Letter('a'));
    assert_eq!(obs.outcome(Direction::Right, 5), Observation::Reflected);
    // Every other position is untouched.
    for d in [Direction::Up, Direction::Down, Direction::Left, Direction::Right] {
        for s in 0..GRID_SIZE {
            if (d, s) != (Direction::Down, 3) && (d, s) != (Direction::Right, 5) {
                assert_eq!(obs.outcome(d, s as u8), Observation::NotObserved);
            }
        }
    }
    assert!(Observation::Letter('q').is_letter());
    assert!(!Observation::Reflected.is_letter());
    assert!(!Observation::Absorbed.is_letter());
    assert!(!Observation::NotObserved.is_letter());
}
