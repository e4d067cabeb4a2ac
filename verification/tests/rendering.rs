use blackbox_solver::draw;
use blackbox_solver::Direction;
use blackbox_solver::GridKnowledge;
use blackbox_solver::I8Vec2;
use blackbox_solver::Observation;
use blackbox_solver::Observations;
use blackbox_solver::UncertainGrid;

#[test]
fn draw_renders_borders_and_cells() {
    let mut grid = UncertainGrid::default();
    assert_eq!(grid.set_safe(I8Vec2::new(0, 0), GridKnowledge::Atom), Ok(()));
    assert_eq!(grid.set_safe(I8Vec2::new(1, 0), GridKnowledge::Empty), Ok(()));

    let mut obs = Observations::new();
    obs.record(Direction::Down, 0, Observation::Letter('a'));
    obs.record(Direction::Right, 1, Observation::Reflected);
    obs.record(Direction::Left, 2, Observation::Letter('b'));
    obs.record(Direction::Up, 6, Observation::Absorbed);

    let picture = draw(&grid, &obs);
    let expected = "   a              \n\
                    \x20  o . ? ? ? ? ? ?  \n\
                    \x20r ? ? ? ? ? ? ? ?  \n\
                    \x20  ? ? ? ? ? ? ? ? b\n\
                    \x20  ? ? ? ? ? ? ? ?  \n\
                    \x20  ? ? ? ? ? ? ? ?  \n\
                    \x20  ? ? ? ? ? ? ? ?  \n\
                    \x20  ? ? ? ? ? ? ? ?  \n\
                    \x20  ? ? ? ? ? ? ? ?  \n\
                    \x20              x  \n";
    assert_eq!(picture, expected);
}

#[test]
fn draw_of_an_empty_solve_is_all_unknown() {
    let grid = UncertainGrid::default();
    let obs = Observations::new();
    let picture = draw(&grid, &obs);
    // 10 lines: one top border, eight rows, one bottom border.
    assert_eq!(picture.lines().count(), 10);
    assert_eq!(picture.matches('?').count(), 64);
    assert!(!picture.contains('o'));
    assert!(!picture.contains('.'));
}
