//! Rendering: a human-readable dump of a knowledge grid framed by its
//! border observations. Pure presentation with no inference content.

use vstd::prelude::*;

use crate::geometry::Direction;
use crate::geometry::I8Vec2;
use crate::geometry::GRID_SIZE;
use crate::knowledge::GridKnowledge;
use crate::knowledge::UncertainGrid;
use crate::observation::Observation;
use crate::observation::Observations;

verus! {

/// The symbol drawn for one cell's knowledge.
pub open spec fn knowledge_char(k: GridKnowledge) -> char {
    match k {
        GridKnowledge::Unknown => '?',
        GridKnowledge::Atom => 'o',
        GridKnowledge::Empty => '.',
    }
}

fn knowledge_symbol(k: GridKnowledge) -> (r: char)
    ensures
        r == knowledge_char(k),
{
    match k {
        GridKnowledge::Unknown => '?',
        GridKnowledge::Atom => 'o',
        GridKnowledge::Empty => '.',
    }
}

/// The marker drawn for one border observation.
pub open spec fn observation_char(o: Observation) -> char {
    match o {
        Observation::NotObserved => ' ',
        Observation::Reflected => 'r',
        Observation::Absorbed => 'x',
        Observation::Letter(c) => c,
    }
}

fn observation_symbol(o: Observation) -> (r: char)
    ensures
        r == observation_char(o),
{
    match o {
        Observation::NotObserved => ' ',
        Observation::Reflected => 'r',
        Observation::Absorbed => 'x',
        Observation::Letter(c) => c,
    }
}

/// The markers of the first `n` border positions of side `d`, one
/// space-prefixed pair per position.
pub open spec fn border_marks(o: Observations, d: Direction, n: int) -> Seq<char>
    decreases n,
{
    if n <= 0 {
        Seq::empty()
    } else {
        border_marks(o, d, n - 1) + seq![' ', observation_char(o.outcome_spec(d, n - 1))]
    }
}

/// The symbols of the first `n` cells of row `y`, one space-prefixed pair
/// per cell.
pub open spec fn row_cells(g: UncertainGrid, y: int, n: int) -> Seq<char>
    decreases n,
{
    if n <= 0 {
        Seq::empty()
    } else {
        row_cells(g, y, n - 1) + seq![' ', knowledge_char(g.cell(n - 1, y))]
    }
}

/// One interior row: the marker of the laser entering from the left
/// (travelling `Right`), the row's cells, the marker of the laser
/// entering from the right (travelling `Left`), and a newline.
pub open spec fn row_line(g: UncertainGrid, o: Observations, y: int) -> Seq<char> {
    seq![' ', observation_char(o.outcome_spec(Direction::Right, y))] + row_cells(
        g,
        y,
        GRID_SIZE as int,
    ) + seq![' ', observation_char(o.outcome_spec(Direction::Left, y)), '\n']
}

/// The first `n` interior rows, top to bottom.
pub open spec fn rows(g: UncertainGrid, o: Observations, n: int) -> Seq<char>
    decreases n,
{
    if n <= 0 {
        Seq::empty()
    } else {
        rows(g, o, n - 1) + row_line(g, o, n - 1)
    }
}

/// The whole picture: the top border (lasers travelling `Down`), the
/// interior rows, and the bottom border (lasers travelling `Up`).
pub open spec fn render_spec(g: UncertainGrid, o: Observations) -> Seq<char> {
    seq![' ', ' '] + border_marks(o, Direction::Down, GRID_SIZE as int) + seq!['\n'] + rows(
        g,
        o,
        GRID_SIZE as int,
    ) + seq![' ', ' '] + border_marks(o, Direction::Up, GRID_SIZE as int) + seq!['\n']
}

/// Relies on `String::push`: appends exactly the one given character.
#[verifier::external_body]
fn push_char(s: &mut String, c: char)
    ensures
        final(s)@ == old(s)@.push(c),
{
    s.push(c);
}

/// Renders the knowledge grid plus its border observations as a
/// human-readable grid, exactly as `render_spec` lays it out.
pub fn draw(grid: &UncertainGrid, observations: &Observations) -> (r: String)
    ensures
        r@ == render_spec(*grid, *observations),
{
    let mut f = String::new();

    // The row above the grid: lasers pointing down.
    push_char(&mut f, ' ');
    push_char(&mut f, ' ');
    let mut s: usize = 0;
    while s < GRID_SIZE
        invariant
            s <= GRID_SIZE,
            f@ == seq![' ', ' '] + border_marks(*observations, Direction::Down, s as int),
        decreases GRID_SIZE - s,
    {
        push_char(&mut f, ' ');
        push_char(&mut f, observation_symbol(observations.outcome(Direction::Down, s as u8)));
        proof {
            assert(f@ =~= seq![' ', ' '] + border_marks(
                *observations,
                Direction::Down,
                s as int + 1,
            ));
        }
        s += 1;
    }
    push_char(&mut f, '\n');
    let ghost header: Seq<char> = seq![' ', ' '] + border_marks(
        *observations,
        Direction::Down,
        GRID_SIZE as int,
    ) + seq!['\n'];
    proof {
        assert(f@ =~= header);
    }

    // The interior rows, with the side borders: the left border shows the
    // lasers travelling right, the right border those travelling left.
    let mut y: usize = 0;
    while y < GRID_SIZE
        invariant
            y <= GRID_SIZE,
            f@ == header + rows(*grid, *observations, y as int),
        decreases GRID_SIZE - y,
    {
        push_char(&mut f, ' ');
        push_char(&mut f, observation_symbol(observations.outcome(Direction::Right, y as u8)));
        let ghost row_start: Seq<char> = f@;
        let mut x: usize = 0;
        while x < GRID_SIZE
            invariant
                x <= GRID_SIZE,
                y < GRID_SIZE,
                f@ == row_start + row_cells(*grid, y as int, x as int),
            decreases GRID_SIZE - x,
        {
            push_char(&mut f, ' ');
            push_char(&mut f, knowledge_symbol(grid.get(I8Vec2::new(x as i8, y as i8))));
            proof {
                assert(f@ =~= row_start + row_cells(*grid, y as int, x as int + 1));
            }
            x += 1;
        }
        push_char(&mut f, ' ');
        push_char(&mut f, observation_symbol(observations.outcome(Direction::Left, y as u8)));
        push_char(&mut f, '\n');
        proof {
            assert(f@ =~= header + rows(*grid, *observations, y as int + 1));
        }
        y += 1;
    }

    // The row below the grid: lasers pointing up.
    push_char(&mut f, ' ');
    push_char(&mut f, ' ');
    let ghost body: Seq<char> = f@;
    let mut s2: usize = 0;
    while s2 < GRID_SIZE
        invariant
            s2 <= GRID_SIZE,
            f@ == body + border_marks(*observations, Direction::Up, s2 as int),
        decreases GRID_SIZE - s2,
    {
        push_char(&mut f, ' ');
        push_char(&mut f, observation_symbol(observations.outcome(Direction::Up, s2 as u8)));
        proof {
            assert(f@ =~= body + border_marks(*observations, Direction::Up, s2 as int + 1));
        }
        s2 += 1;
    }
    push_char(&mut f, '\n');
    proof {
        assert(f@ =~= render_spec(*grid, *observations));
    }
    f
}

} // verus!
