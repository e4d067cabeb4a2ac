//! Coordinates, directions and laser-tip geometry on the square grid.
//!
//! The grid is `GRID_SIZE x GRID_SIZE`; coordinates use small signed
//! integers because border arithmetic legitimately steps one cell outside
//! the grid near its edges and corners.

use vstd::prelude::*;

verus! {

/// Side length of the square grid.
pub const GRID_SIZE: usize = 8;

/// True when `(x, y)` lies inside the grid: `0 <= x < GRID_SIZE` and
/// `0 <= y < GRID_SIZE`.
pub open spec fn in_grid_spec(x: int, y: int) -> bool {
    0 <= x < GRID_SIZE as int && 0 <= y < GRID_SIZE as int
}

/// A 2D coordinate with small signed components.
///
/// `x` grows to the right, `y` grows downwards.
#[derive(Clone, Copy, Debug, PartialEq, Eq, Structural)]
pub struct I8Vec2 {
    pub x: i8,
    pub y: i8,
}

impl I8Vec2 {
    /// Whether this coordinate lies inside the grid.
    pub open spec fn in_grid_spec(&self) -> bool {
        in_grid_spec(self.x as int, self.y as int)
    }

    pub fn new(x: i8, y: i8) -> (r: I8Vec2)
        ensures
            r.x == x,
            r.y == y,
    {
        I8Vec2 { x, y }
    }

    /// Bounds test against the fixed grid side length.
    pub fn in_grid(&self) -> (r: bool)
        ensures
            r == self.in_grid_spec(),
    {
        0 <= self.x && (self.x as usize) < GRID_SIZE && 0 <= self.y && (self.y as usize) < GRID_SIZE
    }

    /// Component-wise addition.
    pub fn plus(self, other: I8Vec2) -> (r: I8Vec2)
        requires
            i8::MIN <= self.x + other.x <= i8::MAX,
            i8::MIN <= self.y + other.y <= i8::MAX,
        ensures
            r.x == self.x + other.x,
            r.y == self.y + other.y,
    {
        I8Vec2 { x: self.x + other.x, y: self.y + other.y }
    }
}

/// The direction a laser travels in. `Down` means the beam moves towards
/// larger `y` (it entered from the top border), and so on.
#[derive(Clone, Copy, Debug, PartialEq, Eq, Structural)]
pub enum Direction {
    Up,
    Down,
    Left,
    Right,
}

impl Direction {
    /// The unit offset `(dx, dy)` of one step of travel.
    pub open spec fn dxy_spec(self) -> (int, int) {
        match self {
            Direction::Up => (0int, -1int),
            Direction::Down => (0int, 1int),
            Direction::Left => (-1int, 0int),
            Direction::Right => (1int, 0int),
        }
    }

    /// The unit offset of one step of travel, as a coordinate.
    pub fn dxy(self) -> (r: I8Vec2)
        ensures
            r.x as int == self.dxy_spec().0,
            r.y as int == self.dxy_spec().1,
    {
        match self {
            Direction::Up => I8Vec2 { x: 0, y: -1 },
            Direction::Down => I8Vec2 { x: 0, y: 1 },
            Direction::Left => I8Vec2 { x: -1, y: 0 },
            Direction::Right => I8Vec2 { x: 1, y: 0 },
        }
    }

    /// The neighbouring direction one quarter turn clockwise
    /// (with `y` growing downwards).
    pub open spec fn clockwise_spec(self) -> Direction {
        match self {
            Direction::Up => Direction::Right,
            Direction::Right => Direction::Down,
            Direction::Down => Direction::Left,
            Direction::Left => Direction::Up,
        }
    }

    pub fn clockwise(self) -> (r: Direction)
        ensures
            r == self.clockwise_spec(),
    {
        match self {
            Direction::Up => Direction::Right,
            Direction::Right => Direction::Down,
            Direction::Down => Direction::Left,
            Direction::Left => Direction::Up,
        }
    }

    /// The neighbouring direction one quarter turn counter-clockwise.
    pub open spec fn counter_clockwise_spec(self) -> Direction {
        match self {
            Direction::Up => Direction::Left,
            Direction::Left => Direction::Down,
            Direction::Down => Direction::Right,
            Direction::Right => Direction::Up,
        }
    }

    pub fn counter_clockwise(self) -> (r: Direction)
        ensures
            r == self.counter_clockwise_spec(),
    {
        match self {
            Direction::Up => Direction::Left,
            Direction::Left => Direction::Down,
            Direction::Down => Direction::Right,
            Direction::Right => Direction::Up,
        }
    }

    /// A fixed index for each direction, used to address per-side storage.
    pub open spec fn index_spec(self) -> int {
        match self {
            Direction::Up => 0int,
            Direction::Down => 1int,
            Direction::Left => 2int,
            Direction::Right => 3int,
        }
    }

    pub fn index(self) -> (r: usize)
        ensures
            r as int == self.index_spec(),
            r < 4,
    {
        match self {
            Direction::Up => 0,
            Direction::Down => 1,
            Direction::Left => 2,
            Direction::Right => 3,
        }
    }
}

/// The direction with the given per-side storage index.
pub open spec fn direction_of_index_spec(i: int) -> Direction {
    if i == 0 {
        Direction::Up
    } else if i == 1 {
        Direction::Down
    } else if i == 2 {
        Direction::Left
    } else {
        Direction::Right
    }
}

pub fn direction_of_index(i: usize) -> (r: Direction)
    requires
        i < 4,
    ensures
        r == direction_of_index_spec(i as int),
        r.index_spec() == i as int,
{
    if i == 0 {
        Direction::Up
    } else if i == 1 {
        Direction::Down
    } else if i == 2 {
        Direction::Left
    } else {
        Direction::Right
    }
}

/// The position just outside the grid where a laser fired in direction `d`
/// at shift index `s` sits before its first step.
pub open spec fn entry_cell(d: Direction, s: int) -> (int, int) {
    match d {
        Direction::Down => (s, -1int),
        Direction::Up => (s, GRID_SIZE as int),
        Direction::Right => (-1int, s),
        Direction::Left => (GRID_SIZE as int, s),
    }
}

/// The first interior cell a laser fired in direction `d` at shift index
/// `s` reaches: one step inward from its entry position.
pub open spec fn forward_cell(d: Direction, s: int) -> (int, int) {
    let e = entry_cell(d, s);
    let o = d.dxy_spec();
    (e.0 + o.0, e.1 + o.1)
}

/// The head of a laser beam: its current position and travel direction.
#[derive(Clone, Copy, Debug, PartialEq, Eq, Structural)]
pub struct LaserTip {
    pub pos: I8Vec2,
    pub dir: Direction,
}

impl LaserTip {
    /// A laser about to enter the grid at border shift `shift`, travelling
    /// in direction `direction`; it sits one step outside the grid.
    pub fn new(shift: u8, direction: Direction) -> (r: LaserTip)
        requires
            shift < GRID_SIZE,
        ensures
            r.dir == direction,
            (r.pos.x as int, r.pos.y as int) == entry_cell(direction, shift as int),
    {
        let s = shift as i8;
        let pos = match direction {
            Direction::Down => I8Vec2 { x: s, y: -1 },
            Direction::Up => I8Vec2 { x: s, y: GRID_SIZE as i8 },
            Direction::Right => I8Vec2 { x: -1, y: s },
            Direction::Left => I8Vec2 { x: GRID_SIZE as i8, y: s },
        };
        LaserTip { pos, dir: direction }
    }

    /// The tip one step further along its travel direction.
    pub fn forward(self) -> (r: LaserTip)
        requires
            i8::MIN <= self.pos.x + self.dir.dxy_spec().0 <= i8::MAX,
            i8::MIN <= self.pos.y + self.dir.dxy_spec().1 <= i8::MAX,
        ensures
            r.dir == self.dir,
            r.pos.x as int == self.pos.x + self.dir.dxy_spec().0,
            r.pos.y as int == self.pos.y + self.dir.dxy_spec().1,
    {
        LaserTip { pos: self.pos.plus(self.dir.dxy()), dir: self.dir }
    }

    /// The current position of the tip.
    pub fn position(self) -> (r: I8Vec2)
        ensures
            r == self.pos,
    {
        self.pos
    }
}

} // verus!
