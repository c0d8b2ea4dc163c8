//! Arena bounds, grid coordinates and movement directions.

use vstd::prelude::*;

verus! {

/// Number of grid cells along the x axis.
pub const ARENA_WIDTH: u32 = 10;

/// Number of grid cells along the y axis.
pub const ARENA_HEIGHT: u32 = 10;

/// One cell of the arena, addressed by integer coordinates.  Equality is
/// exact; a position serves both as a grid coordinate and a collision key.
#[derive(Clone, Copy, PartialEq, Eq, Structural, Debug)]
pub struct Position {
    pub x: i32,
    pub y: i32,
}

/// A position is on the arena iff both coordinates lie in
/// `[0, ARENA_WIDTH) x [0, ARENA_HEIGHT)`.
pub open spec fn spec_in_bounds(p: Position) -> bool {
    &&& 0 <= p.x
    &&& (p.x as int) < (ARENA_WIDTH as int)
    &&& 0 <= p.y
    &&& (p.y as int) < (ARENA_HEIGHT as int)
}

/// Whether `p` lies on the arena.
pub fn in_bounds(p: Position) -> (r: bool)
    ensures
        r == spec_in_bounds(p),
{
    0 <= p.x && p.x < ARENA_WIDTH as i32 && 0 <= p.y && p.y < ARENA_HEIGHT as i32
}

/// One of the four movement directions of the snake's head.
#[derive(Clone, Copy, PartialEq, Eq, Structural, Debug)]
pub enum Direction {
    Left,
    Right,
    Up,
    Down,
}

impl Direction {
    /// The 180-degree reverse of a direction.
    pub open spec fn spec_opposite(self) -> Direction {
        match self {
            Direction::Left => Direction::Right,
            Direction::Right => Direction::Left,
            Direction::Up => Direction::Down,
            Direction::Down => Direction::Up,
        }
    }

    /// The 180-degree reverse of a direction; used to reject immediate U-turns.
    pub fn opposite(self) -> (r: Direction)
        ensures
            r == self.spec_opposite(),
    {
        match self {
            Direction::Left => Direction::Right,
            Direction::Right => Direction::Left,
            Direction::Up => Direction::Down,
            Direction::Down => Direction::Up,
        }
    }
}

/// Reversing a direction twice yields the original direction.
pub proof fn lemma_opposite_involutive(d: Direction)
    ensures
        d.spec_opposite().spec_opposite() == d,
{
}

/// The cell one step away from `p` in direction `d`: Left decreases x,
/// Right increases x, Up increases y, Down decreases y.
pub open spec fn spec_next_position(p: Position, d: Direction) -> Position {
    match d {
        Direction::Left => Position { x: (p.x - 1) as i32, y: p.y },
        Direction::Right => Position { x: (p.x + 1) as i32, y: p.y },
        Direction::Up => Position { x: p.x, y: (p.y + 1) as i32 },
        Direction::Down => Position { x: p.x, y: (p.y - 1) as i32 },
    }
}

/// One movement step changes exactly one coordinate, by exactly one unit,
/// in the way the direction prescribes.
pub proof fn lemma_step_one_unit(p: Position, d: Direction)
    requires
        i32::MIN < p.x < i32::MAX,
        i32::MIN < p.y < i32::MAX,
    ensures
        ({
            let q = spec_next_position(p, d);
            match d {
                Direction::Left => q.x == p.x - 1 && q.y == p.y,
                Direction::Right => q.x == p.x + 1 && q.y == p.y,
                Direction::Up => q.x == p.x && q.y == p.y + 1,
                Direction::Down => q.x == p.x && q.y == p.y - 1,
            }
        }),
{
}

} // verus!
