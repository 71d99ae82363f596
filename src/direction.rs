use vstd::prelude::*;

use crate::pixel::Pixel;

verus! {

/// One of the four compass directions in which the head can move.
#[derive(Clone, Copy, Debug, PartialEq, Eq, Structural)]
pub enum Direction {
    Left,
    Down,
    Up,
    Right,
}

impl Direction {
    /// The reverse direction: Left and Right, Up and Down are paired.
    pub open spec fn reversed(self) -> Direction {
        match self {
            Direction::Left => Direction::Right,
            Direction::Down => Direction::Up,
            Direction::Up => Direction::Down,
            Direction::Right => Direction::Left,
        }
    }

    /// A turn is legal unless it keeps the direction or reverses it.
    pub open spec fn turn_allowed(self, other: Direction) -> bool {
        other != self && other != self.reversed()
    }

    /// One step from `p` on the torus whose largest coordinates are `size`:
    /// stepping below 0 wraps to the far edge, and stepping from the far
    /// edge (or from beyond it, after the grid shrank) wraps to 0.
    pub open spec fn step(self, p: Pixel, size: Pixel) -> Pixel {
        match self {
            Direction::Left => if p.x == 0 {
                Pixel { x: size.x, y: p.y }
            } else {
                Pixel { x: (p.x - 1) as u16, y: p.y }
            },
            Direction::Down => if p.y >= size.y {
                Pixel { x: p.x, y: 0 }
            } else {
                Pixel { x: p.x, y: (p.y + 1) as u16 }
            },
            Direction::Up => if p.y == 0 {
                Pixel { x: p.x, y: size.y }
            } else {
                Pixel { x: p.x, y: (p.y - 1) as u16 }
            },
            Direction::Right => if p.x >= size.x {
                Pixel { x: 0, y: p.y }
            } else {
                Pixel { x: (p.x + 1) as u16, y: p.y }
            },
        }
    }

    pub fn opposite(&self) -> (r: Direction)
        ensures
            r == self.reversed(),
    {
        match self {
            Direction::Left => Direction::Right,
            Direction::Down => Direction::Up,
            Direction::Up => Direction::Down,
            Direction::Right => Direction::Left,
        }
    }

    pub fn can_turn(&self, other: &Direction) -> (r: bool)
        ensures
            r == self.turn_allowed(*other),
    {
        *other != *self && *other != self.opposite()
    }

    pub fn next_pixel(&self, p: Pixel, size: Pixel) -> (r: Pixel)
        ensures
            r == self.step(p, size),
    {
        let mut q = p;
        match self {
            Direction::Left => if p.x == 0 {
                q.x = size.x;
            } else {
                q.x = p.x - 1;
            },
            Direction::Down => if p.y >= size.y {
                q.y = 0;
            } else {
                q.y = p.y + 1;
            },
            Direction::Up => if p.y == 0 {
                q.y = size.y;
            } else {
                q.y = p.y - 1;
            },
            Direction::Right => if p.x >= size.x {
                q.x = 0;
            } else {
                q.x = p.x + 1;
            },
        }
        q
    }
}

/// Reversing is an involution.
pub proof fn lemma_reversed_involutive(d: Direction)
    ensures
        d.reversed().reversed() == d,
{
}

/// A step and a step back cancel, for every cell of the grid, at both
/// wrap points of each axis.
pub proof fn lemma_step_back_cancels(d: Direction, p: Pixel, size: Pixel)
    requires
        p.x <= size.x,
        p.y <= size.y,
    ensures
        d.step(d.reversed().step(p, size), size) == p,
{
}

/// A body may turn to exactly the two directions across its own.
pub proof fn lemma_turn_legality(d: Direction, e: Direction)
    ensures
        !d.turn_allowed(d),
        !d.turn_allowed(d.reversed()),
        d.turn_allowed(e) <==> (e != d && e != d.reversed()),
        d.turn_allowed(e) <==> match d {
            Direction::Left | Direction::Right => e == Direction::Up || e == Direction::Down,
            Direction::Up | Direction::Down => e == Direction::Left || e == Direction::Right,
        },
{
}

} // verus!
