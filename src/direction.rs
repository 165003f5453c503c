use vstd::prelude::*;

verus! {

/// The four headings a snake can move in.
#[derive(Debug, Clone, Copy)]
pub enum Direction {
    Right,
    Left,
    Up,
    Down,
}

impl Direction {
    /// The heading turned by half a circle.
    pub open spec fn reversed(self) -> Direction {
        match self {
            Direction::Left => Direction::Right,
            Direction::Right => Direction::Left,
            Direction::Up => Direction::Down,
            Direction::Down => Direction::Up,
        }
    }

    /// Returns the heading that points the other way.
    pub fn opposite(&self) -> (r: Direction)
        ensures
            r == self.reversed(),
    {
        match self {
            Direction::Left => Direction::Right,
            Direction::Right => Direction::Left,
            Direction::Up => Direction::Down,
            Direction::Down => Direction::Up,
        }
    }
}

impl PartialEq for Direction {
    fn eq(&self, other: &Direction) -> bool {
        match (*self, *other) {
            (Direction::Left, Direction::Left) => true,
            (Direction::Right, Direction::Right) => true,
            (Direction::Up, Direction::Up) => true,
            (Direction::Down, Direction::Down) => true,
            _ => false,
        }
    }
}

impl vstd::std_specs::cmp::PartialEqSpecImpl for Direction {
    open spec fn obeys_eq_spec() -> bool {
        true
    }

    open spec fn eq_spec(&self, other: &Direction) -> bool {
        *self == *other
    }
}

} // verus!
