use vstd::prelude::*;

verus! {

/// The four directions in which a field can have a neighbour.
#[derive(Debug, Copy, Clone, PartialEq, Eq, Structural, Hash)]
pub enum Direction {
    North,
    East,
    South,
    West,
}

impl Direction {
    /// The four directions in the order in which `all` lists them.
    pub open spec fn all_spec() -> Seq<Direction> {
        seq![Direction::North, Direction::East, Direction::South, Direction::West]
    }

    /// The change of the x component on one step in this direction.
    pub open spec fn dx(self) -> int {
        match self {
            Direction::East => 1,
            Direction::West => -1,
            _ => 0,
        }
    }

    /// The change of the y component on one step in this direction.
    pub open spec fn dy(self) -> int {
        match self {
            Direction::North => -1,
            Direction::South => 1,
            _ => 0,
        }
    }

    /// All directions, always in the same order: north, east, south, west.
    pub fn all() -> (all: [Direction; 4])
        ensures
            all@ == Direction::all_spec(),
    {
        [Direction::North, Direction::East, Direction::South, Direction::West]
    }
}

} // verus!
