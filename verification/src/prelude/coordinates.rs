use vstd::prelude::*;
use std::cmp::Ordering;
use crate::grid::Cell;
use crate::prelude::direction::Direction;

verus! {

/// Two-dimensional coordinates that address one field of a maze.
#[derive(Debug, Copy, Clone, PartialEq, Eq, Structural, Ord, Hash)]
pub struct Coordinates {
    /// X component
    pub x: i32,
    /// Y component
    pub y: i32,
}

/// The absolute value of the difference of two numbers.
pub open spec fn gap(a: int, b: int) -> nat {
    if a >= b {
        (a - b) as nat
    } else {
        (b - a) as nat
    }
}

/// The Manhattan distance |dx| + |dy| of two cells.
pub open spec fn distance(a: Cell, b: Cell) -> nat {
    gap(a.0 as int, b.0 as int) + gap(a.1 as int, b.1 as int)
}

/// Whether the neighbour of a cell in a direction can still be represented.
pub open spec fn can_step(cell: Cell, direction: Direction) -> bool {
    &&& i32::MIN <= cell.0 + direction.dx() <= i32::MAX
    &&& i32::MIN <= cell.1 + direction.dy() <= i32::MAX
}

/// The neighbour of a cell one step away in a direction: east is x + 1, west
/// is x - 1, north is y - 1, south is y + 1.
pub open spec fn step(cell: Cell, direction: Direction) -> Cell {
    ((cell.0 + direction.dx()) as i32, (cell.1 + direction.dy()) as i32)
}

/// The larger of two numbers.
pub open spec fn larger(a: nat, b: nat) -> nat {
    if a >= b {
        a
    } else {
        b
    }
}

fn abs_diff(a: i32, b: i32) -> (d: u32)
    ensures
        d == gap(a as int, b as int),
{
    if a >= b {
        (a as i64 - b as i64) as u32
    } else {
        (b as i64 - a as i64) as u32
    }
}

impl Coordinates {
    /// Twice the octagonal distance: |dx| + |dy| + max(|dx|, |dy|).
    pub open spec fn octogonal_doubled_spec(self, other: Coordinates) -> nat {
        let dx = gap(self.x as int, other.x as int);
        let dy = gap(self.y as int, other.y as int);
        dx + dy + larger(dx, dy)
    }

    /// Create a new instance from the specified coordinate components
    pub fn new(x: i32, y: i32) -> (c: Self)
        ensures
            c.x == x,
            c.y == y,
    {
        Coordinates { x, y }
    }

    /// Returns the next neighboring coordinates in a specific direction.
    ///
    /// The result may lie outside of any maze; it only has to be representable.
    pub fn next(&self, direction: &Direction) -> (c: Self)
        requires
            can_step(self@, *direction),
        ensures
            c@ == step(self@, *direction),
    {
        Self {
            x: self.x + match direction {
                Direction::East => 1,
                Direction::West => -1,
                _ => 0,
            },
            y: self.y + match direction {
                Direction::North => -1,
                Direction::South => 1,
                _ => 0,
            },
        }
    }

    /// The number of steps along the axes that separate two coordinates.
    pub fn manhattan_distance(&self, other: &Coordinates) -> (d: u32)
        requires
            distance(self@, other@) <= u32::MAX,
        ensures
            d == distance(self@, other@),
    {
        abs_diff(self.x, other.x) + abs_diff(self.y, other.y)
    }

    /// Twice the octagonal distance, which estimates the length of the straight
    /// line between two coordinates on a grid with diagonal steps. Halving is
    /// left to the caller, so that the value stays exact.
    pub fn octogonal_distance_doubled(&self, other: &Coordinates) -> (d: u64)
        ensures
            d == self.octogonal_doubled_spec(*other),
    {
        let dx: u64 = abs_diff(self.x, other.x) as u64;
        let dy: u64 = abs_diff(self.y, other.y) as u64;
        let longer: u64 = if dx >= dy { dx } else { dy };
        dx + dy + longer
    }
}

impl View for Coordinates {
    type V = Cell;

    /// The coordinates as a plain pair (x, y).
    open spec fn view(&self) -> Cell {
        (self.x, self.y)
    }
}

impl PartialOrd for Coordinates {
    /// Coordinates are ordered by their x components, and by their y
    /// components where those are equal.
    fn partial_cmp(&self, other: &Self) -> (order: Option<Ordering>) {
        if self.x < other.x {
            Some(Ordering::Less)
        } else if self.x > other.x {
            Some(Ordering::Greater)
        } else if self.y < other.y {
            Some(Ordering::Less)
        } else if self.y > other.y {
            Some(Ordering::Greater)
        } else {
            Some(Ordering::Equal)
        }
    }
}

impl vstd::std_specs::cmp::PartialOrdSpecImpl for Coordinates {
    open spec fn obeys_partial_cmp_spec() -> bool {
        true
    }

    open spec fn partial_cmp_spec(&self, other: &Self) -> Option<Ordering> {
        if self.x < other.x || (self.x == other.x && self.y < other.y) {
            Some(Ordering::Less)
        } else if self.x == other.x && self.y == other.y {
            Some(Ordering::Equal)
        } else {
            Some(Ordering::Greater)
        }
    }
}

impl Default for Coordinates {
    /// The origin.
    fn default() -> (c: Self)
        ensures
            c.x == 0,
            c.y == 0,
    {
        Coordinates { x: 0, y: 0 }
    }
}

impl From<(i32, i32)> for Coordinates {
    fn from(source: (i32, i32)) -> (c: Self) {
        Self { x: source.0, y: source.1 }
    }
}

impl vstd::std_specs::convert::FromSpecImpl<(i32, i32)> for Coordinates {
    open spec fn obeys_from_spec() -> bool {
        true
    }

    open spec fn from_spec(source: (i32, i32)) -> Self {
        Coordinates { x: source.0, y: source.1 }
    }
}

impl From<Coordinates> for (i32, i32) {
    fn from(c: Coordinates) -> (pair: Self) {
        (c.x, c.y)
    }
}

impl vstd::std_specs::convert::FromSpecImpl<Coordinates> for (i32, i32) {
    open spec fn obeys_from_spec() -> bool {
        true
    }

    open spec fn from_spec(c: Coordinates) -> Self {
        (c.x, c.y)
    }
}

} // verus!
