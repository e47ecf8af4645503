use vstd::prelude::*;
use crate::grid::{linked, Cell};
use crate::prelude::graph::MazeGraph;
use crate::prelude::coordinates::{distance, step, Coordinates};
use crate::prelude::direction::Direction;
use crate::prelude::field::{Field, FieldType};

verus! {

/// A collection of [`Field`]s with passages between them.
///
/// Use a [`Generator`](crate::prelude::Generator) to create an instance of this type.
pub struct Maze {
    /// The passages between the fields
    pub grid: MazeGraph,
    /// At which coordinates the start field lies
    pub start: Coordinates,
    /// At which coordinates the goal field lies
    pub goal: Coordinates,
    /// How large the maze is in (width, height) format
    pub size: (i32, i32),
}

/// What a maze is, mathematically: its size, its two marked cells and the set
/// of its passages. Two mazes are equal when these are.
pub ghost struct MazeView {
    pub size: (i32, i32),
    pub start: Cell,
    pub goal: Cell,
    pub passages: Set<(Cell, Cell)>,
}

/// The cells of the rectangle of a maze.
pub open spec fn cells(maze: MazeView) -> Set<Cell> {
    Set::new(|cell: Cell| maze.inside(cell))
}

/// Whether the turn of a cell comes before that of the cell (x, y), row by
/// row from north to south and in each row from west to east.
pub open spec fn comes_before(cell: Cell, x: int, y: int) -> bool {
    cell.1 < y || (cell.1 == y && cell.0 < x)
}

impl MazeView {
    /// Whether a cell lies in the rectangle of the maze.
    pub open spec fn inside(self, cell: Cell) -> bool {
        &&& 0 <= cell.0 < self.size.0
        &&& 0 <= cell.1 < self.size.1
    }

    /// Whether a passage joins two cells.
    pub open spec fn has_passage(self, a: Cell, b: Cell) -> bool {
        self.passages.contains((a, b))
    }

    /// The directions in which a passage leaves a cell, in the order of
    /// `Direction::all`.
    pub open spec fn open_directions(self, cell: Cell) -> Seq<Direction> {
        Direction::all_spec().filter(|direction: Direction| self.has_passage(cell, step(cell, direction)))
    }

    /// Every passage can be walked both ways and joins two cells of the
    /// rectangle that differ by one step along one axis.
    pub open spec fn well_formed(self) -> bool {
        forall|a: Cell, b: Cell| #[trigger]
            self.has_passage(a, b) ==> {
                &&& self.has_passage(b, a)
                &&& self.inside(a)
                &&& self.inside(b)
                &&& distance(a, b) == 1
            }
    }

    /// A walk along passages leads from every cell of the rectangle to every
    /// other.
    pub open spec fn connected(self) -> bool {
        forall|a: Cell, b: Cell|
            self.inside(a) && self.inside(b) ==> #[trigger] linked(self.passages, a, b)
    }

    /// What a finished maze has to be: well formed and connected, with start
    /// and goal on two different cells of the rectangle.
    pub open spec fn valid(self) -> bool {
        &&& self.well_formed()
        &&& self.connected()
        &&& self.inside(self.start)
        &&& self.inside(self.goal)
        &&& self.start != self.goal
    }

    /// The list of open directions holds a direction exactly when a passage
    /// leaves the cell in that direction.
    pub proof fn lemma_open_directions(self, cell: Cell, direction: Direction)
        ensures
            self.open_directions(cell).contains(direction) <==> self.has_passage(
                cell,
                step(cell, direction),
            ),
    {
        broadcast use vstd::seq_lib::group_filter_ensures;

        let open = |direction: Direction| self.has_passage(cell, step(cell, direction));
        let all = Direction::all_spec();
        let i: int = match direction {
            Direction::North => 0,
            Direction::East => 1,
            Direction::South => 2,
            Direction::West => 3,
        };
        assert(all[i] == direction);
        if self.open_directions(cell).contains(direction) {
            let k = choose|k: int|
                0 <= k < all.filter(open).len() && all.filter(open)[k] == direction;
            assert(open(all.filter(open)[k]));
        }
    }

    /// No direction is listed twice among the open directions of a cell.
    pub proof fn lemma_open_directions_are_distinct(self, cell: Cell)
        ensures
            self.open_directions(cell).no_duplicates(),
    {
        let open = |direction: Direction| self.has_passage(cell, step(cell, direction));
        let all = Direction::all_spec();
        let three = seq![Direction::North, Direction::East, Direction::South];
        let two = seq![Direction::North, Direction::East];
        let one = seq![Direction::North];
        assert(all.drop_last() =~= three);
        assert(three.drop_last() =~= two);
        assert(two.drop_last() =~= one);
        assert(one.drop_last() =~= Seq::<Direction>::empty());
        reveal_with_fuel(Seq::filter, 5);
    }
}

impl View for Maze {
    type V = MazeView;

    open spec fn view(&self) -> MazeView {
        MazeView {
            size: self.size,
            start: self.start@,
            goal: self.goal@,
            passages: self.grid.edges(),
        }
    }
}

impl PartialEq for Maze {
    /// Two mazes are equal when they have the same size, the same start, the
    /// same goal and the same passages.
    fn eq(&self, other: &Self) -> (equal: bool) {
        let same_frame = self.size.0 == other.size.0 && self.size.1 == other.size.1 && self.start
            == other.start && self.goal == other.goal;
        let equal = same_frame && self.grid.is_subgraph_of(&other.grid) && other.grid.is_subgraph_of(
            &self.grid,
        );
        proof {
            if equal {
                assert(self@.passages =~= other@.passages);
            }
        }
        equal
    }
}

impl vstd::std_specs::cmp::PartialEqSpecImpl for Maze {
    open spec fn obeys_eq_spec() -> bool {
        true
    }

    open spec fn eq_spec(&self, other: &Self) -> bool {
        self@ == other@
    }
}

impl Maze {
    /// The invariant of every maze, finished or not: its passages are well
    /// formed, and the nodes of its graph are the cells of its rectangle,
    /// with or without a passage.
    pub open spec fn wf(&self) -> bool {
        &&& self@.well_formed()
        &&& self.grid.nodes() == cells(self@)
    }

    /// A maze without passages: every cell of the rectangle stands alone.
    pub fn new(width: i32, height: i32, start: Coordinates, goal: Coordinates) -> (maze: Self)
        ensures
            maze@ == (MazeView {
                size: (width, height),
                start: start@,
                goal: goal@,
                passages: Set::empty(),
            }),
            maze.wf(),
    {
        let mut grid = MazeGraph::new();
        let ghost frame = MazeView {
            size: (width, height),
            start: start@,
            goal: goal@,
            passages: Set::empty(),
        };
        let mut y: i32 = 0;
        while y < height
            invariant
                0 <= y,
                y <= height || y == 0,
                frame.size == (width, height),
                grid.edges() == Set::<(Cell, Cell)>::empty(),
                grid.nodes() == Set::new(|cell: Cell| frame.inside(cell) && comes_before(cell, 0, y as int)),
            decreases height - y,
        {
            let mut x: i32 = 0;
            while x < width
                invariant
                    0 <= x,
                    x <= width || x == 0,
                    0 <= y < height,
                    frame.size == (width, height),
                    grid.edges() == Set::<(Cell, Cell)>::empty(),
                    grid.nodes() == Set::new(
                        |cell: Cell| frame.inside(cell) && comes_before(cell, x as int, y as int),
                    ),
                decreases width - x,
            {
                grid.add_node((x, y));
                assert(grid.nodes() =~= Set::new(
                    |cell: Cell| frame.inside(cell) && comes_before(cell, x + 1, y as int),
                ));
                x += 1;
            }
            assert(grid.nodes() =~= Set::new(
                |cell: Cell| frame.inside(cell) && comes_before(cell, 0, y + 1),
            ));
            y += 1;
        }
        assert(grid.nodes() =~= cells(frame));
        Maze { grid, size: (width, height), start, goal }
    }

    /// Whether the coordinates lie in the rectangle of the maze. The passages
    /// play no part in the answer.
    pub fn are_coordinates_inside(&self, coordinates: &Coordinates) -> (inside: bool)
        ensures
            inside == self@.inside(coordinates@),
    {
        coordinates.x >= 0 && coordinates.x < self.size.0 && coordinates.y >= 0 && coordinates.y
            < self.size.1
    }

    /// Open the passage that leaves `from` in `direction`, in both directions.
    ///
    /// Nothing happens, and `false` is returned, unless both ends of the
    /// passage lie in the rectangle of the maze.
    pub fn open_passage(&mut self, from: &Coordinates, direction: &Direction) -> (opened: bool)
        ensures
            opened == (old(self)@.inside(from@) && old(self)@.inside(step(from@, *direction))),
            opened ==> final(self)@ == (MazeView {
                passages: old(self)@.passages.insert((from@, step(from@, *direction))).insert(
                    (step(from@, *direction), from@),
                ),
                ..old(self)@
            }),
            !opened ==> final(self)@ == old(self)@,
            old(self).wf() ==> final(self).wf(),
    {
        if !self.are_coordinates_inside(from) {
            return false;
        }
        let to = from.next(direction);
        if !self.are_coordinates_inside(&to) {
            return false;
        }
        let ghost before = *self;
        self.grid.join((from.x, from.y), (to.x, to.y));
        proof {
            let a = from@;
            let b = to@;
            assert(self@.passages == before@.passages.insert((a, b)).insert((b, a)));
            assert(distance(a, b) == 1);
            if before.wf() {
                assert(self@.size == before@.size);
                assert forall|p: Cell, q: Cell| #[trigger] self@.has_passage(p, q) implies {
                    &&& self@.has_passage(q, p)
                    &&& self@.inside(p)
                    &&& self@.inside(q)
                    &&& distance(p, q) == 1
                } by {
                    if before@.has_passage(p, q) {
                        assert(before@.has_passage(q, p));
                    }
                }
                assert(cells(before@).contains(a) && cells(before@).contains(b));
                assert(self.grid.nodes() =~= before.grid.nodes());
                assert(cells(self@) =~= cells(before@));
            }
        }
        true
    }

    /// Retrieve the [`Field`] which is located at `coordinates`.
    ///
    /// There is a field at all coordinates inside the maze, and none outside.
    pub fn get_field(&self, coordinates: &Coordinates) -> (field: Option<Field>)
        ensures
            field.is_some() == self@.inside(coordinates@),
            field matches Some(f) ==> {
                &&& f.field_type == FieldType::Normal
                &&& f.coordinates == *coordinates
                &&& f.passages@ == self@.open_directions(coordinates@)
            },
    {
        if self.are_coordinates_inside(coordinates) {
            // figure out in which directions passages exist
            let directions = Direction::all();
            let ghost open = |direction: Direction|
                self@.has_passage(coordinates@, step(coordinates@, direction));
            let mut passages: Vec<Direction> = Vec::new();
            let mut i: usize = 0;
            assert(directions@.take(0) =~= Seq::<Direction>::empty());
            while i < 4
                invariant
                    i <= 4,
                    directions@ == Direction::all_spec(),
                    self@.inside(coordinates@),
                    open == |direction: Direction|
                        self@.has_passage(coordinates@, step(coordinates@, direction)),
                    passages@ == directions@.take(i as int).filter(open),
                decreases 4 - i,
            {
                let direction = directions[i];
                let neighbour = coordinates.next(&direction);
                proof {
                    assert(directions@.take(i + 1) =~= directions@.take(i as int).push(direction));
                    directions@.take(i as int).lemma_filter_push(direction, open);
                }
                if self.grid.contains_edge(*coordinates, neighbour) {
                    passages.push(direction);
                }
                i += 1;
            }
            assert(directions@.take(4) =~= directions@);
            Some(Field::new(FieldType::Normal, *coordinates, passages))
        } else {
            None
        }
    }
}

} // verus!
