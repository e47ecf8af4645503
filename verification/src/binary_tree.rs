//! A generator that grows a binary tree: every cell but the one in the
//! north-west corner is joined to its northern or to its western neighbour.

use vstd::prelude::*;
use std::hash::{BuildHasher, RandomState};
use crate::grid::{is_walk, linked, Cell};
use crate::laws::{
    lemma_linked_by_edge_and_walk, lemma_linked_is_symmetric, lemma_linked_is_transitive,
    symmetric,
};
use crate::prelude::coordinates::{step, Coordinates};
use crate::prelude::direction::Direction;
use crate::prelude::generator::{is_maze_size, Generator};
use crate::prelude::maze::{comes_before, Maze, MazeView};

verus! {

/// Generator that joins every cell to its northern or western neighbour.
///
/// A cell in the first column can only go north and one in the first row
/// only west. For every other cell one bit of the seed decides.
pub struct BinaryTreeGenerator {
    /// The bits that decide
    pub seed: [u8; 32],
}

/// The bit of the seed that decides for a cell.
pub open spec fn coin(seed: [u8; 32], cell: Cell) -> bool {
    let k = (cell.0 * 31 + cell.1 * 17) % 256;
    (seed@[k / 8] >> ((k % 8) as u8)) & 1u8 == 1u8
}

/// The direction in which a cell is joined to the cells before it.
pub open spec fn way_back(seed: [u8; 32], cell: Cell) -> Direction {
    if cell.0 == 0 {
        Direction::North
    } else if cell.1 == 0 {
        Direction::West
    } else if coin(seed, cell) {
        Direction::North
    } else {
        Direction::West
    }
}

/// Whether `from` is a cell of the rectangle, other than the north-west
/// corner, and `to` is the neighbour that it is joined to.
pub open spec fn is_branch(seed: [u8; 32], size: (i32, i32), from: Cell, to: Cell) -> bool {
    &&& 0 <= from.0 < size.0
    &&& 0 <= from.1 < size.1
    &&& from != (0i32, 0i32)
    &&& to == step(from, way_back(seed, from))
}

/// The passages of the cells whose turn comes before that of (x, y).
pub open spec fn branches_before(seed: [u8; 32], size: (i32, i32), x: int, y: int) -> Set<
    (Cell, Cell),
> {
    Set::new(
        |edge: (Cell, Cell)|
            (is_branch(seed, size, edge.0, edge.1) && comes_before(edge.0, x, y)) || (is_branch(
                seed,
                size,
                edge.1,
                edge.0,
            ) && comes_before(edge.1, x, y)),
    )
}

/// All passages of the tree for a seed and a size.
pub open spec fn branches(seed: [u8; 32], size: (i32, i32)) -> Set<(Cell, Cell)> {
    Set::new(
        |edge: (Cell, Cell)|
            is_branch(seed, size, edge.0, edge.1) || is_branch(seed, size, edge.1, edge.0),
    )
}

/// The maze for a seed and a size: the tree, from the north-west corner to
/// the south-east corner.
pub open spec fn tree(seed: [u8; 32], size: (i32, i32)) -> MazeView {
    MazeView {
        size,
        start: (0, 0),
        goal: ((size.0 - 1) as i32, (size.1 - 1) as i32),
        passages: branches(seed, size),
    }
}

/// Along the tree a walk leads from every cell of the rectangle to the
/// north-west corner.
pub proof fn lemma_tree_leads_to_the_corner(seed: [u8; 32], size: (i32, i32), cell: Cell)
    requires
        0 <= cell.0 < size.0,
        0 <= cell.1 < size.1,
    ensures
        linked(branches(seed, size), cell, (0, 0)),
    decreases cell.0 + cell.1,
{
    let edges = branches(seed, size);
    if cell == (0i32, 0i32) {
        let walk = seq![cell];
        assert(is_walk(edges, walk) && walk[0] == cell && walk.last() == cell);
    } else {
        let back = step(cell, way_back(seed, cell));
        assert(is_branch(seed, size, cell, back));
        assert(edges.contains((cell, back)));
        lemma_tree_leads_to_the_corner(seed, size, back);
        lemma_linked_by_edge_and_walk(edges, cell, back, (0, 0));
    }
}

/// The tree is a valid maze for every size that admits one.
pub proof fn lemma_tree_is_valid(seed: [u8; 32], size: (i32, i32))
    requires
        is_maze_size(size.0, size.1),
    ensures
        tree(seed, size).valid(),
{
    let maze = tree(seed, size);
    let edges = branches(seed, size);
    assert(symmetric(edges));
    assert forall|a: Cell, b: Cell| maze.inside(a) && maze.inside(b) implies #[trigger] linked(
        edges,
        a,
        b,
    ) by {
        lemma_tree_leads_to_the_corner(seed, size, a);
        lemma_tree_leads_to_the_corner(seed, size, b);
        lemma_linked_is_symmetric(edges, b, (0, 0));
        lemma_linked_is_transitive(edges, a, (0, 0), b);
    }
}

/// `RandomState::new`: a source of hashes that differs from one call to the
/// next and from one run of the program to the next.
#[verifier::external_body]
fn random_state() -> RandomState {
    RandomState::new()
}

/// `BuildHasher::hash_one`: the hash of a number. It depends on the state,
/// which nobody can foresee, so nothing is known of the result.
#[verifier::external_body]
fn hash_word(state: &RandomState, word: u64) -> u64 {
    state.hash_one(word)
}

impl BinaryTreeGenerator {
    /// Whether the seed sends the cell (x, y) north.
    fn flip(&self, x: i32, y: i32) -> (north: bool)
        requires
            0 <= x,
            0 <= y,
        ensures
            north == coin(self.seed, (x, y)),
    {
        let k: i64 = (x as i64 * 31 + y as i64 * 17) % 256;
        let byte: u8 = self.seed[(k / 8) as usize];
        (byte >> ((k % 8) as u8)) & 1u8 == 1u8
    }
}

impl Generator for BinaryTreeGenerator {
    open spec fn seeded(seed: [u8; 32]) -> Self {
        BinaryTreeGenerator { seed }
    }

    open spec fn outcome(&self, width: i32, height: i32) -> MazeView {
        tree(self.seed, (width, height))
    }

    /// Create a new instance. Without a seed, the bits come from the hasher
    /// that the standard library seeds anew for each of its hash maps.
    fn new(seed: Option<[u8; 32]>) -> (generator: Self) {
        match seed {
            Some(seed) => BinaryTreeGenerator { seed },
            None => {
                let state = random_state();
                let mut seed: [u8; 32] = [0; 32];
                let mut i: usize = 0;
                while i < 32
                    invariant
                        i <= 32,
                    decreases 32 - i,
                {
                    seed[i] = (hash_word(&state, i as u64) & 0xff) as u8;
                    i += 1;
                }
                BinaryTreeGenerator { seed }
            },
        }
    }

    /// Generate the tree for the seed of this generator. Start and goal are
    /// the north-west and the south-east corner.
    fn generate(&mut self, width: i32, height: i32) -> (maze: Maze)
        ensures
            *final(self) == *old(self),
    {
        let start = Coordinates::new(0, 0);
        let goal = Coordinates::new(width - 1, height - 1);
        let mut maze = Maze::new(width, height, start, goal);
        let ghost size = (width, height);
        let ghost seed = self.seed;
        assert(maze@.passages =~= branches_before(seed, size, 0, 0));
        let mut y: i32 = 0;
        while y < height
            invariant
                0 <= y <= height,
                0 < width,
                self.seed == seed,
                size == (width, height),
                maze.wf(),
                maze@ == (MazeView {
                    passages: branches_before(seed, size, 0, y as int),
                    ..tree(seed, size)
                }),
            decreases height - y,
        {
            let mut x: i32 = 0;
            while x < width
                invariant
                    0 <= x <= width,
                    0 <= y < height,
                    self.seed == seed,
                    size == (width, height),
                    maze.wf(),
                    maze@ == (MazeView {
                        passages: branches_before(seed, size, x as int, y as int),
                        ..tree(seed, size)
                    }),
                decreases width - x,
            {
                if x > 0 || y > 0 {
                    let direction = if x == 0 {
                        Direction::North
                    } else if y == 0 {
                        Direction::West
                    } else if self.flip(x, y) {
                        Direction::North
                    } else {
                        Direction::West
                    };
                    let here = Coordinates::new(x, y);
                    assert(direction == way_back(seed, here@));
                    let opened = maze.open_passage(&here, &direction);
                    assert(opened);
                }
                assert(maze@.passages =~= branches_before(seed, size, x + 1, y as int));
                x += 1;
            }
            assert(branches_before(seed, size, width as int, y as int) =~= branches_before(
                seed,
                size,
                0,
                y + 1,
            ));
            y += 1;
        }
        proof {
            assert(branches_before(seed, size, 0, height as int) =~= branches(seed, size));
            lemma_tree_is_valid(seed, size);
        }
        maze
    }
}

} // verus!
