use vstd::prelude::*;
use crate::prelude::maze::{Maze, MazeView};

verus! {

/// The sizes for which a maze can be generated: both dimensions are positive
/// and there are at least two cells, one for the start and one for the goal.
pub open spec fn is_maze_size(width: i32, height: i32) -> bool {
    &&& width > 0
    &&& height > 0
    &&& (width > 1 || height > 1)
}

/// Generic generator API.
///
/// How a generator lays out its passages is its own business. What every
/// implementation owes its callers is stated here: the maze covers the size
/// asked for, it is connected, its start and goal are two different cells,
/// its passages join neighbouring cells only, and all of it is a function
/// of the seed and the size alone.
///
/// `seeded` and `outcome` exist for the contracts to speak of. A verified
/// implementation defines them; no program ever calls them.
pub trait Generator: Sized {
    /// The generator that `new` builds from a seed.
    spec fn seeded(seed: [u8; 32]) -> Self;

    /// The maze that the next call of `generate` returns for a size, as a
    /// function of the state of the generator.
    spec fn outcome(&self, width: i32, height: i32) -> MazeView;

    /// Create a new instance. A given seed fixes everything the generator
    /// will ever decide; without one the generator seeds itself.
    fn new(seed: Option<[u8; 32]>) -> (generator: Self)
        ensures
            seed matches Some(s) ==> generator == Self::seeded(s),
    ;

    /// Generate a maze of the given size.
    fn generate(&mut self, width: i32, height: i32) -> (maze: Maze)
        requires
            is_maze_size(width, height),
        ensures
            maze.wf(),
            maze@.valid(),
            maze@.size == (width, height),
            maze@ == old(self).outcome(width, height),
    ;
}

} // verus!
