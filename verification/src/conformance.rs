//! Checks that tell whether a generator keeps its contract, for callers that
//! want to try an implementation on given seeds and sizes.

use vstd::prelude::*;
use crate::grid::{components, linked};
use crate::laws::{is_one_component, lemma_goal_is_reachable, lemma_valid_maze_has_one_component};
use crate::prelude::coordinates::Coordinates;
use crate::prelude::generator::{is_maze_size, Generator};
use crate::prelude::graph::MazeGraph;
use crate::prelude::maze::{Maze, MazeView};

verus! {

/// How a check on one seed and one size ended.
#[derive(Debug, Copy, Clone, PartialEq, Eq, Structural, Hash)]
pub enum Verdict {
    /// The generator kept its contract.
    Passed,
    /// The generator broke its contract.
    Failed,
    /// The size admits no maze, so there was nothing to check.
    Discarded,
}

/// The sixteen bytes of a number, the lowest first.
pub open spec fn low_bytes_first(value: u128) -> Seq<u8> {
    Seq::new(16, |i: int| ((value >> ((8 * i) as u128)) & 0xff) as u8)
}

/// `u128::to_ne_bytes`: the bytes of a number in the order in which this
/// machine keeps them in memory, which is the lowest first or the highest first.
#[verifier::external_body]
fn native_bytes(value: u128) -> (bytes: [u8; 16])
    ensures
        bytes@ == low_bytes_first(value) || bytes@ == low_bytes_first(value).reverse(),
{
    value.to_ne_bytes()
}

/// Sixteen bytes stretched to a seed: the bytes as they are, then sixteen
/// zero bytes.
pub fn pad_seed(bytes: [u8; 16]) -> (result: [u8; 32])
    ensures
        result@ == bytes@ + Seq::new(16, |i: int| 0u8),
{
    let mut result: [u8; 32] = [0; 32];
    let mut i: usize = 0;
    while i < 16
        invariant
            i <= 16,
            forall|k: int| 0 <= k < i ==> result@[k] == bytes@[k],
            forall|k: int| i <= k < 32 ==> result@[k] == 0u8,
        decreases 16 - i,
    {
        result[i] = bytes[i];
        i += 1;
    }
    assert(result@ =~= bytes@ + Seq::new(16, |i: int| 0u8));
    result
}

/// Stretch a number to a seed: its sixteen bytes in the order of this machine,
/// then sixteen zero bytes.
pub fn convert_seed(seed: u128) -> (result: [u8; 32])
    ensures
        result@ == low_bytes_first(seed) + Seq::new(16, |i: int| 0u8) || result@
            == low_bytes_first(seed).reverse() + Seq::new(16, |i: int| 0u8),
{
    pad_seed(native_bytes(seed))
}

/// Generate a maze if the size admits one: both dimensions positive, and room
/// for a start and a goal.
pub fn generate_maze<G: Generator>(generator: &mut G, width: i32, height: i32) -> (maze: Option<
    Maze,
>)
    ensures
        maze.is_some() == is_maze_size(width, height),
        maze matches Some(m) ==> {
            &&& m.wf()
            &&& m@.valid()
            &&& m@.size == (width, height)
            &&& m@ == old(generator).outcome(width, height)
        },
        maze.is_none() ==> *final(generator) == *old(generator),
{
    if width <= 0 {
        None
    } else if height <= 0 {
        None
    } else if width == 1 && height == 1 {
        None
    } else {
        Some(generator.generate(width, height))
    }
}

/// Ask the maze for the field at each of its coordinates. Whatever its
/// passages are, a maze answers for all of them.
pub fn all_coordinates_have_fields(maze: &Maze) -> (covered: bool)
    ensures
        covered,
{
    let mut ix: i32 = 0;
    while ix < maze.size.0
        invariant
            0 <= ix,
        decreases maze.size.0 - ix,
    {
        let mut iy: i32 = 0;
        while iy < maze.size.1
            invariant
                0 <= ix < maze.size.0,
                0 <= iy,
            decreases maze.size.1 - iy,
        {
            if maze.get_field(&Coordinates::from((ix, iy))).is_none() {
                return false;
            }
            iy += 1;
        }
        ix += 1;
    }
    true
}

/// Start and goal of the maze are two different cells, and a walk along
/// passages leads from one to the other.
pub open spec fn has_route(maze: MazeView) -> bool {
    maze.start != maze.goal && linked(maze.passages, maze.start, maze.goal)
}

/// Whether start and goal of a maze are two different cells with a walk along
/// passages between them, as the search of the graph library finds it.
pub fn route_from_start_to_goal_exists(maze: Maze) -> (found: bool)
    ensures
        found == has_route(maze@),
{
    let start = maze.start;
    let goal = maze.goal;
    if start == goal {
        return false;
    }
    let graph = MazeGraph::from(maze);
    graph.has_path_connecting(start, goal)
}

/// Whether the passage graph of a maze has exactly one connected component,
/// as the graph library counts them. In a well-formed maze every cell of the
/// rectangle is a node of the graph, so a cell without a passage is a
/// component of its own and none is left out of the count.
pub fn all_fields_connected(maze: Maze) -> (connected: bool)
    ensures
        connected == (components(maze.grid.nodes(), maze@.passages).len() == 1),
        maze.wf() ==> connected == is_one_component(maze@),
{
    let graph = MazeGraph::from(maze);
    graph.connected_components() == 1
}

/// Coverage: a generated maze has a field at all of its coordinates.
pub fn test_all_coordinates_have_fields<G: Generator>(
    generator: G,
    width: i32,
    height: i32,
) -> (verdict: Verdict)
    ensures
        verdict == if is_maze_size(width, height) {
            Verdict::Passed
        } else {
            Verdict::Discarded
        },
{
    let mut generator = generator;
    match generate_maze(&mut generator, width, height) {
        None => Verdict::Discarded,
        Some(maze) => {
            if all_coordinates_have_fields(&maze) {
                Verdict::Passed
            } else {
                Verdict::Failed
            }
        },
    }
}

/// Reachability: start and goal of a generated maze differ, and a route
/// leads from one to the other.
///
/// The verdict is read off the maze that the generator returns. For a
/// generator that keeps its contract it is never `Failed`.
pub fn test_route_from_start_to_goal_exists<G: Generator>(
    generator: G,
    width: i32,
    height: i32,
) -> (verdict: Verdict)
    ensures
        !is_maze_size(width, height) ==> verdict == Verdict::Discarded,
        is_maze_size(width, height) ==> verdict == if has_route(generator.outcome(width, height)) {
            Verdict::Passed
        } else {
            Verdict::Failed
        },
        is_maze_size(width, height) ==> verdict == Verdict::Passed,
{
    let mut generator = generator;
    match generate_maze(&mut generator, width, height) {
        None => Verdict::Discarded,
        Some(maze) => {
            proof {
                lemma_goal_is_reachable(maze@);
            }
            if route_from_start_to_goal_exists(maze) {
                Verdict::Passed
            } else {
                Verdict::Failed
            }
        },
    }
}

/// Connectivity: all fields of a generated maze hang together.
///
/// The verdict is read off the maze that the generator returns. For a
/// generator that keeps its contract it is never `Failed`.
pub fn test_all_fields_connected<G: Generator>(
    generator: G,
    width: i32,
    height: i32,
) -> (verdict: Verdict)
    ensures
        !is_maze_size(width, height) ==> verdict == Verdict::Discarded,
        is_maze_size(width, height) ==> verdict == if is_one_component(
            generator.outcome(width, height),
        ) {
            Verdict::Passed
        } else {
            Verdict::Failed
        },
        is_maze_size(width, height) ==> verdict == Verdict::Passed,
{
    let mut generator = generator;
    match generate_maze(&mut generator, width, height) {
        None => Verdict::Discarded,
        Some(maze) => {
            proof {
                lemma_valid_maze_has_one_component(maze@);
            }
            if all_fields_connected(maze) {
                Verdict::Passed
            } else {
                Verdict::Failed
            }
        },
    }
}

/// Determinism: two generators produce equal mazes for the same size. They
/// do when both were built from the same seed.
pub fn test_generation_is_deterministic<G: Generator>(
    first: G,
    second: G,
    width: i32,
    height: i32,
) -> (verdict: Verdict)
    ensures
        !is_maze_size(width, height) ==> verdict == Verdict::Discarded,
        is_maze_size(width, height) ==> verdict == if first.outcome(width, height)
            == second.outcome(width, height) {
            Verdict::Passed
        } else {
            Verdict::Failed
        },
{
    let mut first = first;
    let mut second = second;
    match generate_maze(&mut first, width, height) {
        None => Verdict::Discarded,
        Some(maze1) => match generate_maze(&mut second, width, height) {
            None => Verdict::Failed,
            Some(maze2) => {
                if maze1 == maze2 {
                    Verdict::Passed
                } else {
                    Verdict::Failed
                }
            },
        },
    }
}

} // verus!
