//! What holds of every maze that meets the contract of the generators.

use vstd::prelude::*;
use vstd::set_lib::{lemma_int_range, lemma_set_subset_finite, set_int_range};
use crate::grid::{component, components, is_walk, linked, Cell};
use crate::prelude::coordinates::distance;
use crate::prelude::generator::Generator;
use crate::prelude::maze::{cells, MazeView};

verus! {

/// The cells of the maze, with the passages between them, are one connected
/// component: no cell is cut off from the others.
pub open spec fn is_one_component(maze: MazeView) -> bool {
    components(cells(maze), maze.passages).len() == 1
}

/// Whether every edge can be walked in both directions.
pub open spec fn symmetric(edges: Set<(Cell, Cell)>) -> bool {
    forall|a: Cell, b: Cell| edges.contains((a, b)) ==> edges.contains((b, a))
}

/// An edge in front of a walk makes a longer walk.
pub proof fn lemma_linked_by_edge_and_walk(edges: Set<(Cell, Cell)>, a: Cell, b: Cell, c: Cell)
    requires
        edges.contains((a, b)),
        linked(edges, b, c),
    ensures
        linked(edges, a, c),
{
    let rest = choose|walk: Seq<Cell>| #[trigger]
        is_walk(edges, walk) && walk[0] == b && walk.last() == c;
    let walk = seq![a] + rest;
    assert forall|i: int, j: int| 0 <= i && j == i + 1 && j < walk.len() implies edges.contains(
        (#[trigger] walk[i], #[trigger] walk[j]),
    ) by {
        if i > 0 {
            assert(walk[i] == rest[i - 1] && walk[j] == rest[j - 1]);
        }
    }
    assert(is_walk(edges, walk) && walk[0] == a && walk.last() == c);
}

/// Two walks, the second starting where the first ends, make one walk.
pub proof fn lemma_linked_is_transitive(edges: Set<(Cell, Cell)>, a: Cell, b: Cell, c: Cell)
    requires
        linked(edges, a, b),
        linked(edges, b, c),
    ensures
        linked(edges, a, c),
{
    let first = choose|walk: Seq<Cell>| #[trigger]
        is_walk(edges, walk) && walk[0] == a && walk.last() == b;
    let second = choose|walk: Seq<Cell>| #[trigger]
        is_walk(edges, walk) && walk[0] == b && walk.last() == c;
    let walk = first + second.drop_first();
    assert forall|i: int, j: int| 0 <= i && j == i + 1 && j < walk.len() implies edges.contains(
        (#[trigger] walk[i], #[trigger] walk[j]),
    ) by {
        if j < first.len() {
            assert(walk[i] == first[i] && walk[j] == first[j]);
        } else if i < first.len() {
            assert(walk[i] == first.last() && first.last() == second[0]);
            assert(walk[j] == second[1]);
        } else {
            assert(walk[i] == second[i - first.len() + 1]);
            assert(walk[j] == second[j - first.len() + 1]);
        }
    }
    assert(is_walk(edges, walk) && walk[0] == a && walk.last() == c);
}

/// Where every edge can be walked both ways, so can every walk.
pub proof fn lemma_linked_is_symmetric(edges: Set<(Cell, Cell)>, a: Cell, b: Cell)
    requires
        symmetric(edges),
        linked(edges, a, b),
    ensures
        linked(edges, b, a),
{
    let there = choose|walk: Seq<Cell>| #[trigger]
        is_walk(edges, walk) && walk[0] == a && walk.last() == b;
    let back = there.reverse();
    assert forall|i: int, j: int| 0 <= i && j == i + 1 && j < back.len() implies edges.contains(
        (#[trigger] back[i], #[trigger] back[j]),
    ) by {
        let n = there.len();
        assert(back[i] == there[n - 1 - i] && back[j] == there[n - 1 - j]);
        assert(edges.contains((there[n - 1 - j], there[n - 1 - i])));
    }
    assert(is_walk(edges, back) && back[0] == b && back.last() == a);
}

/// A walk along the passages of a well-formed maze that starts in the
/// rectangle ends in it.
pub proof fn lemma_walks_stay_inside(maze: MazeView, walk: Seq<Cell>)
    requires
        maze.well_formed(),
        is_walk(maze.passages, walk),
        maze.inside(walk[0]),
    ensures
        maze.inside(walk.last()),
{
    if walk.len() > 1 {
        let i = walk.len() - 2;
        let j = walk.len() - 1;
        assert(maze.has_passage(walk[i], walk[j]));
    }
}

/// Connectivity: the passage graph of a valid maze has exactly one connected
/// component, and that component is the whole rectangle: no cell is left out.
pub proof fn lemma_valid_maze_has_one_component(maze: MazeView)
    requires
        maze.valid(),
    ensures
        components(cells(maze), maze.passages) == set![cells(maze)],
        components(cells(maze), maze.passages).len() == 1,
{
    let parts = components(cells(maze), maze.passages);
    assert forall|node: Cell| cells(maze).contains(node) implies #[trigger] component(
        maze.passages,
        node,
    ) == cells(maze) by {
        assert forall|cell: Cell| linked(maze.passages, node, cell) implies maze.inside(cell) by {
            let walk = choose|walk: Seq<Cell>| #[trigger]
                is_walk(maze.passages, walk) && walk[0] == node && walk.last() == cell;
            lemma_walks_stay_inside(maze, walk);
        }
        assert(component(maze.passages, node) =~= cells(maze));
    }
    assert(cells(maze).contains(maze.start));
    assert(parts.contains(component(maze.passages, maze.start)));
    assert(parts =~= set![cells(maze)]);
}

/// The cells of row `y` that lie west of column `width`.
spec fn row(width: int, y: int) -> Set<Cell> {
    Set::new(|cell: Cell| 0 <= cell.0 < width && cell.1 == y)
}

/// The cells north of row `height` that lie west of column `width`.
spec fn block(width: int, height: int) -> Set<Cell> {
    Set::new(|cell: Cell| 0 <= cell.0 < width && 0 <= cell.1 < height)
}

proof fn lemma_row_is_finite(width: int, y: int)
    ensures
        row(width, y).finite(),
{
    let columns = set_int_range(
        0,
        if width < 0 {
            0
        } else {
            width
        },
    );
    let place = |x: int| (x as i32, y as i32);
    lemma_int_range(
        0,
        if width < 0 {
            0
        } else {
            width
        },
    );
    columns.lemma_map_finite(place);
    assert forall|cell: Cell| row(width, y).contains(cell) implies columns.map(place).contains(
        cell,
    ) by {
        assert(columns.contains(cell.0 as int) && place(cell.0 as int) == cell);
    }
    lemma_set_subset_finite(columns.map(place), row(width, y));
}

proof fn lemma_block_is_finite(width: int, height: int)
    ensures
        block(width, height).finite(),
    decreases height,
{
    if height <= 0 {
        assert(block(width, height) =~= Set::<Cell>::empty());
    } else {
        lemma_block_is_finite(width, height - 1);
        lemma_row_is_finite(width, height - 1);
        assert(block(width, height) =~= block(width, height - 1).union(row(width, height - 1)));
    }
}

/// The rectangle of a maze has finitely many cells, and so the passage graph
/// has finitely many connected components.
pub proof fn lemma_cells_are_finite(maze: MazeView)
    ensures
        cells(maze).finite(),
        components(cells(maze), maze.passages).finite(),
{
    lemma_block_is_finite(maze.size.0 as int, maze.size.1 as int);
    assert(cells(maze) =~= block(maze.size.0 as int, maze.size.1 as int));
    let part_of = |cell: Cell| component(maze.passages, cell);
    cells(maze).lemma_map_finite(part_of);
    assert(components(cells(maze), maze.passages) =~= cells(maze).map(part_of));
}

/// Counting components and asking for walks come to the same: the cells of a
/// maze are one connected component exactly when there is a cell at all and a
/// walk leads from every cell to every other.
pub proof fn lemma_one_component_means_connected(maze: MazeView)
    ensures
        is_one_component(maze) <==> (maze.size.0 > 0 && maze.size.1 > 0 && maze.connected()),
{
    let edges = maze.passages;
    let parts = components(cells(maze), edges);
    lemma_cells_are_finite(maze);
    Set::lemma_is_singleton(parts);
    assert forall|cell: Cell| maze.inside(cell) implies linked(edges, cell, cell) by {
        let alone = seq![cell];
        assert(is_walk(edges, alone) && alone[0] == cell && alone.last() == cell);
    }
    if maze.size.0 > 0 && maze.size.1 > 0 && maze.connected() {
        let corner: Cell = (0, 0);
        assert(maze.inside(corner));
        assert forall|cell: Cell| maze.inside(cell) implies #[trigger] component(edges, cell)
            == component(edges, corner) by {
            assert forall|other: Cell| linked(edges, cell, other) == linked(
                edges,
                corner,
                other,
            ) by {
                assert(linked(edges, cell, corner) && linked(edges, corner, cell));
                if linked(edges, cell, other) {
                    lemma_linked_is_transitive(edges, corner, cell, other);
                }
                if linked(edges, corner, other) {
                    lemma_linked_is_transitive(edges, cell, corner, other);
                }
            }
            assert(component(edges, cell) =~= component(edges, corner));
        }
        assert(cells(maze).contains(corner));
        assert(parts =~= set![component(edges, corner)]);
    }
    if is_one_component(maze) {
        assert(parts.is_singleton());
        let part = parts.choose();
        assert(parts.contains(part));
        let node = choose|node: Cell| cells(maze).contains(node) && part == component(edges, node);
        assert(maze.inside(node));
        assert forall|a: Cell, b: Cell| maze.inside(a) && maze.inside(b) implies #[trigger] linked(
            edges,
            a,
            b,
        ) by {
            assert(cells(maze).contains(a) && cells(maze).contains(b));
            assert(parts.contains(component(edges, a)));
            assert(parts.contains(component(edges, b)));
            assert(component(edges, a) == component(edges, b));
            assert(component(edges, b).contains(b));
            assert(component(edges, a).contains(b));
        }
    }
}

/// Reachability and distinct endpoints: in a valid maze start and goal are
/// two different cells, and a walk along passages leads from one to the other.
pub proof fn lemma_goal_is_reachable(maze: MazeView)
    requires
        maze.valid(),
    ensures
        maze.start != maze.goal,
        linked(maze.passages, maze.start, maze.goal),
        linked(maze.passages, maze.goal, maze.start),
{
}

/// Adjacency discipline: a passage of a well-formed maze joins two cells of
/// the rectangle whose Manhattan distance is exactly 1, and can be walked in
/// both directions.
pub proof fn lemma_passages_join_neighbours(maze: MazeView, a: Cell, b: Cell)
    requires
        maze.well_formed(),
        maze.has_passage(a, b),
    ensures
        distance(a, b) == 1,
        maze.inside(a),
        maze.inside(b),
        maze.has_passage(b, a),
{
}

/// Determinism: two generators that were built from the same seed produce
/// equal mazes for the same size.
pub proof fn lemma_same_seed_same_maze<G: Generator>(
    first: G,
    second: G,
    seed: [u8; 32],
    width: i32,
    height: i32,
)
    requires
        first == G::seeded(seed),
        second == G::seeded(seed),
    ensures
        first.outcome(width, height) == second.outcome(width, height),
{
}

/// A maze of a single cell is never valid: start and goal would have to share
/// the cell.
pub proof fn lemma_single_cell_is_no_maze(maze: MazeView)
    requires
        maze.size == (1i32, 1i32),
    ensures
        !maze.valid(),
{
}

/// A valid maze of two cells side by side has the one passage that is
/// possible there.
pub proof fn lemma_two_cells_are_joined(maze: MazeView)
    requires
        maze.valid(),
        maze.size == (2i32, 1i32),
    ensures
        maze.has_passage((0, 0), (1, 0)),
        maze.has_passage((1, 0), (0, 0)),
{
    let left: Cell = (0, 0);
    let right: Cell = (1, 0);
    assert(maze.inside(left) && maze.inside(right));
    assert(linked(maze.passages, left, right));
    let walk = choose|walk: Seq<Cell>| #[trigger]
        is_walk(maze.passages, walk) && walk[0] == left && walk.last() == right;
    assert(maze.has_passage(walk[0], walk[1]));
}

} // verus!
