use vstd::prelude::*;
use petgraph::graphmap::GraphMap;
use petgraph::Undirected;
use crate::grid::{
    components, grid_add_edge, grid_add_node, grid_all_edges, grid_connected_components,
    grid_contains_edge, grid_edges, grid_has_path_connecting, grid_new, grid_nodes, linked, Cell,
};
use crate::prelude::coordinates::Coordinates;
use crate::prelude::maze::Maze;

verus! {

/// The passages of a maze as a plain undirected graph, for the algorithms of
/// graph theory: its nodes are the cells of the maze, with or without a
/// passage, and its edges are the passages.
pub struct MazeGraph {
    graph: GraphMap<(i32, i32), (), Undirected>,
}

impl MazeGraph {
    /// The nodes of the graph.
    pub closed spec fn nodes(&self) -> Set<Cell> {
        grid_nodes(self.graph)
    }

    /// The edges of the graph: `(a, b)` is in the set when an edge joins `a`
    /// and `b`.
    pub closed spec fn edges(&self) -> Set<(Cell, Cell)> {
        grid_edges(self.graph)
    }

    /// A graph without nodes and edges.
    pub(crate) fn new() -> (graph: Self)
        ensures
            graph.nodes() == Set::<Cell>::empty(),
            graph.edges() == Set::<(Cell, Cell)>::empty(),
    {
        MazeGraph { graph: grid_new() }
    }

    /// Make a cell a node of the graph.
    pub(crate) fn add_node(&mut self, cell: Cell)
        ensures
            final(self).nodes() == old(self).nodes().insert(cell),
            final(self).edges() == old(self).edges(),
    {
        grid_add_node(&mut self.graph, cell);
    }

    /// Join two cells by an edge, in both directions.
    pub(crate) fn join(&mut self, a: Cell, b: Cell)
        ensures
            final(self).nodes() == old(self).nodes().insert(a).insert(b),
            final(self).edges() == old(self).edges().insert((a, b)).insert((b, a)),
    {
        grid_add_edge(&mut self.graph, a, b);
    }

    /// Whether an edge joins `a` and `b`.
    pub fn contains_edge(&self, a: Coordinates, b: Coordinates) -> (found: bool)
        ensures
            found == self.edges().contains((a@, b@)),
    {
        grid_contains_edge(&self.graph, (a.x, a.y), (b.x, b.y))
    }

    /// Whether a walk along edges leads from `from` to `to`.
    pub fn has_path_connecting(&self, from: Coordinates, to: Coordinates) -> (found: bool)
        ensures
            found == linked(self.edges(), from@, to@),
    {
        grid_has_path_connecting(&self.graph, (from.x, from.y), (to.x, to.y))
    }

    /// The number of connected components of the graph.
    pub fn connected_components(&self) -> (count: usize)
        ensures
            count == components(self.nodes(), self.edges()).len(),
    {
        grid_connected_components(&self.graph)
    }

    /// Whether every edge of this graph is an edge of the other one too.
    pub fn is_subgraph_of(&self, other: &MazeGraph) -> (within: bool)
        ensures
            within == self.edges().subset_of(other.edges()),
    {
        let list = grid_all_edges(&self.graph);
        let mut i: usize = 0;
        while i < list.len()
            invariant
                i <= list.len(),
                forall|a: Cell, b: Cell| #[trigger]
                    self.edges().contains((a, b)) <==> (list@.contains((a, b)) || list@.contains(
                        (b, a),
                    )),
                forall|k: int|
                    0 <= k < i ==> other.edges().contains(#[trigger] list@[k]) && other.edges().contains(
                        (list@[k].1, list@[k].0),
                    ),
            decreases list.len() - i,
        {
            let (a, b) = list[i];
            assert(list@.contains((a, b)));
            assert(self.edges().contains((a, b)));
            assert(self.edges().contains((b, a)));
            if !grid_contains_edge(&other.graph, a, b) || !grid_contains_edge(&other.graph, b, a) {
                return false;
            }
            i += 1;
        }
        assert forall|edge: (Cell, Cell)| self.edges().contains(edge) implies other.edges().contains(
            edge,
        ) by {
            let (a, b) = edge;
            assert(self.edges().contains((a, b)));
            if list@.contains((a, b)) {
                let k = choose|k: int| 0 <= k < list@.len() && list@[k] == (a, b);
                assert(other.edges().contains(list@[k]));
            } else {
                let k = choose|k: int| 0 <= k < list@.len() && list@[k] == (b, a);
                assert(other.edges().contains(list@[k]));
            }
        }
        true
    }
}

impl From<Maze> for MazeGraph {
    /// The passage graph of a maze, as it is.
    fn from(maze: Maze) -> (graph: Self) {
        maze.grid
    }
}

impl vstd::std_specs::convert::FromSpecImpl<Maze> for MazeGraph {
    open spec fn obeys_from_spec() -> bool {
        true
    }

    open spec fn from_spec(maze: Maze) -> Self {
        maze.grid
    }
}

} // verus!
