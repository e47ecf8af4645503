//! The passage graph: a `petgraph` graph map whose nodes are pairs of integers.
//!
//! Verus does not look into `petgraph`. What the library relies on is written
//! down here as contracts that are believed, not proved; everything else in
//! the library is proved from them.

use vstd::prelude::*;
use petgraph::graphmap::GraphMap;
use petgraph::Undirected;
use std::hash::BuildHasher;

verus! {

/// A cell of the grid as a plain pair (x, y): the node identifier of the graph.
pub type Cell = (i32, i32);

/// `petgraph::Undirected`: the marker of graphs whose edges have no direction.
/// It has no values.
#[verifier::external_type_specification]
#[verifier::external_body]
pub struct ExUndirected(Undirected);

/// `petgraph::graphmap::GraphMap`: a graph that is addressed by the values
/// of its nodes. Nothing of its inside is known here; `grid_nodes` and
/// `grid_edges` name what it holds.
#[verifier::external_type_specification]
#[verifier::external_body]
#[verifier::reject_recursive_types(N)]
#[verifier::reject_recursive_types(E)]
#[verifier::reject_recursive_types(Ty)]
#[verifier::reject_recursive_types(S)]
pub struct ExGraphMap<N, E, Ty, S: BuildHasher>(GraphMap<N, E, Ty, S>);

/// The nodes of a graph.
pub uninterp spec fn grid_nodes(grid: GraphMap<(i32, i32), (), Undirected>) -> Set<(i32, i32)>;

/// The edges of a graph: `(a, b)` is in the set exactly when an edge joins `a`
/// and `b`. The graph is undirected, so the wrappers keep the set symmetric.
pub uninterp spec fn grid_edges(grid: GraphMap<(i32, i32), (), Undirected>) -> Set<
    ((i32, i32), (i32, i32)),
>;

/// A walk is a sequence of at least one cell in which an edge joins each cell
/// to the one that follows it.
pub open spec fn is_walk(edges: Set<(Cell, Cell)>, walk: Seq<Cell>) -> bool {
    &&& walk.len() > 0
    &&& forall|i: int, j: int|
        0 <= i && j == i + 1 && j < walk.len() ==> edges.contains(
            (#[trigger] walk[i], #[trigger] walk[j]),
        )
}

/// Two cells are linked when a walk leads from one to the other. Every cell
/// is linked to itself.
pub open spec fn linked(edges: Set<(Cell, Cell)>, from: Cell, to: Cell) -> bool {
    exists|walk: Seq<Cell>| #[trigger] is_walk(edges, walk) && walk[0] == from && walk.last() == to
}

/// The connected component of a cell: all cells that are linked to it.
pub open spec fn component(edges: Set<(Cell, Cell)>, of: Cell) -> Set<Cell> {
    Set::new(|cell: Cell| linked(edges, of, cell))
}

/// The set of the connected components of the nodes of a graph.
pub open spec fn components(nodes: Set<Cell>, edges: Set<(Cell, Cell)>) -> Set<Set<Cell>> {
    Set::new(
        |part: Set<Cell>|
            exists|node: Cell| nodes.contains(node) && part == #[trigger] component(edges, node),
    )
}

/// `GraphMap::new`: a graph without nodes and edges.
#[verifier::external_body]
pub(crate) fn grid_new() -> (grid: GraphMap<(i32, i32), (), Undirected>)
    ensures
        grid_nodes(grid) == Set::<Cell>::empty(),
        grid_edges(grid) == Set::<(Cell, Cell)>::empty(),
{
    GraphMap::new()
}

/// `GraphMap::add_node`: makes `node` a node of the graph, if it is none yet.
/// The edges stay as they are.
#[verifier::external_body]
pub(crate) fn grid_add_node(grid: &mut GraphMap<(i32, i32), (), Undirected>, node: Cell)
    ensures
        grid_nodes(*final(grid)) == grid_nodes(*old(grid)).insert(node),
        grid_edges(*final(grid)) == grid_edges(*old(grid)),
{
    grid.add_node(node);
}

/// `GraphMap::add_edge`: joins `a` and `b`, in both directions, and makes
/// both of them nodes. Nothing else changes; an edge that was there stays.
#[verifier::external_body]
pub(crate) fn grid_add_edge(grid: &mut GraphMap<(i32, i32), (), Undirected>, a: Cell, b: Cell)
    ensures
        grid_nodes(*final(grid)) == grid_nodes(*old(grid)).insert(a).insert(b),
        grid_edges(*final(grid)) == grid_edges(*old(grid)).insert((a, b)).insert((b, a)),
{
    grid.add_edge(a, b, ());
}

/// `GraphMap::contains_edge`: whether an edge joins `a` and `b`.
#[verifier::external_body]
pub(crate) fn grid_contains_edge(grid: &GraphMap<(i32, i32), (), Undirected>, a: Cell, b: Cell) -> (found: bool)
    ensures
        found == grid_edges(*grid).contains((a, b)),
{
    grid.contains_edge(a, b)
}

/// `GraphMap::all_edges`: the edges of the graph as a list. An edge that
/// joins `a` and `b` is listed as `(a, b)` or as `(b, a)`, and nothing else is
/// listed.
#[verifier::external_body]
pub(crate) fn grid_all_edges(grid: &GraphMap<(i32, i32), (), Undirected>) -> (list: Vec<(Cell, Cell)>)
    ensures
        forall|a: Cell, b: Cell| #[trigger]
            grid_edges(*grid).contains((a, b)) <==> (list@.contains((a, b)) || list@.contains(
                (b, a),
            )),
{
    grid.all_edges().map(|(a, b, _)| (a, b)).collect()
}

/// `petgraph::algo::has_path_connecting`: whether a walk along edges leads
/// from `from` to `to`. A cell reaches itself.
#[verifier::external_body]
pub(crate) fn grid_has_path_connecting(
    grid: &GraphMap<(i32, i32), (), Undirected>,
    from: Cell,
    to: Cell,
) -> (found: bool)
    ensures
        found == linked(grid_edges(*grid), from, to),
{
    petgraph::algo::has_path_connecting(grid, from, to, None)
}

/// `petgraph::algo::connected_components`: the number of connected
/// components of the graph. A node without edges is a component of its own.
#[verifier::external_body]
pub(crate) fn grid_connected_components(grid: &GraphMap<(i32, i32), (), Undirected>) -> (count: usize)
    ensures
        count == components(grid_nodes(*grid), grid_edges(*grid)).len(),
{
    petgraph::algo::connected_components(grid)
}

} // verus!
