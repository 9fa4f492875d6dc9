//! The routing graph of a codec: widgets by identifier, connections between
//! them, and what it means for a path to lead to a converter.

use vstd::prelude::*;
use crate::command::Node;
use crate::widget::{PathNode, Widget};

verus! {

/// Position in `graph` of the widget that `node` names: where several
/// widgets carry the identifier, the last of them.
pub open spec fn graph_index(graph: Seq<Widget>, node: Node) -> Option<int>
    decreases graph.len(),
{
    if graph.len() == 0 {
        None
    } else if graph.last().node() == node {
        Some(graph.len() - 1)
    } else {
        graph_index(graph.drop_last(), node)
    }
}

/// Whether the connection list of the widget that `from` names holds `to`,
/// and `to` names a widget too. A connection to a node that the graph lacks
/// is no edge.
pub open spec fn edge(graph: Seq<Widget>, from: Node, to: Node) -> bool {
    &&& graph_index(graph, from) matches Some(i)
    &&& graph[i].successors().contains(to)
    &&& graph_index(graph, to) is Some
}

/// Whether `node` names a digital-to-analog converter of the graph.
pub open spec fn names_dac(graph: Seq<Widget>, node: Node) -> bool {
    graph_index(graph, node) matches Some(i) && graph[i].is_dac()
}

/// Whether `path` leads from a converter back to the widget it serves: it
/// starts at a converter and ends at `start`, each node is named by the
/// connection list of the node after it, no node but the first is a
/// converter, and no node lies on it twice.
pub open spec fn is_dac_path(graph: Seq<Widget>, path: Seq<Node>, start: Node) -> bool {
    &&& path.len() > 0
    &&& path.last() == start
    &&& names_dac(graph, path[0])
    &&& graph_index(graph, start) is Some
    &&& forall|k: int| 0 <= k < path.len() - 1 ==> edge(graph, #[trigger] path[k + 1], path[k])
    &&& forall|k: int| 0 < k < path.len() ==> !names_dac(graph, #[trigger] path[k])
    &&& path.no_duplicates()
}

/// Whether `route` is a walk through the graph along connections, from its
/// first node on.
pub open spec fn is_route(graph: Seq<Widget>, route: Seq<Node>) -> bool {
    &&& route.len() > 0
    &&& graph_index(graph, route[0]) is Some
    &&& forall|k: int| 0 <= k < route.len() - 1 ==> edge(graph, #[trigger] route[k], route[k + 1])
}

/// Whether some walk along connections leads from `start` to a converter.
pub open spec fn reaches_dac(graph: Seq<Widget>, start: Node) -> bool {
    exists|route: Seq<Node>|
        is_route(graph, route) && route[0] == start && names_dac(graph, #[trigger] route.last())
}

/// Whether no walk along connections from `start` to a converter has fewer
/// than `nodes` nodes.
pub open spec fn nearest_dac(graph: Seq<Widget>, start: Node, nodes: int) -> bool {
    forall|route: Seq<Node>|
        is_route(graph, route) && route[0] == start && names_dac(graph, #[trigger] route.last())
            ==> nodes <= route.len()
}

/// What is known of a position that `graph_index` gives.
pub proof fn lemma_graph_index(graph: Seq<Widget>, node: Node)
    ensures
        graph_index(graph, node) matches Some(i) ==> 0 <= i < graph.len() && graph[i].node() == node
            && forall|j: int| i < j < graph.len() ==> graph[j].node() != node,
        graph_index(graph, node) is None ==> forall|j: int|
            0 <= j < graph.len() ==> graph[j].node() != node,
    decreases graph.len(),
{
    if graph.len() > 0 && graph.last().node() != node {
        let rest = graph.drop_last();
        lemma_graph_index(rest, node);
        assert forall|j: int| 0 <= j < graph.len() - 1 implies graph[j] == rest[j] by {}
        match graph_index(rest, node) {
            Some(i) => {
                assert(graph[i] == rest[i]);
                assert forall|j: int| i < j < graph.len() implies graph[j].node() != node by {
                    if j < graph.len() - 1 {
                        assert(graph[j] == rest[j]);
                    }
                }
            },
            None => {
                assert forall|j: int| 0 <= j < graph.len() implies graph[j].node() != node by {
                    if j < graph.len() - 1 {
                        assert(graph[j] == rest[j]);
                    }
                }
            },
        }
    }
}

/// Finds the widget that `node` names.
pub fn find_node(nodes: &[PathNode], node: Node) -> (r: Option<usize>)
    ensures
        r is Some <==> graph_index(nodes.deep_view(), node) is Some,
        r matches Some(i) ==> graph_index(nodes.deep_view(), node) == Some(i as int) && i
            < nodes.len(),
{
    let ghost graph = nodes.deep_view();
    let mut i: usize = nodes.len();
    assert(graph.take(i as int) =~= graph);
    while i > 0
        invariant
            i <= nodes.len(),
            graph == nodes.deep_view(),
            graph_index(graph, node) == graph_index(graph.take(i as int), node),
        decreases i,
    {
        i -= 1;
        proof {
            assert(graph.take(i + 1).drop_last() =~= graph.take(i as int));
            assert(graph.take(i + 1).last() == nodes[i as int]@);
        }
        if nodes[i].node().0 == node.0 {
            return Some(i);
        }
    }
    assert(graph.take(0).len() == 0);
    None
}

} // verus!
