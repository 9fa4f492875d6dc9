//! The search for a converter and the steps along a path that was found.

use vstd::prelude::*;
use crate::command::Node;
use crate::graph::{
    find_node, graph_index, is_dac_path, lemma_graph_index, nearest_dac, reaches_dac,
};
use crate::search::{
    lemma_find_dac, lemma_find_dac_nearest, lemma_look, lemma_looked_at_all,
    lemma_search_bounded, spec_find_dac, Search,
};
use crate::widget::{PathNode, Widget};

verus! {

/// Whether the places kept at run time are those of the search.
spec fn mirrors(places: Seq<usize>, model: Seq<int>) -> bool {
    &&& places.len() == model.len()
    &&& forall|k: int| 0 <= k < places.len() ==> places[k] as int == model[k]
}

/// Whether the marks kept at run time say which widgets the search has found.
spec fn marks(seen: Seq<bool>, order: Seq<int>) -> bool {
    forall|i: int| 0 <= i < seen.len() ==> (#[trigger] seen[i] <==> order.contains(i))
}

/// The identifiers from the widget at `place` back to the one the search started from.
fn trace_back(
    nodes: &[PathNode],
    order: &Vec<usize>,
    parents: &Vec<usize>,
    place: usize,
    Ghost(search): Ghost<Search>,
    Ghost(head): Ghost<int>,
) -> (path: Vec<Node>)
    requires
        search.wf(nodes.deep_view(), head, 0),
        mirrors(order@, search.order),
        mirrors(parents@, search.parents),
        place < order.len(),
    ensures
        path@ == search.trace(nodes.deep_view(), place as int),
{
    let ghost graph = nodes.deep_view();
    let mut path: Vec<Node> = Vec::new();
    let mut at = place;
    while at > 0
        invariant
            graph == nodes.deep_view(),
            search.wf(graph, head, 0),
            mirrors(order@, search.order),
            mirrors(parents@, search.parents),
            at <= place < order.len(),
            path@ + search.trace(graph, at as int) == search.trace(graph, place as int),
        decreases at,
    {
        proof {
            assert(search.has_parent(graph, at as int, head));
            assert(search.holds_widget(graph, at as int));
            assert(graph[order[at as int] as int] == nodes[order[at as int] as int]@);
            let node = graph[search.order[at as int]].node();
            let rest = search.trace(graph, search.parents[at as int]);
            assert(path@.push(node) + rest =~= path@ + (seq![node] + rest));
        }
        path.push(nodes[order[at]].node());
        at = parents[at];
    }
    proof {
        assert(search.holds_widget(graph, 0));
        assert(graph[order[0] as int] == nodes[order[0] as int]@);
        assert(path@.push(graph[search.order[0]].node()) =~= path@ + search.trace(graph, 0));
    }
    path.push(nodes[order[0]].node());
    path
}

/// Searches breadth-first, from the widget that `start` names, for the
/// nearest digital-to-analog converter. The queue holds `start` at first; a
/// widget taken from it that is a converter ends the search, any other has
/// the widgets of its connection list queued, in the order of the list,
/// unless they were queued before. A connection to a node that `nodes`
/// lacks is dropped. The path found runs from the converter back to
/// `start`: it is not turned round.
pub fn hda_find_dac(nodes: &[PathNode], start: Node) -> (r: Option<Vec<Node>>)
    ensures
        r is Some <==> reaches_dac(nodes.deep_view(), start),
        r is Some <==> spec_find_dac(nodes.deep_view(), start) is Some,
        r matches Some(path) ==> Some(path@) == spec_find_dac(nodes.deep_view(), start)
            && is_dac_path(nodes.deep_view(), path@, start) && nearest_dac(
            nodes.deep_view(),
            start,
            path@.len() as int,
        ),
{
    let ghost graph = nodes.deep_view();
    proof {
        lemma_find_dac(graph, start);
        lemma_graph_index(graph, start);
    }
    let first = match find_node(nodes, start) {
        Some(i) => i,
        None => {
            return None;
        },
    };
    let n = nodes.len();
    let mut seen: Vec<bool> = Vec::new();
    let mut i: usize = 0;
    while i < n
        invariant
            i <= n,
            seen.len() == i,
            forall|k: int| 0 <= k < i ==> !seen[k],
        decreases n - i,
    {
        seen.push(false);
        i += 1;
    }
    seen[first] = true;
    let mut order: Vec<usize> = Vec::new();
    let mut parents: Vec<usize> = Vec::new();
    order.push(first);
    parents.push(0);
    let ghost mut search = Search::start(first as int);
    let ghost outcome = search.run(graph, 0);
    proof {
        assert(search.holds_widget(graph, 0));
        assert(search.wf(graph, 0, 0));
        assert forall|i: int| 0 <= i < seen.len() implies (#[trigger] seen[i]
            <==> search.order.contains(i)) by {
            if i == first {
                assert(search.order[0] == i);
            }
        }
    }
    let mut head: usize = 0;
    while head < order.len()
        invariant
            graph == nodes.deep_view(),
            n == nodes.len(),
            seen.len() == n,
            search.wf(graph, head as int, 0),
            mirrors(order@, search.order),
            mirrors(parents@, search.parents),
            marks(seen@, search.order),
            search.run(graph, head as int) == outcome,
            outcome == spec_find_dac(graph, start),
        decreases n - head,
    {
        proof {
            lemma_search_bounded(search, graph, head as int, 0);
            assert(search.holds_widget(graph, head as int));
            assert(graph[order[head as int] as int] == nodes[order[head as int] as int]@);
        }
        let pivot = order[head];
        if nodes[pivot].is_dac() {
            proof {
                lemma_find_dac(graph, start);
                lemma_find_dac_nearest(graph, start);
            }
            let path = trace_back(nodes, &order, &parents, head, Ghost(search), Ghost(head as int));
            return Some(path);
        }
        let successors = nodes[pivot].successors();
        let ghost before = search;
        let mut j: usize = 0;
        while j < successors.len()
            invariant
                graph == nodes.deep_view(),
                n == nodes.len(),
                seen.len() == n,
                j <= successors.len(),
                head < order.len(),
                pivot == order[head as int],
                pivot < n,
                search.order[head as int] == pivot,
                successors@ == graph[pivot as int].successors(),
                !graph[pivot as int].is_dac(),
                search.wf(graph, head as int, j as int),
                mirrors(order@, search.order),
                mirrors(parents@, search.parents),
                marks(seen@, search.order),
                search.discover(graph, head as int, successors@, j as int) == before.discover(
                    graph,
                    head as int,
                    successors@,
                    0,
                ),
            decreases successors.len() - j,
        {
            let ghost previous = search;
            proof {
                lemma_look(search, graph, head as int, j as int);
                search = search.look(graph, head as int, successors@[j as int]);
            }
            match find_node(nodes, successors[j]) {
                Some(found) => {
                    if !seen[found] {
                        seen[found] = true;
                        order.push(found);
                        parents.push(head);
                        proof {
                            assert forall|i: int| 0 <= i < seen.len() implies (#[trigger] seen[i]
                                <==> search.order.contains(i)) by {
                                if i == found {
                                    assert(search.order[previous.order.len() as int] == i);
                                } else if previous.order.contains(i) {
                                    let k = choose|k: int|
                                        0 <= k < previous.order.len() && previous.order[k] == i;
                                    assert(search.order[k] == i);
                                } else if search.order.contains(i) {
                                    let k = choose|k: int|
                                        0 <= k < search.order.len() && search.order[k] == i;
                                    assert(previous.order[k] == i);
                                }
                            }
                        }
                    }
                },
                None => {},
            }
            j += 1;
        }
        proof {
            lemma_looked_at_all(search, graph, head as int);
        }
        head += 1;
    }
    proof {
        lemma_find_dac(graph, start);
    }
    None
}

/// The first index from `from` on at which `list` holds `node`.
pub open spec fn first_index(list: Seq<Node>, node: Node, from: int) -> Option<int>
    decreases list.len() - from,
{
    if from < 0 || from >= list.len() {
        None
    } else if list[from] == node {
        Some(from)
    } else {
        first_index(list, node, from + 1)
    }
}

/// The index under which the connection list of the widget that `start`
/// names holds `next`: the first, where it holds it more than once.
pub open spec fn spec_connection_index(graph: Seq<Widget>, start: Node, next: Node) -> Option<int> {
    match graph_index(graph, start) {
        Some(i) => first_index(graph[i].successors(), next, 0),
        None => None,
    }
}

/// The node before the first occurrence, from index `from + 1` on, of `node` in `path`.
pub open spec fn spec_path_next(path: Seq<Node>, node: Node, from: int) -> Option<Node>
    decreases path.len() - from,
{
    if from < 0 || from + 1 >= path.len() {
        None
    } else if path[from + 1] == node {
        Some(path[from])
    } else {
        spec_path_next(path, node, from + 1)
    }
}

/// What is known of an index that `first_index` gives.
pub proof fn lemma_first_index(list: Seq<Node>, node: Node, from: int)
    requires
        0 <= from,
    ensures
        first_index(list, node, from) matches Some(i) ==> from <= i < list.len() && list[i] == node
            && forall|j: int| from <= j < i ==> list[j] != node,
        first_index(list, node, from) is None ==> forall|j: int|
            from <= j < list.len() ==> list[j] != node,
    decreases list.len() - from,
{
    if from < list.len() && list[from] != node {
        lemma_first_index(list, node, from + 1);
    }
}

/// Whether `list` holds `node`.
pub fn contains_node(list: &[Node], node: Node) -> (r: bool)
    ensures
        r == list@.contains(node),
{
    let mut i: usize = 0;
    while i < list.len()
        invariant
            i <= list.len(),
            forall|k: int| 0 <= k < i ==> list@[k] != node,
        decreases list.len() - i,
    {
        if list[i].0 == node.0 {
            return true;
        }
        i += 1;
    }
    false
}

/// Finds the index that selects `next` among the connections of the widget
/// that `start` names.
pub fn find_path_connection_index(nodes: &[PathNode], start: Node, next: Node) -> (r: Option<
    usize,
>)
    ensures
        r is Some <==> spec_connection_index(nodes.deep_view(), start, next) is Some,
        r matches Some(i) ==> spec_connection_index(nodes.deep_view(), start, next) == Some(
            i as int,
        ),
{
    let ghost graph = nodes.deep_view();
    let at = match find_node(nodes, start) {
        Some(at) => at,
        None => {
            return None;
        },
    };
    assert(graph[at as int] == nodes[at as int]@);
    let successors = nodes[at].successors();
    let mut i: usize = 0;
    while i < successors.len()
        invariant
            i <= successors.len(),
            graph == nodes.deep_view(),
            graph_index(graph, start) == Some(at as int),
            successors@ == graph[at as int].successors(),
            first_index(successors@, next, 0) == first_index(successors@, next, i as int),
        decreases successors.len() - i,
    {
        if successors[i].0 == next.0 {
            return Some(i);
        }
        i += 1;
    }
    None
}

/// The node that follows `node` on the way to the converter. The path runs
/// from the converter back to the pin, so that node stands before `node`.
pub fn get_path_next_node(path: &[Node], node: Node) -> (r: Option<Node>)
    ensures
        r == spec_path_next(path@, node, 0),
{
    let mut i: usize = 0;
    while i < path.len() && i + 1 < path.len()
        invariant
            i <= path.len(),
            spec_path_next(path@, node, 0) == spec_path_next(path@, node, i as int),
        decreases path.len() - i,
    {
        if path[i + 1].0 == node.0 {
            return Some(path[i]);
        }
        i += 1;
    }
    None
}

} // verus!
