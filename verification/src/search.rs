//! The breadth-first search for the nearest converter, as a function on
//! graphs, and the proofs of what it finds.

use vstd::prelude::*;
use crate::command::Node;
use crate::graph::{
    edge, graph_index, is_dac_path, is_route, lemma_graph_index, names_dac, nearest_dac,
    reaches_dac,
};
use crate::widget::Widget;

verus! {

/// State of a breadth-first search: the widgets found so far, by their
/// position in the graph and in the order in which they were found, and for
/// each the place in that order of the widget whose connection list led to it.
pub struct Search {
    pub order: Seq<int>,
    pub parents: Seq<int>,
}

impl Search {
    /// The search that has found the widget at `index` and nothing else.
    pub open spec fn start(index: int) -> Search {
        Search { order: seq![index], parents: seq![0int] }
    }

    /// The search after the widget at `index` was found through the widget at place `head`.
    pub open spec fn found(self, index: int, head: int) -> Search {
        Search { order: self.order.push(index), parents: self.parents.push(head) }
    }

    /// The search after one connection of the widget at place `head` was
    /// looked at: the widget that `node` names is added unless it was found
    /// before; a connection that names no widget is passed over.
    pub open spec fn look(self, graph: Seq<Widget>, head: int, node: Node) -> Search {
        match graph_index(graph, node) {
            Some(i) => if self.order.contains(i) {
                self
            } else {
                self.found(i, head)
            },
            None => self,
        }
    }

    /// The search after the connections `successors[from..]` of the widget at
    /// place `head` were looked at, in their order.
    pub open spec fn discover(
        self,
        graph: Seq<Widget>,
        head: int,
        successors: Seq<Node>,
        from: int,
    ) -> Search
        decreases successors.len() - from,
    {
        if from < 0 || from >= successors.len() {
            self
        } else {
            self.look(graph, head, successors[from]).discover(graph, head, successors, from + 1)
        }
    }

    /// The nodes from the widget at `place` back to the one the search
    /// started from, each followed by the one that led to it.
    pub open spec fn trace(self, graph: Seq<Widget>, place: int) -> Seq<Node>
        decreases place,
    {
        if 0 < place < self.order.len() && 0 <= self.parents[place] < place {
            seq![graph[self.order[place]].node()] + self.trace(graph, self.parents[place])
        } else {
            seq![graph[self.order[0]].node()]
        }
    }

    /// The outcome of the search from place `head` on: the widgets are taken
    /// in the order in which they were found; the first that is a converter
    /// ends the search with the trace back from it, any other has its
    /// connections looked at; when none is left no converter can be reached.
    pub open spec fn run(self, graph: Seq<Widget>, head: int) -> Option<Seq<Node>>
        decreases graph.len() - head,
    {
        if head < 0 || head >= self.order.len() || head >= graph.len() {
            None
        } else {
            let widget = graph[self.order[head]];
            if widget.is_dac() {
                Some(self.trace(graph, head))
            } else {
                self.discover(graph, head, widget.successors(), 0).run(graph, head + 1)
            }
        }
    }
}

impl Search {
    /// The search as it stands when it ends, from place `head` on: with a
    /// converter at the place where it stopped, or with every widget done.
    pub open spec fn end(self, graph: Seq<Widget>, head: int) -> Search
        decreases graph.len() - head,
    {
        if head < 0 || head >= self.order.len() || head >= graph.len() {
            self
        } else {
            let widget = graph[self.order[head]];
            if widget.is_dac() {
                self
            } else {
                self.discover(graph, head, widget.successors(), 0).end(graph, head + 1)
            }
        }
    }
}

/// The widgets that a breadth-first search from `start` visits, by their
/// positions in the graph and in the order in which it finds them.
pub open spec fn spec_visited(graph: Seq<Widget>, start: Node) -> Seq<int> {
    match graph_index(graph, start) {
        Some(i) => Search::start(i).end(graph, 0).order,
        None => Seq::empty(),
    }
}

/// The path that a breadth-first search from `start` finds: from the first
/// converter reached, in the order of discovery, back to `start`. Widgets are
/// discovered level by level and, within one connection list, in the order
/// of its indices.
pub open spec fn spec_find_dac(graph: Seq<Widget>, start: Node) -> Option<Seq<Node>> {
    match graph_index(graph, start) {
        Some(i) => Search::start(i).run(graph, 0),
        None => None,
    }
}

impl Search {
    /// Whether place `k` holds a widget of the graph that its own identifier names.
    pub open spec fn holds_widget(self, graph: Seq<Widget>, k: int) -> bool {
        &&& 0 <= self.order[k] < graph.len()
        &&& graph_index(graph, graph[self.order[k]].node()) == Some(self.order[k])
    }

    /// Whether the widget at place `k` was found through a widget before it
    /// that is no converter, is not beyond place `head`, and names it in its
    /// connection list.
    pub open spec fn has_parent(self, graph: Seq<Widget>, k: int, head: int) -> bool {
        &&& 0 <= self.parents[k] < k
        &&& self.parents[k] <= head
        &&& !graph[self.order[self.parents[k]]].is_dac()
        &&& graph[self.order[self.parents[k]]].successors().contains(graph[self.order[k]].node())
    }

    /// Whether the connection at index `j` of the widget at place `k` needs
    /// no more looking at: it names no widget, or one that was found.
    pub open spec fn covered(self, graph: Seq<Widget>, k: int, j: int) -> bool {
        graph_index(graph, graph[self.order[k]].successors()[j]) matches Some(i)
            ==> self.order.contains(i)
    }

    /// Whether the widget at place `k` is no converter and all its connections are covered.
    pub open spec fn processed(self, graph: Seq<Widget>, k: int) -> bool {
        &&& !graph[self.order[k]].is_dac()
        &&& forall|j: int|
            0 <= j < graph[self.order[k]].successors().len() ==> #[trigger] self.covered(
                graph,
                k,
                j,
            )
    }

    /// The invariant of the search when the widgets before place `head` are
    /// done and the first `done` connections of the widget at `head` have
    /// been looked at: no widget was found twice, each but the first has a
    /// parent, and what was looked at is covered.
    pub open spec fn wf(self, graph: Seq<Widget>, head: int, done: int) -> bool {
        &&& self.order.len() == self.parents.len()
        &&& self.order.len() >= 1
        &&& 0 <= head <= self.order.len()
        &&& self.order.no_duplicates()
        &&& self.parents[0] == 0
        &&& forall|k: int| 0 <= k < self.order.len() ==> #[trigger] self.holds_widget(graph, k)
        &&& forall|k: int| 1 <= k < self.order.len() ==> #[trigger] self.has_parent(graph, k, head)
        &&& forall|k: int| 0 <= k < head ==> #[trigger] self.processed(graph, k)
        &&& head < self.order.len() ==> forall|j: int|
            0 <= j < done && j < graph[self.order[head]].successors().len()
                ==> #[trigger] self.covered(graph, head, j)
    }

    /// Whether `other` has found what `self` has, in the same order, and
    /// maybe more after it.
    pub open spec fn extended_by(self, other: Search) -> bool {
        &&& self.order.len() <= other.order.len()
        &&& self.parents.len() <= other.parents.len()
        &&& forall|k: int| 0 <= k < self.order.len() ==> self.order[k] == other.order[k]
        &&& forall|k: int| 0 <= k < self.parents.len() ==> self.parents[k] == other.parents[k]
    }
}

/// A search never holds more widgets than the graph has.
pub(crate) proof fn lemma_search_bounded(search: Search, graph: Seq<Widget>, head: int, done: int)
    requires
        search.wf(graph, head, done),
    ensures
        search.order.len() <= graph.len(),
{
    let found = search.order.to_set();
    let all = vstd::set_lib::set_int_range(0, graph.len() as int);
    search.order.unique_seq_to_set();
    vstd::set_lib::lemma_int_range(0, graph.len() as int);
    assert forall|i: int| found.contains(i) implies all.contains(i) by {
        let k = choose|k: int| 0 <= k < search.order.len() && search.order[k] == i;
        assert(search.holds_widget(graph, k));
    }
    vstd::set_lib::lemma_len_subset(found, all);
}

/// Looking at one more connection of the widget at `head` keeps the invariant.
pub(crate) proof fn lemma_look(search: Search, graph: Seq<Widget>, head: int, from: int)
    requires
        0 <= head < search.order.len(),
        search.wf(graph, head, from),
        !graph[search.order[head]].is_dac(),
        0 <= from < graph[search.order[head]].successors().len(),
    ensures
        search.look(graph, head, graph[search.order[head]].successors()[from]).wf(
            graph,
            head,
            from + 1,
        ),
        search.extended_by(search.look(graph, head, graph[search.order[head]].successors()[from])),
{
    let successors = graph[search.order[head]].successors();
    let next = search.look(graph, head, successors[from]);
    lemma_graph_index(graph, successors[from]);
    assert(search.holds_widget(graph, head));
    if next != search {
        let i = graph_index(graph, successors[from])->0;
        let n = search.order.len() as int;
        assert(next.order[n] == i);
        assert forall|k: int| 0 <= k < next.order.len() implies #[trigger] next.holds_widget(
            graph,
            k,
        ) by {
            if k < n {
                assert(search.holds_widget(graph, k));
            }
        }
        assert forall|k: int| 1 <= k < next.order.len() implies #[trigger] next.has_parent(
            graph,
            k,
            head,
        ) by {
            if k < n {
                assert(search.has_parent(graph, k, head));
            }
        }
        assert forall|k: int| 0 <= k < head implies #[trigger] next.processed(graph, k) by {
            assert(search.processed(graph, k));
            assert forall|j: int|
                0 <= j < graph[next.order[k]].successors().len() implies #[trigger] next.covered(
                graph,
                k,
                j,
            ) by {
                assert(search.covered(graph, k, j));
                lemma_contains_after_push(
                    search.order,
                    i,
                    graph,
                    graph[search.order[k]].successors()[j],
                );
            }
        }
        assert forall|j: int|
            0 <= j < from + 1 && j < successors.len() implies #[trigger] next.covered(
            graph,
            head,
            j,
        ) by {
            if j < from {
                assert(search.covered(graph, head, j));
                lemma_contains_after_push(search.order, i, graph, successors[j]);
            } else {
                assert(next.order[n] == i);
            }
        }
        assert(next.order.no_duplicates()) by {
            assert forall|a: int, b: int|
                0 <= a < next.order.len() && 0 <= b < next.order.len() && a
                    != b implies next.order[a] != next.order[b] by {
                if a < n && b < n {
                } else if a < n {
                    assert(search.order.contains(search.order[a]));
                } else {
                    assert(search.order.contains(search.order[b]));
                }
            }
        }
    } else {
        assert forall|j: int|
            0 <= j < from + 1 && j < successors.len() implies #[trigger] next.covered(
            graph,
            head,
            j,
        ) by {
            if j < from {
                assert(search.covered(graph, head, j));
            }
        }
    }
}

/// Once all connections of the widget at `head` were looked at, the widget is done.
pub(crate) proof fn lemma_looked_at_all(search: Search, graph: Seq<Widget>, head: int)
    requires
        0 <= head < search.order.len(),
        search.wf(graph, head, graph[search.order[head]].successors().len() as int),
        !graph[search.order[head]].is_dac(),
    ensures
        search.wf(graph, head + 1, 0),
{
    let successors = graph[search.order[head]].successors();
    assert forall|k: int| 0 <= k < head + 1 implies #[trigger] search.processed(graph, k) by {
        if k == head {
            assert forall|j: int| 0 <= j < successors.len() implies #[trigger] search.covered(
                graph,
                head,
                j,
            ) by {}
        }
    }
    assert forall|k: int| 1 <= k < search.order.len() implies #[trigger] search.has_parent(
        graph,
        k,
        head + 1,
    ) by {
        assert(search.has_parent(graph, k, head));
    }
}

/// Looking at the connections of the widget at `head` keeps the invariant
/// and covers them all.
proof fn lemma_discover(search: Search, graph: Seq<Widget>, head: int, from: int)
    requires
        0 <= head < search.order.len(),
        search.wf(graph, head, from),
        !graph[search.order[head]].is_dac(),
        0 <= from <= graph[search.order[head]].successors().len(),
    ensures
        search.discover(graph, head, graph[search.order[head]].successors(), from).wf(
            graph,
            head + 1,
            0,
        ),
        search.extended_by(
            search.discover(graph, head, graph[search.order[head]].successors(), from),
        ),
    decreases graph[search.order[head]].successors().len() - from,
{
    let successors = graph[search.order[head]].successors();
    if from >= successors.len() {
        lemma_looked_at_all(search, graph, head);
    } else {
        lemma_look(search, graph, head, from);
        lemma_discover(search.look(graph, head, successors[from]), graph, head, from + 1);
    }
}

/// What a search held, it holds after one more widget was found.
proof fn lemma_contains_after_push(order: Seq<int>, found: int, graph: Seq<Widget>, node: Node)
    requires
        graph_index(graph, node) matches Some(i) ==> order.contains(i),
    ensures
        graph_index(graph, node) matches Some(i) ==> order.push(found).contains(i),
{
    match graph_index(graph, node) {
        Some(i) => {
            let k = choose|k: int| 0 <= k < order.len() && order[k] == i;
            assert(order.push(found)[k] == i);
        },
        None => {},
    }
}

/// The trace back from a place of a search is made of widgets found at or
/// before that place, starts at the widget of the place and ends at the one
/// the search started from, with each node named by the connection list of
/// the node after it.
proof fn lemma_trace(search: Search, graph: Seq<Widget>, head: int, done: int, place: int)
    requires
        search.wf(graph, head, done),
        0 <= place < search.order.len(),
    ensures
        search.trace(graph, place).len() >= 1,
        search.trace(graph, place)[0] == graph[search.order[place]].node(),
        search.trace(graph, place).last() == graph[search.order[0]].node(),
        forall|k: int|
            0 <= k < search.trace(graph, place).len() - 1 ==> edge(
                graph,
                #[trigger] search.trace(graph, place)[k + 1],
                search.trace(graph, place)[k],
            ),
        forall|k: int|
            0 < k < search.trace(graph, place).len() ==> !names_dac(
                graph,
                #[trigger] search.trace(graph, place)[k],
            ),
        forall|k: int|
            0 <= k < search.trace(graph, place).len() ==> exists|q: int|
                0 <= q <= place && (k > 0 ==> q < place) && #[trigger] search.trace(graph, place)[k]
                    == graph[search.order[q]].node(),
        search.trace(graph, place).no_duplicates(),
    decreases place,
{
    let path = search.trace(graph, place);
    assert(search.holds_widget(graph, place));
    assert(search.holds_widget(graph, 0));
    if place > 0 {
        assert(search.has_parent(graph, place, head));
        let parent = search.parents[place];
        let rest = search.trace(graph, parent);
        lemma_trace(search, graph, head, done, parent);
        assert(path == seq![graph[search.order[place]].node()] + rest);
        assert(search.holds_widget(graph, parent));
        assert forall|k: int| 0 <= k < path.len() - 1 implies edge(
            graph,
            #[trigger] path[k + 1],
            path[k],
        ) by {
            if k == 0 {
                assert(path[1] == rest[0]);
            } else {
                assert(path[k + 1] == rest[k - 1 + 1]);
                assert(path[k] == rest[k - 1]);
            }
        }
        assert forall|k: int| 0 < k < path.len() implies !names_dac(graph, #[trigger] path[k]) by {
            if k == 1 {
                assert(path[1] == rest[0]);
            } else {
                assert(path[k] == rest[k - 1]);
            }
        }
        assert forall|k: int| 0 <= k < path.len() implies exists|q: int|
            0 <= q <= place && (k > 0 ==> q < place) && #[trigger] path[k]
                == graph[search.order[q]].node() by {
            if k == 0 {
                assert(path[0] == graph[search.order[place]].node());
            } else {
                assert(path[k] == rest[k - 1]);
                let q = choose|q: int|
                    0 <= q <= parent && (k - 1 > 0 ==> q < parent) && rest[k - 1]
                        == graph[search.order[q]].node();
                assert(path[k] == graph[search.order[q]].node());
            }
        }
        assert forall|a: int, b: int|
            0 <= a < path.len() && 0 <= b < path.len() && a != b implies path[a] != path[b] by {
            if a > 0 && b > 0 {
                assert(path[a] == rest[a - 1]);
                assert(path[b] == rest[b - 1]);
            } else {
                let c = if a > 0 {
                    a
                } else {
                    b
                };
                assert(path[c] == rest[c - 1]);
                let q = choose|q: int|
                    0 <= q <= parent && (c - 1 > 0 ==> q < parent) && rest[c - 1]
                        == graph[search.order[q]].node();
                assert(search.holds_widget(graph, q));
                assert(search.order[q] != search.order[place]);
            }
        }
    } else {
        assert(path =~= seq![graph[search.order[0]].node()]);
    }
}

/// Where a search that holds its invariant ends with a path, the path leads
/// from a converter back to the widget that the search started from.
proof fn lemma_run_sound(search: Search, graph: Seq<Widget>, head: int)
    requires
        search.wf(graph, head, 0),
    ensures
        search.run(graph, head) matches Some(path) ==> is_dac_path(
            graph,
            path,
            graph[search.order[0]].node(),
        ),
    decreases graph.len() - head,
{
    if head < search.order.len() && head < graph.len() {
        let widget = graph[search.order[head]];
        assert(search.holds_widget(graph, head));
        assert(search.holds_widget(graph, 0));
        if widget.is_dac() {
            lemma_trace(search, graph, head, 0, head);
        } else {
            let next = search.discover(graph, head, widget.successors(), 0);
            lemma_discover(search, graph, head, 0);
            lemma_run_sound(next, graph, head + 1);
        }
    }
}

/// In a search that is done with every widget it found, every walk from the
/// first widget stays among the widgets found.
proof fn lemma_closed(search: Search, graph: Seq<Widget>, route: Seq<Node>, k: int)
    requires
        search.wf(graph, search.order.len() as int, 0),
        is_route(graph, route),
        route[0] == graph[search.order[0]].node(),
        0 <= k < route.len(),
    ensures
        graph_index(graph, route[k]) matches Some(i) && search.order.contains(i),
    decreases k,
{
    assert(search.holds_widget(graph, 0));
    if k > 0 {
        lemma_closed(search, graph, route, k - 1);
        assert(edge(graph, route[k - 1], route[k - 1 + 1]));
        let i = graph_index(graph, route[k - 1])->0;
        let p = choose|p: int| 0 <= p < search.order.len() && search.order[p] == i;
        assert(search.processed(graph, p));
        let successors = graph[i].successors();
        let j = choose|j: int| 0 <= j < successors.len() && successors[j] == route[k];
        assert(search.covered(graph, p, j));
    }
}

/// Where a search that holds its invariant ends without a path, no walk
/// from the widget that the search started from leads to a converter.
proof fn lemma_run_complete(search: Search, graph: Seq<Widget>, head: int)
    requires
        search.wf(graph, head, 0),
    ensures
        search.run(graph, head) is None ==> !reaches_dac(graph, graph[search.order[0]].node()),
    decreases graph.len() - head,
{
    lemma_search_bounded(search, graph, head, 0);
    if head < search.order.len() {
        let widget = graph[search.order[head]];
        if !widget.is_dac() {
            let next = search.discover(graph, head, widget.successors(), 0);
            lemma_discover(search, graph, head, 0);
            lemma_run_complete(next, graph, head + 1);
        }
    } else {
        assert forall|route: Seq<Node>|
            is_route(graph, route) && route[0] == graph[search.order[0]].node() implies !names_dac(
            graph,
            #[trigger] route.last(),
        ) by {
            lemma_closed(search, graph, route, route.len() - 1);
            let i = graph_index(graph, route.last())->0;
            let p = choose|p: int| 0 <= p < search.order.len() && search.order[p] == i;
            assert(search.processed(graph, p));
        }
    }
}

/// A path from a converter back to `start`, read backwards, is a walk from
/// `start` to the converter.
proof fn lemma_path_is_route(graph: Seq<Widget>, path: Seq<Node>, start: Node)
    requires
        is_dac_path(graph, path, start),
    ensures
        reaches_dac(graph, start),
{
    let route = path.reverse();
    assert forall|k: int| 0 <= k < route.len() - 1 implies edge(
        graph,
        #[trigger] route[k],
        route[k + 1],
    ) by {
        let m = path.len() - 2 - k;
        assert(edge(graph, path[m + 1], path[m]));
    }
    assert(route.last() == path[0]);
    assert(is_route(graph, route) && route[0] == start && names_dac(graph, route.last()));
}

/// A search that holds its invariant holds it when it ends; the result is
/// the place at which it ends.
proof fn lemma_end(search: Search, graph: Seq<Widget>, head: int) -> (at: int)
    requires
        search.wf(graph, head, 0),
    ensures
        search.end(graph, head).wf(graph, at, 0),
    decreases graph.len() - head,
{
    if head < search.order.len() && head < graph.len() && !graph[search.order[head]].is_dac() {
        let widget = graph[search.order[head]];
        lemma_discover(search, graph, head, 0);
        lemma_end(search.discover(graph, head, widget.successors(), 0), graph, head + 1)
    } else {
        head
    }
}

/// The search visits no widget twice, however the connections run: what it
/// visits are widgets of the graph, each once, so that it ends after no
/// more steps than the graph has widgets.
pub proof fn lemma_visits_once(graph: Seq<Widget>, start: Node)
    ensures
        spec_visited(graph, start).no_duplicates(),
        spec_visited(graph, start).len() <= graph.len(),
        forall|k: int|
            0 <= k < spec_visited(graph, start).len() ==> 0 <= #[trigger] spec_visited(
                graph,
                start,
            )[k] < graph.len(),
{
    lemma_graph_index(graph, start);
    if graph_index(graph, start) is Some {
        let search = Search::start(graph_index(graph, start)->0);
        assert(search.holds_widget(graph, 0));
        assert(search.wf(graph, 0, 0));
        let at = lemma_end(search, graph, 0);
        let last = search.end(graph, 0);
        lemma_search_bounded(last, graph, at, 0);
        assert forall|k: int| 0 <= k < last.order.len() implies 0 <= #[trigger] last.order[k]
            < graph.len() by {
            assert(last.holds_widget(graph, k));
        }
    }
}

/// The breadth-first search finds a path exactly when some walk along
/// connections leads from `start` to a converter, and what it finds leads
/// from a converter back to `start` without reaching a node twice.
pub proof fn lemma_find_dac(graph: Seq<Widget>, start: Node)
    ensures
        spec_find_dac(graph, start) is Some <==> reaches_dac(graph, start),
        spec_find_dac(graph, start) matches Some(path) ==> is_dac_path(graph, path, start),
{
    lemma_graph_index(graph, start);
    match graph_index(graph, start) {
        Some(i) => {
            let search = Search::start(i);
            assert(search.holds_widget(graph, 0));
            assert(search.wf(graph, 0, 0));
            lemma_run_sound(search, graph, 0);
            lemma_run_complete(search, graph, 0);
            if let Some(path) = search.run(graph, 0) {
                lemma_path_is_route(graph, path, start);
            }
        },
        None => {
            assert forall|route: Seq<Node>| is_route(graph, route) implies route[0] != start by {}
        },
    }
}

impl Search {
    /// Number of connections on the way from the widget that the search
    /// started from to the widget at place `k`.
    pub open spec fn depth(self, k: int) -> int
        decreases k,
    {
        if 0 < k < self.order.len() && 0 <= self.parents[k] < k {
            1 + self.depth(self.parents[k])
        } else {
            0
        }
    }

    /// Whether the widget at position `index` of the graph was found, not
    /// more than `bound` connections away from the start.
    pub open spec fn placed_within(self, index: int, bound: int) -> bool {
        exists|k: int|
            0 <= k < self.order.len() && #[trigger] self.order[k] == index && self.depth(k)
                <= bound
    }

    /// Whether the connection at index `j` of the widget at place `p` names
    /// no widget, or one that was found not more than one connection further
    /// from the start than that widget.
    pub open spec fn reached_by(self, graph: Seq<Widget>, p: int, j: int) -> bool {
        graph_index(graph, graph[self.order[p]].successors()[j]) matches Some(i)
            ==> self.placed_within(i, self.depth(p) + 1)
    }

    /// Whether the widgets were found level by level: none lies nearer to
    /// the start than one found before it, none more than one connection
    /// further than the widget at `head`, and what the connections looked at
    /// name lies not more than one connection further than their widget.
    pub open spec fn levelled(self, graph: Seq<Widget>, head: int, done: int) -> bool {
        &&& forall|a: int, b: int|
            0 <= a <= b < self.order.len() ==> #[trigger] self.depth(a) <= #[trigger] self.depth(b)
        &&& head < self.order.len() ==> forall|b: int|
            0 <= b < self.order.len() ==> #[trigger] self.depth(b) <= self.depth(head) + 1
        &&& forall|p: int, j: int|
            0 <= p < head && 0 <= j < graph[self.order[p]].successors().len()
                ==> #[trigger] self.reached_by(graph, p, j)
        &&& head < self.order.len() ==> forall|j: int|
            0 <= j < done && j < graph[self.order[head]].successors().len()
                ==> #[trigger] self.reached_by(graph, head, j)
    }
}

/// A widget stays as far from the start as it was when more widgets are found.
proof fn lemma_depth_extended(search: Search, next: Search, k: int)
    requires
        search.extended_by(next),
        search.order.len() == search.parents.len(),
        0 <= k < search.order.len(),
    ensures
        next.depth(k) == search.depth(k),
    decreases k,
{
    if 0 < k && 0 <= search.parents[k] < k {
        lemma_depth_extended(search, next, search.parents[k]);
    }
}

/// The trace back from a place has one node more than the place lies
/// connections away from the start.
proof fn lemma_trace_len(search: Search, graph: Seq<Widget>, head: int, done: int, place: int)
    requires
        search.wf(graph, head, done),
        0 <= place < search.order.len(),
    ensures
        search.trace(graph, place).len() == search.depth(place) + 1,
    decreases place,
{
    if place > 0 {
        assert(search.has_parent(graph, place, head));
        lemma_trace_len(search, graph, head, done, search.parents[place]);
    }
}

/// Looking at one more connection of the widget at `head` keeps the levels.
proof fn lemma_look_levelled(search: Search, graph: Seq<Widget>, head: int, from: int)
    requires
        0 <= head < search.order.len(),
        search.wf(graph, head, from),
        search.levelled(graph, head, from),
        !graph[search.order[head]].is_dac(),
        0 <= from < graph[search.order[head]].successors().len(),
    ensures
        search.look(graph, head, graph[search.order[head]].successors()[from]).levelled(
            graph,
            head,
            from + 1,
        ),
{
    let successors = graph[search.order[head]].successors();
    let next = search.look(graph, head, successors[from]);
    let n = search.order.len() as int;
    lemma_look(search, graph, head, from);
    assert forall|k: int| 0 <= k < n implies next.depth(k) == search.depth(k) by {
        lemma_depth_extended(search, next, k);
    }
    assert forall|index: int, bound: int|
        search.placed_within(index, bound) implies next.placed_within(index, bound) by {
        let k = choose|k: int|
            0 <= k < search.order.len() && #[trigger] search.order[k] == index && search.depth(k)
                <= bound;
        assert(next.order[k] == index);
    }
    if next != search {
        let i = graph_index(graph, successors[from])->0;
        assert(next.order[n] == i);
        assert(next.parents[n] == head);
        assert(next.depth(n) == 1 + next.depth(head));
        assert(next.placed_within(i, next.depth(head) + 1));
    } else if graph_index(graph, successors[from]) is Some {
        let i = graph_index(graph, successors[from])->0;
        let k = choose|k: int| 0 <= k < search.order.len() && search.order[k] == i;
        assert(search.depth(k) <= search.depth(head) + 1);
        assert(search.placed_within(i, search.depth(head) + 1));
    }
    assert forall|a: int, b: int| 0 <= a <= b < next.order.len() implies #[trigger] next.depth(a)
        <= #[trigger] next.depth(b) by {
        if b < n {
            assert(search.depth(a) <= search.depth(b));
        } else if a < n {
            assert(search.depth(a) <= search.depth(head) + 1);
        }
    }
    assert forall|b: int| 0 <= b < next.order.len() implies #[trigger] next.depth(b) <= next.depth(
        head,
    ) + 1 by {
        if b < n {
            assert(search.depth(b) <= search.depth(head) + 1);
        }
    }
    assert forall|p: int, j: int|
        0 <= p < head && 0 <= j < graph[next.order[p]].successors().len()
            implies #[trigger] next.reached_by(graph, p, j) by {
        assert(search.reached_by(graph, p, j));
    }
    assert forall|j: int|
        0 <= j < from + 1 && j < successors.len() implies #[trigger] next.reached_by(
        graph,
        head,
        j,
    ) by {
        if j < from {
            assert(search.reached_by(graph, head, j));
        }
    }
}

/// Once all connections of the widget at `head` were looked at, the levels
/// hold for the next widget.
proof fn lemma_looked_at_all_levelled(search: Search, graph: Seq<Widget>, head: int)
    requires
        0 <= head < search.order.len(),
        search.wf(graph, head, graph[search.order[head]].successors().len() as int),
        search.levelled(graph, head, graph[search.order[head]].successors().len() as int),
    ensures
        search.levelled(graph, head + 1, 0),
{
    assert forall|p: int, j: int|
        0 <= p < head + 1 && 0 <= j < graph[search.order[p]].successors().len()
            implies #[trigger] search.reached_by(graph, p, j) by {}
    if head + 1 < search.order.len() {
        assert forall|b: int| 0 <= b < search.order.len() implies #[trigger] search.depth(b)
            <= search.depth(head + 1) + 1 by {
            assert(search.depth(b) <= search.depth(head) + 1);
            assert(search.depth(head) <= search.depth(head + 1));
        }
    }
}

/// Looking at the connections of the widget at `head` keeps the levels.
proof fn lemma_discover_levelled(search: Search, graph: Seq<Widget>, head: int, from: int)
    requires
        0 <= head < search.order.len(),
        search.wf(graph, head, from),
        search.levelled(graph, head, from),
        !graph[search.order[head]].is_dac(),
        0 <= from <= graph[search.order[head]].successors().len(),
    ensures
        search.discover(graph, head, graph[search.order[head]].successors(), from).levelled(
            graph,
            head + 1,
            0,
        ),
    decreases graph[search.order[head]].successors().len() - from,
{
    let successors = graph[search.order[head]].successors();
    if from >= successors.len() {
        lemma_looked_at_all_levelled(search, graph, head);
    } else {
        lemma_look(search, graph, head, from);
        lemma_look_levelled(search, graph, head, from);
        lemma_discover_levelled(search.look(graph, head, successors[from]), graph, head, from + 1);
    }
}

/// In a search that goes level by level, a walk from the start that is
/// shorter than the way to the widget at `head` stays among the widgets
/// that are done, each not further from the start than along the walk.
proof fn lemma_walk_levelled(
    search: Search,
    graph: Seq<Widget>,
    head: int,
    route: Seq<Node>,
    k: int,
)
    requires
        0 <= head < search.order.len(),
        search.wf(graph, head, 0),
        search.levelled(graph, head, 0),
        is_route(graph, route),
        route[0] == graph[search.order[0]].node(),
        0 <= k < route.len(),
        k < search.depth(head),
    ensures
        graph_index(graph, route[k]) matches Some(i) && search.placed_within(i, k),
    decreases k,
{
    assert(search.holds_widget(graph, 0));
    if k == 0 {
        assert(search.order[0] == graph_index(graph, route[0])->0);
        assert(search.placed_within(search.order[0], 0));
    } else {
        lemma_walk_levelled(search, graph, head, route, k - 1);
        assert(edge(graph, route[k - 1], route[k - 1 + 1]));
        let i = graph_index(graph, route[k - 1])->0;
        let p = choose|p: int|
            0 <= p < search.order.len() && #[trigger] search.order[p] == i && search.depth(p) <= k
                - 1;
        if p >= head {
            assert(search.depth(head) <= search.depth(p));
        }
        let successors = graph[i].successors();
        let j = choose|j: int| 0 <= j < successors.len() && successors[j] == route[k];
        assert(search.reached_by(graph, p, j));
        let target = graph_index(graph, route[k])->0;
        let q = choose|q: int|
            0 <= q < search.order.len() && #[trigger] search.order[q] == target && search.depth(q)
                <= search.depth(p) + 1;
        assert(search.order[q] == target && search.depth(q) <= k);
    }
}

/// Where a search that goes level by level ends with a path, no walk from
/// the start to a converter has fewer nodes than the path.
proof fn lemma_run_nearest(search: Search, graph: Seq<Widget>, head: int, route: Seq<Node>)
    requires
        search.wf(graph, head, 0),
        search.levelled(graph, head, 0),
        search.run(graph, head) is Some,
        is_route(graph, route),
        route[0] == graph[search.order[0]].node(),
        names_dac(graph, route.last()),
    ensures
        search.run(graph, head)->0.len() <= route.len(),
    decreases graph.len() - head,
{
    if head < search.order.len() && head < graph.len() {
        let widget = graph[search.order[head]];
        if widget.is_dac() {
            lemma_trace_len(search, graph, head, 0, head);
            let last = route.len() - 1;
            if last < search.depth(head) {
                lemma_walk_levelled(search, graph, head, route, last);
                let i = graph_index(graph, route.last())->0;
                let q = choose|q: int|
                    0 <= q < search.order.len() && #[trigger] search.order[q] == i && search.depth(
                        q,
                    ) <= last;
                if q >= head {
                    assert(search.depth(head) <= search.depth(q));
                }
                assert(search.processed(graph, q));
            }
        } else {
            let next = search.discover(graph, head, widget.successors(), 0);
            lemma_discover(search, graph, head, 0);
            lemma_discover_levelled(search, graph, head, 0);
            assert(next.order[0] == search.order[0]);
            lemma_run_nearest(next, graph, head + 1, route);
        }
    }
}

/// The path that the search finds is not longer than any walk from
/// `start` to a converter.
proof fn lemma_find_dac_shorter(graph: Seq<Widget>, start: Node, route: Seq<Node>)
    requires
        is_route(graph, route),
        route[0] == start,
        names_dac(graph, route.last()),
    ensures
        spec_find_dac(graph, start) matches Some(path) && path.len() <= route.len(),
{
    lemma_find_dac(graph, start);
    lemma_graph_index(graph, start);
    assert(reaches_dac(graph, start));
    let i = graph_index(graph, start)->0;
    let search = Search::start(i);
    assert(search.holds_widget(graph, 0));
    assert(search.wf(graph, 0, 0));
    assert(search.levelled(graph, 0, 0));
    lemma_run_nearest(search, graph, 0, route);
}

/// The path that the search finds leads to a nearest converter: no walk
/// along connections from `start` to a converter has fewer nodes.
pub proof fn lemma_find_dac_nearest(graph: Seq<Widget>, start: Node)
    ensures
        spec_find_dac(graph, start) matches Some(path) ==> nearest_dac(
            graph,
            start,
            path.len() as int,
        ),
{
    if spec_find_dac(graph, start) is Some {
        let path = spec_find_dac(graph, start)->0;
        assert forall|route: Seq<Node>|
            is_route(graph, route) && route[0] == start && names_dac(
                graph,
                #[trigger] route.last(),
            ) implies path.len() <= route.len() by {
            lemma_find_dac_shorter(graph, start, route);
        }
    }
}

} // verus!
