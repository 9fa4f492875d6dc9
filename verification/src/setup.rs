//! The plan that routes the playback stream through a codec: which widgets
//! to activate, for which pins, and which to silence.

use vstd::prelude::*;
use crate::command::Node;
use crate::node_map::NodeMap;
use crate::path::{
    contains_node, find_path_connection_index, get_path_next_node, hda_find_dac,
    spec_connection_index, spec_path_next,
};
use crate::search::{lemma_find_dac, spec_find_dac};
use crate::widget::{PathNode, Widget};

verus! {

/// Stream tag that playback uses, at its place in the channel and stream verb's operand.
pub const PLAYBACK_STREAM_TAG: u8 = 0x10;

/// One thing to do to a widget while an output path is set up.
#[derive(Clone, Copy, Debug, PartialEq, Eq, Structural)]
pub enum WidgetAction {
    /// Bring the widget to full power.
    PowerUp { node: Node },
    /// Enable the output of the widget's pin control.
    EnableOutput { node: Node },
    /// Unmute the output amplifier at its 0 dB gain.
    Unmute { node: Node },
    /// Switch the external amplifier on, where the widget controls one.
    EnableEapd { node: Node },
    /// Select the connection with this index.
    Select { node: Node, index: usize },
    /// Write the stream tag; 0 takes the widget off every stream.
    SetStream { node: Node, tag: u8 },
    /// Write the sample format.
    SetFormat { node: Node, format: u16 },
    /// Mute the output amplifier.
    Mute { node: Node },
}

impl WidgetAction {
    /// The widget that the action is done to.
    pub open spec fn spec_node(&self) -> Node {
        match *self {
            WidgetAction::PowerUp { node } => node,
            WidgetAction::EnableOutput { node } => node,
            WidgetAction::Unmute { node } => node,
            WidgetAction::EnableEapd { node } => node,
            WidgetAction::Select { node, .. } => node,
            WidgetAction::SetStream { node, .. } => node,
            WidgetAction::SetFormat { node, .. } => node,
            WidgetAction::Mute { node } => node,
        }
    }

    /// The widget that the action is done to.
    #[verifier::when_used_as_spec(spec_node)]
    pub fn node(&self) -> (r: Node)
        ensures
            r == self.spec_node(),
    {
        match *self {
            WidgetAction::PowerUp { node } => node,
            WidgetAction::EnableOutput { node } => node,
            WidgetAction::Unmute { node } => node,
            WidgetAction::EnableEapd { node } => node,
            WidgetAction::Select { node, .. } => node,
            WidgetAction::SetStream { node, .. } => node,
            WidgetAction::SetFormat { node, .. } => node,
            WidgetAction::Mute { node } => node,
        }
    }
}

/// The nodes that lie on a path set up so far, and what to do for them.
pub struct Plan {
    pub active: Set<Node>,
    pub actions: Seq<WidgetAction>,
}

/// The selection that puts `widget` on `path`: the index, in its connection
/// list, of the node that follows it toward the converter.
pub open spec fn selection(graph: Seq<Widget>, widget: Widget, path: Seq<Node>) -> Seq<
    WidgetAction,
> {
    match spec_path_next(path, widget.node(), 0) {
        Some(next) => match spec_connection_index(graph, widget.node(), next) {
            Some(index) => seq![
                WidgetAction::Select { node: widget.node(), index: index as usize },
            ],
            None => Seq::empty(),
        },
        None => Seq::empty(),
    }
}

/// What activates `widget` as part of `path`: unmute it, power its external
/// amplifier, select the next node of the path, and give it the stream tag
/// and the format where it is a converter or a mixer.
pub open spec fn activation(
    graph: Seq<Widget>,
    widget: Widget,
    path: Seq<Node>,
    format: u16,
) -> Seq<
    WidgetAction,
> {
    seq![
        WidgetAction::Unmute { node: widget.node() },
        WidgetAction::EnableEapd { node: widget.node() },
    ] + selection(graph, widget, path) + if widget.takes_stream() {
        seq![
            WidgetAction::SetStream { node: widget.node(), tag: PLAYBACK_STREAM_TAG },
            WidgetAction::SetFormat { node: widget.node(), format },
        ]
    } else {
        Seq::empty()
    }
}

/// What activates the first `upto` widgets of the graph that lie on `path`
/// and were not active before, in the order of the graph.
pub open spec fn path_actions(
    graph: Seq<Widget>,
    upto: int,
    path: Seq<Node>,
    active: Set<Node>,
    format: u16,
) -> Seq<WidgetAction>
    decreases upto,
{
    if upto <= 0 {
        Seq::empty()
    } else {
        let widget = graph[upto - 1];
        path_actions(graph, upto - 1, path, active, format) + if !active.contains(widget.node())
            && path.contains(widget.node()) {
            activation(graph, widget, path, format)
        } else {
            Seq::empty()
        }
    }
}

/// Whether a pass that looks for headphones, or one that does not, takes
/// `widget` as a pin to serve.
pub open spec fn candidate(widget: Widget, headphones: bool) -> bool {
    widget is PinComplex && widget.is_headphones() == headphones
}

/// The plan after one pass has gone over the first `upto` widgets: for each
/// candidate pin from which a converter is found, the widgets of the path
/// that were not active yet are activated, and the whole path is active
/// from then on.
pub open spec fn pass(graph: Seq<Widget>, headphones: bool, upto: int, format: u16) -> Plan
    decreases upto,
{
    if upto <= 0 {
        Plan { active: Set::empty(), actions: Seq::empty() }
    } else {
        let before = pass(graph, headphones, upto - 1, format);
        let pin = graph[upto - 1];
        if candidate(pin, headphones) {
            match spec_find_dac(graph, pin.node()) {
                Some(path) => Plan {
                    active: before.active.union(path.to_set()),
                    actions: before.actions + path_actions(
                        graph,
                        graph.len() as int,
                        path,
                        before.active,
                        format,
                    ),
                },
                None => before,
            }
        } else {
            before
        }
    }
}

/// The pass that counts: the one over the headphone jacks if it activated
/// anything, else the one over the other pins.
pub open spec fn chosen(graph: Seq<Widget>, format: u16) -> Plan {
    let first = pass(graph, true, graph.len() as int, format);
    if first.active =~= Set::empty() {
        pass(graph, false, graph.len() as int, format)
    } else {
        first
    }
}

/// What silences `widget`: mute it and, where it is a converter or a mixer,
/// take it off the stream and clear its format.
pub open spec fn silence(widget: Widget) -> Seq<WidgetAction> {
    seq![WidgetAction::Mute { node: widget.node() }] + if widget.takes_stream() {
        seq![
            WidgetAction::SetStream { node: widget.node(), tag: 0 },
            WidgetAction::SetFormat { node: widget.node(), format: 0 },
        ]
    } else {
        Seq::empty()
    }
}

/// What silences those of the first `upto` widgets that are not active.
pub open spec fn silence_rest(graph: Seq<Widget>, upto: int, active: Set<Node>) -> Seq<
    WidgetAction,
>
    decreases upto,
{
    if upto <= 0 {
        Seq::empty()
    } else {
        silence_rest(graph, upto - 1, active) + if active.contains(graph[upto - 1].node()) {
            Seq::empty()
        } else {
            silence(graph[upto - 1])
        }
    }
}

/// Everything to do to the widgets of a codec to route the playback stream
/// to its outputs: the activations of the pass that counts, then the
/// silencing of every widget that no path touched.
pub open spec fn spec_setup_stream(graph: Seq<Widget>, format: u16) -> Seq<WidgetAction> {
    chosen(graph, format).actions + silence_rest(
        graph,
        graph.len() as int,
        chosen(graph, format).active,
    )
}

/// A pass that has activated no node has nothing to do.
pub proof fn lemma_idle_pass(graph: Seq<Widget>, headphones: bool, upto: int, format: u16)
    requires
        pass(graph, headphones, upto, format).active =~= Set::empty(),
    ensures
        pass(graph, headphones, upto, format).actions =~= Seq::empty(),
    decreases upto,
{
    if upto > 0 {
        let before = pass(graph, headphones, upto - 1, format);
        let pin = graph[upto - 1];
        if candidate(pin, headphones) && spec_find_dac(graph, pin.node()) is Some {
            let path = spec_find_dac(graph, pin.node())->0;
            lemma_find_dac(graph, pin.node());
            assert(path.to_set().contains(path[0]));
            assert(before.active.union(path.to_set()).contains(path[0]));
        } else {
            lemma_idle_pass(graph, headphones, upto - 1, format);
        }
    }
}

/// What a pass has made active holds the path of every pin that it served.
proof fn lemma_pass_serves(
    graph: Seq<Widget>,
    headphones: bool,
    upto: int,
    format: u16,
    index: int,
)
    requires
        0 <= index < upto <= graph.len(),
        candidate(graph[index], headphones),
        spec_find_dac(graph, graph[index].node()) is Some,
    ensures
        forall|k: int|
            0 <= k < spec_find_dac(graph, graph[index].node())->0.len() ==> pass(
                graph,
                headphones,
                upto,
                format,
            ).active.contains(#[trigger] spec_find_dac(graph, graph[index].node())->0[k]),
    decreases upto,
{
    let path = spec_find_dac(graph, graph[index].node())->0;
    if index < upto - 1 {
        lemma_pass_serves(graph, headphones, upto - 1, format, index);
    } else {
        assert forall|k: int| 0 <= k < path.len() implies path.to_set().contains(
            #[trigger] path[k],
        ) by {}
    }
}

/// Headphones come first: where a headphone jack with something plugged in
/// reaches a converter, the plan serves the headphone jacks and no other
/// pin, and the widgets on the way from that jack are active.
pub proof fn lemma_headphones_first(graph: Seq<Widget>, format: u16, index: int)
    requires
        0 <= index < graph.len(),
        candidate(graph[index], true),
        spec_find_dac(graph, graph[index].node()) is Some,
    ensures
        chosen(graph, format) == pass(graph, true, graph.len() as int, format),
        forall|k: int|
            0 <= k < spec_find_dac(graph, graph[index].node())->0.len() ==> chosen(
                graph,
                format,
            ).active.contains(#[trigger] spec_find_dac(graph, graph[index].node())->0[k]),
{
    let path = spec_find_dac(graph, graph[index].node())->0;
    lemma_pass_serves(graph, true, graph.len() as int, format, index);
    lemma_find_dac(graph, graph[index].node());
    assert(pass(graph, true, graph.len() as int, format).active.contains(path[0]));
}

/// Whether `action` activates a widget, as part of a path.
pub open spec fn activates(action: WidgetAction) -> bool {
    !(action is Mute) && !(action is PowerUp) && !(action is EnableOutput)
}

/// What activates a widget is done to that widget, and begins with unmuting it.
proof fn lemma_activation(graph: Seq<Widget>, widget: Widget, path: Seq<Node>, format: u16)
    ensures
        activation(graph, widget, path, format).contains(
            WidgetAction::Unmute { node: widget.node() },
        ),
        forall|k: int|
            0 <= k < activation(graph, widget, path, format).len() ==> activates(
                #[trigger] activation(graph, widget, path, format)[k],
            ) && activation(graph, widget, path, format)[k].spec_node() == widget.node(),
        forall|k: int|
            0 <= k < activation(graph, widget, path, format).len() && (#[trigger] activation(
                graph,
                widget,
                path,
                format,
            )[k]) is SetStream ==> widget.takes_stream(),
{
    let actions = activation(graph, widget, path, format);
    assert(actions[0] == WidgetAction::Unmute { node: widget.node() });
}

/// The activations for a path are done to widgets that lie on the path and
/// were not active, and every such widget among those looked at is unmuted.
proof fn lemma_path_actions(
    graph: Seq<Widget>,
    upto: int,
    path: Seq<Node>,
    active: Set<Node>,
    format: u16,
)
    requires
        0 <= upto <= graph.len(),
    ensures
        forall|k: int|
            0 <= k < path_actions(graph, upto, path, active, format).len() ==> {
                let action = #[trigger] path_actions(graph, upto, path, active, format)[k];
                activates(action) && path.contains(action.spec_node()) && !active.contains(
                    action.spec_node(),
                )
            },
        forall|j: int|
            0 <= j < upto && path.contains(graph[j].node()) && !active.contains(graph[j].node())
                ==> path_actions(graph, upto, path, active, format).contains(
                WidgetAction::Unmute { node: (#[trigger] graph[j]).node() },
            ),
    decreases upto,
{
    if upto > 0 {
        let widget = graph[upto - 1];
        let before = path_actions(graph, upto - 1, path, active, format);
        let all = path_actions(graph, upto, path, active, format);
        lemma_path_actions(graph, upto - 1, path, active, format);
        lemma_activation(graph, widget, path, format);
        let own = if !active.contains(widget.node()) && path.contains(widget.node()) {
            activation(graph, widget, path, format)
        } else {
            Seq::empty()
        };
        assert(all == before + own);
        assert forall|k: int| 0 <= k < all.len() implies {
            let action = #[trigger] all[k];
            activates(action) && path.contains(action.spec_node()) && !active.contains(
                action.spec_node(),
            )
        } by {
            if k < before.len() {
                assert(all[k] == before[k]);
            } else {
                assert(all[k] == own[k - before.len()]);
            }
        }
        assert forall|j: int|
            0 <= j < upto && path.contains(graph[j].node()) && !active.contains(
                graph[j].node(),
            ) implies all.contains(WidgetAction::Unmute { node: (#[trigger] graph[j]).node() }) by {
            let unmute = WidgetAction::Unmute { node: graph[j].node() };
            if j < upto - 1 {
                let k = choose|k: int| 0 <= k < before.len() && before[k] == unmute;
                assert(all[k] == unmute);
            } else {
                let k = choose|k: int| 0 <= k < own.len() && own[k] == unmute;
                assert(all[before.len() + k] == unmute);
            }
        }
    }
}

/// What a pass plans activates only nodes that the pass has made active,
/// and every widget that the pass has made active is unmuted.
proof fn lemma_pass(graph: Seq<Widget>, headphones: bool, upto: int, format: u16)
    requires
        0 <= upto <= graph.len(),
    ensures
        forall|k: int|
            0 <= k < pass(graph, headphones, upto, format).actions.len() ==> {
                let action = #[trigger] pass(graph, headphones, upto, format).actions[k];
                activates(action) && pass(graph, headphones, upto, format).active.contains(
                    action.spec_node(),
                )
            },
        forall|j: int|
            0 <= j < graph.len() && pass(graph, headphones, upto, format).active.contains(
                graph[j].node(),
            ) ==> pass(graph, headphones, upto, format).actions.contains(
                WidgetAction::Unmute { node: (#[trigger] graph[j]).node() },
            ),
    decreases upto,
{
    if upto > 0 {
        let before = pass(graph, headphones, upto - 1, format);
        let after = pass(graph, headphones, upto, format);
        let pin = graph[upto - 1];
        lemma_pass(graph, headphones, upto - 1, format);
        if candidate(pin, headphones) && spec_find_dac(graph, pin.node()) is Some {
            let path = spec_find_dac(graph, pin.node())->0;
            let own = path_actions(graph, graph.len() as int, path, before.active, format);
            lemma_path_actions(graph, graph.len() as int, path, before.active, format);
            assert(after.actions == before.actions + own);
            assert(after.active == before.active.union(path.to_set()));
            assert forall|k: int| 0 <= k < after.actions.len() implies {
                let action = #[trigger] after.actions[k];
                activates(action) && after.active.contains(action.spec_node())
            } by {
                if k < before.actions.len() {
                    assert(after.actions[k] == before.actions[k]);
                } else {
                    assert(after.actions[k] == own[k - before.actions.len()]);
                }
            }
            assert forall|j: int|
                0 <= j < graph.len() && after.active.contains(
                    graph[j].node(),
                ) implies after.actions.contains(
                WidgetAction::Unmute { node: (#[trigger] graph[j]).node() },
            ) by {
                let unmute = WidgetAction::Unmute { node: graph[j].node() };
                if before.active.contains(graph[j].node()) {
                    let k = choose|k: int|
                        0 <= k < before.actions.len() && before.actions[k] == unmute;
                    assert(after.actions[k] == unmute);
                } else {
                    let k = choose|k: int| 0 <= k < own.len() && own[k] == unmute;
                    assert(after.actions[before.actions.len() + k] == unmute);
                }
            }
        }
    }
}

/// What silences the widgets left over is done to widgets that are not
/// active, never unmutes, and mutes every widget that is not active.
proof fn lemma_silence_rest(graph: Seq<Widget>, upto: int, active: Set<Node>)
    requires
        0 <= upto <= graph.len(),
    ensures
        forall|k: int|
            0 <= k < silence_rest(graph, upto, active).len() ==> {
                let action = #[trigger] silence_rest(graph, upto, active)[k];
                !(action is Unmute) && !active.contains(action.spec_node())
            },
        forall|j: int|
            0 <= j < upto && !active.contains(graph[j].node()) ==> silence_rest(
                graph,
                upto,
                active,
            ).contains(WidgetAction::Mute { node: (#[trigger] graph[j]).node() }),
    decreases upto,
{
    if upto > 0 {
        let widget = graph[upto - 1];
        let before = silence_rest(graph, upto - 1, active);
        let all = silence_rest(graph, upto, active);
        lemma_silence_rest(graph, upto - 1, active);
        let own = if active.contains(widget.node()) {
            Seq::empty()
        } else {
            silence(widget)
        };
        assert(all == before + own);
        assert forall|k: int| 0 <= k < all.len() implies {
            let action = #[trigger] all[k];
            !(action is Unmute) && !active.contains(action.spec_node())
        } by {
            if k < before.len() {
                assert(all[k] == before[k]);
            } else {
                assert(all[k] == own[k - before.len()]);
            }
        }
        assert forall|j: int|
            0 <= j < upto && !active.contains(graph[j].node()) implies all.contains(
            WidgetAction::Mute { node: (#[trigger] graph[j]).node() },
        ) by {
            let mute = WidgetAction::Mute { node: graph[j].node() };
            if j < upto - 1 {
                let k = choose|k: int| 0 <= k < before.len() && before[k] == mute;
                assert(all[k] == mute);
            } else {
                assert(own[0] == mute);
                assert(all[before.len() as int] == mute);
            }
        }
    }
}

/// Whether no two widgets of the graph carry the same identifier.
pub open spec fn distinct_nodes(graph: Seq<Widget>) -> bool {
    forall|i: int, j: int|
        0 <= i < graph.len() && 0 <= j < graph.len() && i != j ==> (#[trigger] graph[i]).node() != (
        #[trigger] graph[j]).node()
}

/// Whether the two actions do the same kind of thing to the same widget.
pub open spec fn same_deed(a: WidgetAction, b: WidgetAction) -> bool {
    a.spec_node() == b.spec_node() && match a {
        WidgetAction::PowerUp { .. } => b is PowerUp,
        WidgetAction::EnableOutput { .. } => b is EnableOutput,
        WidgetAction::Unmute { .. } => b is Unmute,
        WidgetAction::EnableEapd { .. } => b is EnableEapd,
        WidgetAction::Select { .. } => b is Select,
        WidgetAction::SetStream { .. } => b is SetStream,
        WidgetAction::SetFormat { .. } => b is SetFormat,
        WidgetAction::Mute { .. } => b is Mute,
    }
}

/// Whether no deed is done twice in `actions`.
pub open spec fn no_deed_twice(actions: Seq<WidgetAction>) -> bool {
    forall|a: int, b: int|
        0 <= a < b < actions.len() ==> !same_deed(#[trigger] actions[a], #[trigger] actions[b])
}

/// Whether every action of `actions` is done to one of the first `upto` widgets.
spec fn done_to_first(graph: Seq<Widget>, upto: int, actions: Seq<WidgetAction>) -> bool {
    forall|k: int|
        0 <= k < actions.len() ==> exists|j: int|
            0 <= j < upto && (#[trigger] graph[j]).node() == (#[trigger] actions[k]).spec_node()
}

/// What activates one widget does no deed twice.
proof fn lemma_activation_deeds(graph: Seq<Widget>, widget: Widget, path: Seq<Node>, format: u16)
    ensures
        no_deed_twice(activation(graph, widget, path, format)),
{
    let actions = activation(graph, widget, path, format);
    let head = seq![
        WidgetAction::Unmute { node: widget.node() },
        WidgetAction::EnableEapd { node: widget.node() },
    ];
    let select = selection(graph, widget, path);
    let tail = actions.subrange((head.len() + select.len()) as int, actions.len() as int);
    assert(actions =~= head + select + tail);
    assert forall|a: int, b: int| 0 <= a < b < actions.len() implies !same_deed(
        #[trigger] actions[a],
        #[trigger] actions[b],
    ) by {
        assert(actions[0] is Unmute && actions[1] is EnableEapd);
        if select.len() > 0 {
            assert(actions[2] is Select);
        }
        if a >= head.len() + select.len() {
            assert(actions[a] is SetStream);
            assert(actions[b] is SetFormat);
        } else if b >= head.len() + select.len() {
            assert(actions[b] is SetStream || actions[b] is SetFormat);
        }
    }
}

/// What silences one widget does no deed twice.
proof fn lemma_silence_deeds(widget: Widget)
    ensures
        no_deed_twice(silence(widget)),
        forall|k: int|
            0 <= k < silence(widget).len() ==> (#[trigger] silence(widget)[k]).spec_node()
                == widget.node(),
{
    let actions = silence(widget);
    assert(actions[0] is Mute);
    if widget.takes_stream() {
        assert(actions[1] is SetStream && actions[2] is SetFormat);
    }
}

/// Two lists of actions that do no deed twice, and that are done to
/// different widgets, do no deed twice when put together.
proof fn lemma_joined_deeds(first: Seq<WidgetAction>, second: Seq<WidgetAction>)
    requires
        no_deed_twice(first),
        no_deed_twice(second),
        forall|a: int, b: int|
            0 <= a < first.len() && 0 <= b < second.len() ==> (#[trigger] first[a]).spec_node() != (
            #[trigger] second[b]).spec_node(),
    ensures
        no_deed_twice(first + second),
{
    let all = first + second;
    assert forall|a: int, b: int| 0 <= a < b < all.len() implies !same_deed(
        #[trigger] all[a],
        #[trigger] all[b],
    ) by {
        if b < first.len() {
            assert(all[a] == first[a] && all[b] == first[b]);
        } else if a >= first.len() {
            assert(all[a] == second[a - first.len()] && all[b] == second[b - first.len()]);
        } else {
            assert(all[a] == first[a] && all[b] == second[b - first.len()]);
        }
    }
}

/// In a graph without double identifiers, the activations for a path do no
/// deed twice.
proof fn lemma_path_deeds(
    graph: Seq<Widget>,
    upto: int,
    path: Seq<Node>,
    active: Set<Node>,
    format: u16,
)
    requires
        0 <= upto <= graph.len(),
        distinct_nodes(graph),
    ensures
        no_deed_twice(path_actions(graph, upto, path, active, format)),
        done_to_first(graph, upto, path_actions(graph, upto, path, active, format)),
    decreases upto,
{
    if upto > 0 {
        let widget = graph[upto - 1];
        let before = path_actions(graph, upto - 1, path, active, format);
        let own = if !active.contains(widget.node()) && path.contains(widget.node()) {
            activation(graph, widget, path, format)
        } else {
            Seq::empty()
        };
        let all = path_actions(graph, upto, path, active, format);
        assert(all == before + own);
        lemma_path_deeds(graph, upto - 1, path, active, format);
        lemma_activation(graph, widget, path, format);
        lemma_activation_deeds(graph, widget, path, format);
        assert forall|a: int, b: int| 0 <= a < before.len() && 0 <= b < own.len() implies (
        #[trigger] before[a]).spec_node() != (#[trigger] own[b]).spec_node() by {
            let j = choose|j: int|
                0 <= j < upto - 1 && (#[trigger] graph[j]).node() == before[a].spec_node();
            assert(graph[j].node() != graph[upto - 1].node());
        }
        lemma_joined_deeds(before, own);
        assert forall|k: int| 0 <= k < all.len() implies exists|j: int|
            0 <= j < upto && (#[trigger] graph[j]).node() == (#[trigger] all[k]).spec_node() by {
            if k < before.len() {
                assert(all[k] == before[k]);
                let j = choose|j: int|
                    0 <= j < upto - 1 && (#[trigger] graph[j]).node() == before[k].spec_node();
                assert(graph[j].node() == all[k].spec_node());
            } else {
                assert(all[k] == own[k - before.len()]);
                assert(graph[upto - 1].node() == all[k].spec_node());
            }
        }
    }
}

/// In a graph without double identifiers, a pass does no deed twice.
proof fn lemma_pass_deeds(graph: Seq<Widget>, headphones: bool, upto: int, format: u16)
    requires
        0 <= upto <= graph.len(),
        distinct_nodes(graph),
    ensures
        no_deed_twice(pass(graph, headphones, upto, format).actions),
    decreases upto,
{
    if upto > 0 {
        let before = pass(graph, headphones, upto - 1, format);
        let pin = graph[upto - 1];
        lemma_pass_deeds(graph, headphones, upto - 1, format);
        if candidate(pin, headphones) && spec_find_dac(graph, pin.node()) is Some {
            let path = spec_find_dac(graph, pin.node())->0;
            let own = path_actions(graph, graph.len() as int, path, before.active, format);
            lemma_pass(graph, headphones, upto - 1, format);
            lemma_path_actions(graph, graph.len() as int, path, before.active, format);
            lemma_path_deeds(graph, graph.len() as int, path, before.active, format);
            lemma_joined_deeds(before.actions, own);
        }
    }
}

/// In a graph without double identifiers, what silences the widgets left
/// over does no deed twice.
proof fn lemma_silence_rest_deeds(graph: Seq<Widget>, upto: int, active: Set<Node>)
    requires
        0 <= upto <= graph.len(),
        distinct_nodes(graph),
    ensures
        no_deed_twice(silence_rest(graph, upto, active)),
        done_to_first(graph, upto, silence_rest(graph, upto, active)),
    decreases upto,
{
    if upto > 0 {
        let widget = graph[upto - 1];
        let before = silence_rest(graph, upto - 1, active);
        let own = if active.contains(widget.node()) {
            Seq::empty()
        } else {
            silence(widget)
        };
        let all = silence_rest(graph, upto, active);
        assert(all == before + own);
        lemma_silence_rest_deeds(graph, upto - 1, active);
        lemma_silence_deeds(widget);
        assert forall|a: int, b: int| 0 <= a < before.len() && 0 <= b < own.len() implies (
        #[trigger] before[a]).spec_node() != (#[trigger] own[b]).spec_node() by {
            let j = choose|j: int|
                0 <= j < upto - 1 && (#[trigger] graph[j]).node() == before[a].spec_node();
            assert(graph[j].node() != graph[upto - 1].node());
        }
        lemma_joined_deeds(before, own);
        assert forall|k: int| 0 <= k < all.len() implies exists|j: int|
            0 <= j < upto && (#[trigger] graph[j]).node() == (#[trigger] all[k]).spec_node() by {
            if k < before.len() {
                assert(all[k] == before[k]);
                let j = choose|j: int|
                    0 <= j < upto - 1 && (#[trigger] graph[j]).node() == before[k].spec_node();
                assert(graph[j].node() == all[k].spec_node());
            } else {
                assert(all[k] == own[k - before.len()]);
                assert(graph[upto - 1].node() == all[k].spec_node());
            }
        }
    }
}

/// For a codec whose widgets carry different identifiers, the plan does
/// nothing twice: a widget is unmuted, muted, given a selection, a stream
/// or a format not more than once. What was selected for the first path
/// through a widget is never written over.
pub proof fn lemma_nothing_done_twice(graph: Seq<Widget>, format: u16)
    requires
        distinct_nodes(graph),
    ensures
        no_deed_twice(spec_setup_stream(graph, format)),
{
    let plan = chosen(graph, format);
    let rest = silence_rest(graph, graph.len() as int, plan.active);
    lemma_pass_deeds(graph, true, graph.len() as int, format);
    lemma_pass_deeds(graph, false, graph.len() as int, format);
    lemma_pass(graph, true, graph.len() as int, format);
    lemma_pass(graph, false, graph.len() as int, format);
    lemma_silence_rest(graph, graph.len() as int, plan.active);
    lemma_silence_rest_deeds(graph, graph.len() as int, plan.active);
    lemma_joined_deeds(plan.actions, rest);
}

/// The plan leaves no widget undecided: a widget that lies on a path that
/// was set up is unmuted and never muted, and every other widget is muted
/// and never unmuted.
pub proof fn lemma_every_widget_settled(graph: Seq<Widget>, format: u16, index: int)
    requires
        0 <= index < graph.len(),
    ensures
        chosen(graph, format).active.contains(graph[index].node()) ==> spec_setup_stream(
            graph,
            format,
        ).contains(WidgetAction::Unmute { node: graph[index].node() }) && !spec_setup_stream(
            graph,
            format,
        ).contains(WidgetAction::Mute { node: graph[index].node() }),
        !chosen(graph, format).active.contains(graph[index].node()) ==> spec_setup_stream(
            graph,
            format,
        ).contains(WidgetAction::Mute { node: graph[index].node() }) && !spec_setup_stream(
            graph,
            format,
        ).contains(WidgetAction::Unmute { node: graph[index].node() }),
{
    let plan = chosen(graph, format);
    let rest = silence_rest(graph, graph.len() as int, plan.active);
    let all = spec_setup_stream(graph, format);
    let node = graph[index].node();
    let unmute = WidgetAction::Unmute { node };
    let mute = WidgetAction::Mute { node };
    lemma_pass(graph, true, graph.len() as int, format);
    lemma_pass(graph, false, graph.len() as int, format);
    lemma_silence_rest(graph, graph.len() as int, plan.active);
    assert(all == plan.actions + rest);
    if plan.active.contains(node) {
        let k = choose|k: int| 0 <= k < plan.actions.len() && plan.actions[k] == unmute;
        assert(all[k] == unmute);
        if all.contains(mute) {
            let m = choose|m: int| 0 <= m < all.len() && all[m] == mute;
            if m < plan.actions.len() {
                assert(plan.actions[m] == mute);
            } else {
                assert(rest[m - plan.actions.len()] == mute);
            }
        }
    } else {
        let k = choose|k: int| 0 <= k < rest.len() && rest[k] == mute;
        assert(all[plan.actions.len() + k] == mute);
        if all.contains(unmute) {
            let m = choose|m: int| 0 <= m < all.len() && all[m] == unmute;
            if m < plan.actions.len() {
                assert(plan.actions[m] == unmute);
            } else {
                assert(rest[m - plan.actions.len()] == unmute);
            }
        }
    }
}

/// Appends what activates `widget` as part of `path`.
fn activate(
    nodes: &[PathNode],
    widget: &PathNode,
    path: &[Node],
    format: u16,
    actions: &mut Vec<WidgetAction>,
)
    ensures
        final(actions)@ == old(actions)@ + activation(nodes.deep_view(), widget@, path@, format),
{
    let ghost graph = nodes.deep_view();
    let ghost before = actions@;
    let node = widget.node();
    actions.push(WidgetAction::Unmute { node });
    actions.push(WidgetAction::EnableEapd { node });
    let ghost head = seq![WidgetAction::Unmute { node }, WidgetAction::EnableEapd { node }];
    assert(actions@ =~= before + head);
    if let Some(next_node) = get_path_next_node(path, node) {
        if let Some(index) = find_path_connection_index(nodes, node, next_node) {
            actions.push(WidgetAction::Select { node, index });
        }
    }
    assert(actions@ =~= before + head + selection(graph, widget@, path@));
    if widget.takes_stream() {
        actions.push(WidgetAction::SetStream { node, tag: PLAYBACK_STREAM_TAG });
        actions.push(WidgetAction::SetFormat { node, format });
    }
    assert(actions@ =~= before + activation(graph, widget@, path@, format));
}

/// Goes once over the pins to serve and sets up a path for each that reaches a converter.
fn run_pass(
    nodes: &[PathNode],
    headphones: bool,
    format: u16,
    active: &mut NodeMap<bool>,
    actions: &mut Vec<WidgetAction>,
)
    requires
        old(active)@.dom() =~= Set::<Node>::empty(),
        old(actions)@ =~= Seq::<WidgetAction>::empty(),
    ensures
        final(active)@.dom() == pass(
            nodes.deep_view(),
            headphones,
            nodes.len() as int,
            format,
        ).active,
        final(actions)@ == pass(nodes.deep_view(), headphones, nodes.len() as int, format).actions,
{
    let ghost graph = nodes.deep_view();
    let mut i: usize = 0;
    while i < nodes.len()
        invariant
            i <= nodes.len(),
            graph == nodes.deep_view(),
            active@.dom() =~= pass(graph, headphones, i as int, format).active,
            actions@ =~= pass(graph, headphones, i as int, format).actions,
        decreases nodes.len() - i,
    {
        let pin = &nodes[i];
        assert(graph[i as int] == pin@);
        let ghost before = pass(graph, headphones, i as int, format);
        let is_pin = match pin {
            PathNode::PinComplex { .. } => true,
            _ => false,
        };
        if is_pin && pin.is_headphones() == headphones {
            if let Some(path) = hda_find_dac(nodes, pin.node()) {
                let mut k: usize = 0;
                while k < nodes.len()
                    invariant
                        k <= nodes.len(),
                        graph == nodes.deep_view(),
                        active@.dom() =~= before.active,
                        actions@ =~= before.actions + path_actions(
                            graph,
                            k as int,
                            path@,
                            before.active,
                            format,
                        ),
                    decreases nodes.len() - k,
                {
                    let path_node = &nodes[k];
                    assert(graph[k as int] == path_node@);
                    let ghost sofar = path_actions(graph, k as int, path@, before.active, format);
                    if !active.contains_key(&path_node.node()) {
                        if contains_node(path.as_slice(), path_node.node()) {
                            activate(nodes, path_node, path.as_slice(), format, actions);
                            assert(actions@ =~= before.actions + (sofar + activation(
                                graph,
                                path_node@,
                                path@,
                                format,
                            )));
                        }
                    }
                    assert(actions@ =~= before.actions + path_actions(
                        graph,
                        k + 1,
                        path@,
                        before.active,
                        format,
                    ));
                    k += 1;
                }
                let mut m: usize = 0;
                while m < path.len()
                    invariant
                        m <= path.len(),
                        active@.dom() =~= before.active.union(path@.take(m as int).to_set()),
                    decreases path.len() - m,
                {
                    active.insert(&path[m], true);
                    proof {
                        let prefix = path@.take(m as int);
                        let longer = path@.take(m + 1);
                        assert(longer =~= prefix.push(path@[m as int]));
                        assert forall|node: Node| longer.to_set().contains(node) <==> (
                        prefix.to_set().contains(node) || node == path@[m as int]) by {
                            if prefix.to_set().contains(node) {
                                let p = choose|p: int| 0 <= p < prefix.len() && prefix[p] == node;
                                assert(longer[p] == node);
                            }
                            if node == path@[m as int] {
                                assert(longer[m as int] == node);
                            }
                            if longer.to_set().contains(node) {
                                let p = choose|p: int| 0 <= p < longer.len() && longer[p] == node;
                                if p < m {
                                    assert(prefix[p] == node);
                                }
                            }
                        }
                    }
                    m += 1;
                }
                assert(path@.take(path.len() as int) =~= path@);
            }
        }
        i += 1;
    }
}

/// Plans the routing of the playback stream through a codec whose widgets
/// are `nodes`, for a stream of the given format. Pins that are headphone
/// jacks with something plugged in are served first; only if none of them
/// reaches a converter are the other pins served. A widget that lies on
/// several paths is activated once, as part of the first. Every widget that
/// no path touched is silenced at the end.
pub fn codec_setup_stream(nodes: &[PathNode], format: u16) -> (actions: Vec<WidgetAction>)
    ensures
        actions@ == spec_setup_stream(nodes.deep_view(), format),
{
    let ghost graph = nodes.deep_view();
    let mut actions: Vec<WidgetAction> = Vec::new();
    let mut active: NodeMap<bool> = NodeMap::new();
    run_pass(nodes, true, format, &mut active, &mut actions);
    if active.is_empty() {
        proof {
            assert(active@.dom() =~= Set::<Node>::empty());
            lemma_idle_pass(graph, true, graph.len() as int, format);
        }
        run_pass(nodes, false, format, &mut active, &mut actions);
    } else {
        proof {
            if active@.dom() =~= Set::<Node>::empty() {
                assert(active@ =~= Map::<Node, bool>::empty());
            }
        }
    }
    let ghost plan = chosen(graph, format);
    assert(active@.dom() =~= plan.active);
    assert(actions@ =~= plan.actions);
    let mut i: usize = 0;
    while i < nodes.len()
        invariant
            i <= nodes.len(),
            graph == nodes.deep_view(),
            active@.dom() =~= plan.active,
            actions@ =~= plan.actions + silence_rest(graph, i as int, plan.active),
        decreases nodes.len() - i,
    {
        let path_node = &nodes[i];
        assert(graph[i as int] == path_node@);
        let ghost sofar = silence_rest(graph, i as int, plan.active);
        if !active.contains_key(&path_node.node()) {
            let node = path_node.node();
            actions.push(WidgetAction::Mute { node });
            if path_node.takes_stream() {
                actions.push(WidgetAction::SetStream { node, tag: 0 });
                actions.push(WidgetAction::SetFormat { node, format: 0 });
            }
            assert(actions@ =~= plan.actions + (sofar + silence(path_node@)));
        }
        assert(actions@ =~= plan.actions + silence_rest(graph, i + 1, plan.active));
        i += 1;
    }
    actions
}

/// Plans the silencing of a codec: every widget is muted, and every
/// converter and mixer is taken off the stream. This is what leaves a codec
/// quiet when a playback could not be set up or has failed.
pub fn codec_mute_all(nodes: &[PathNode]) -> (actions: Vec<WidgetAction>)
    ensures
        actions@ == silence_rest(nodes.deep_view(), nodes.len() as int, Set::empty()),
{
    let ghost graph = nodes.deep_view();
    let mut actions: Vec<WidgetAction> = Vec::new();
    let mut i: usize = 0;
    while i < nodes.len()
        invariant
            i <= nodes.len(),
            graph == nodes.deep_view(),
            actions@ =~= silence_rest(graph, i as int, Set::empty()),
        decreases nodes.len() - i,
    {
        let path_node = &nodes[i];
        assert(graph[i as int] == path_node@);
        let ghost sofar = actions@;
        let node = path_node.node();
        actions.push(WidgetAction::Mute { node });
        if path_node.takes_stream() {
            actions.push(WidgetAction::SetStream { node, tag: 0 });
            actions.push(WidgetAction::SetFormat { node, format: 0 });
        }
        assert(actions@ =~= sofar + silence(path_node@));
        i += 1;
    }
    actions
}

} // verus!
