//! Widgets of a codec: their roles, the decoding of connection lists, and
//! the classification of what a walk over the codec has read.

use vstd::prelude::*;
use crate::command::Node;
use crate::hda::{field, PinCapabilities, PinConfig, WidgetCapabilities};

verus! {

// Widget types, as the capabilities parameter names them.
pub const HDA_WIDGET_AUDIO_OUT: u32 = 0;
pub const HDA_WIDGET_AUDIO_IN: u32 = 1;
pub const HDA_WIDGET_AUDIO_MIX: u32 = 2;
pub const HDA_WIDGET_AUDIO_SELECTOR: u32 = 3;
pub const HDA_WIDGET_PIN_COMPLEX: u32 = 4;
pub const HDA_WIDGET_POWER: u32 = 5;
pub const HDA_WIDGET_VOLUME_KNOB: u32 = 6;
pub const HDA_WIDGET_BEEP_GEN: u32 = 7;
pub const HDA_WIDGET_VENDOR: u32 = 0xf;

// Default devices of a pin.
pub const HDA_JACK_LINE_OUT: u32 = 0x0;
pub const HDA_JACK_SPEAKER: u32 = 0x1;
pub const HDA_JACK_HP_OUT: u32 = 0x2;

/// Bit of a pin's miscellaneous field that overrides jack detection.
pub const HDA_JACK_MISC_DETECT_OVERRIDE: u32 = 0x1;

// Port connectivity of a pin.
pub const HDA_JACK_PORT_COMPLEX: u32 = 0x0;
pub const HDA_JACK_PORT_NONE: u32 = 0x1;
pub const HDA_JACK_PORT_FIXED: u32 = 0x2;
pub const HDA_JACK_PORT_BOTH: u32 = 0x3;

/// Bit of a connection list length that says the entries are two bytes wide.
pub const HDA_CONNECTION_LIST_LONG_BIT: u32 = 0x80;
/// Bits of a connection list length that hold the number of entries.
pub const HDA_CONNECTION_LIST_LENGTH_MASK: u32 = 0x7f;

/// Bit of a pin sense response that says something is plugged in.
pub const HDA_PIN_SENSE_PRESENCE_DETECT: u32 = 0x8000_0000;

/// A widget of the codec's routing graph, by its role.
#[derive(Clone, Debug)]
pub enum PathNode {
    /// A digital-to-analog converter: where a path ends.
    AudioOut { node: Node },
    AudioIn { node: Node, connections: Vec<Node>, select: usize },
    AudioMix { node: Node, connections: Vec<Node>, select: usize },
    PinComplex {
        node: Node,
        connections: Vec<Node>,
        select: usize,
        config: PinConfig,
        presence: Option<bool>,
    },
}

/// What a `PathNode` stands for: the widget's role, its connection list in
/// the order of its indices, the selected connection and, for a pin, the
/// default configuration word and the sensed presence.
pub enum Widget {
    AudioOut { node: Node },
    AudioIn { node: Node, connections: Seq<Node>, select: usize },
    AudioMix { node: Node, connections: Seq<Node>, select: usize },
    PinComplex {
        node: Node,
        connections: Seq<Node>,
        select: usize,
        config: u32,
        presence: Option<bool>,
    },
}

/// Whether a pin with this default configuration and sensed presence is a
/// headphone jack with something plugged in: the port is wired to a jack, the
/// default device is headphone out, presence was sensed, and the jack detect
/// override is off.
pub open spec fn headphones(config: u32, presence: Option<bool>) -> bool {
    &&& (field(config, 30, 0x3) == HDA_JACK_PORT_COMPLEX || field(config, 30, 0x3)
        == HDA_JACK_PORT_BOTH)
    &&& field(config, 20, 0xf) == HDA_JACK_HP_OUT
    &&& presence == Some(true)
    &&& field(config, 8, 0xf) & HDA_JACK_MISC_DETECT_OVERRIDE == 0
}

impl Widget {
    /// Identifier of the widget.
    pub open spec fn node(self) -> Node {
        match self {
            Widget::AudioOut { node } => node,
            Widget::AudioIn { node, .. } => node,
            Widget::AudioMix { node, .. } => node,
            Widget::PinComplex { node, .. } => node,
        }
    }

    /// Index of the connection that the widget has selected.
    pub open spec fn select(self) -> usize {
        match self {
            Widget::AudioOut { .. } => 0,
            Widget::AudioIn { select, .. } => select,
            Widget::AudioMix { select, .. } => select,
            Widget::PinComplex { select, .. } => select,
        }
    }

    /// The widget's connection list; a converter has none.
    pub open spec fn successors(self) -> Seq<Node> {
        match self {
            Widget::AudioOut { .. } => Seq::empty(),
            Widget::AudioIn { connections, .. } => connections,
            Widget::AudioMix { connections, .. } => connections,
            Widget::PinComplex { connections, .. } => connections,
        }
    }

    /// Whether the widget is a digital-to-analog converter.
    pub open spec fn is_dac(self) -> bool {
        self is AudioOut
    }

    /// Whether the widget is a headphone jack with something plugged in.
    pub open spec fn is_headphones(self) -> bool {
        match self {
            Widget::PinComplex { config, presence, .. } => headphones(config, presence),
            _ => false,
        }
    }

    /// Whether the stream tag and format are written to the widget when it
    /// lies on a path.
    pub open spec fn takes_stream(self) -> bool {
        self is AudioOut || self is AudioMix
    }
}

impl View for PathNode {
    type V = Widget;

    open spec fn view(&self) -> Widget {
        match self {
            PathNode::AudioOut { node } => Widget::AudioOut { node: *node },
            PathNode::AudioIn { node, connections, select } => Widget::AudioIn {
                node: *node,
                connections: connections@,
                select: *select,
            },
            PathNode::AudioMix { node, connections, select } => Widget::AudioMix {
                node: *node,
                connections: connections@,
                select: *select,
            },
            PathNode::PinComplex { node, connections, select, config, presence } => {
                Widget::PinComplex {
                    node: *node,
                    connections: connections@,
                    select: *select,
                    config: config@,
                    presence: *presence,
                }
            },
        }
    }
}

impl DeepView for PathNode {
    type V = Widget;

    open spec fn deep_view(&self) -> Widget {
        self@
    }
}

impl PathNode {
    /// Identifier of the widget.
    pub fn node(&self) -> (r: Node)
        ensures
            r == self@.node(),
    {
        match self {
            PathNode::AudioOut { node } => *node,
            PathNode::AudioIn { node, .. } => *node,
            PathNode::AudioMix { node, .. } => *node,
            PathNode::PinComplex { node, .. } => *node,
        }
    }

    /// Index of the connection that the widget has selected.
    pub fn select(&self) -> (r: usize)
        ensures
            r == self@.select(),
    {
        match self {
            PathNode::AudioOut { .. } => 0,
            PathNode::AudioIn { select, .. } => *select,
            PathNode::AudioMix { select, .. } => *select,
            PathNode::PinComplex { select, .. } => *select,
        }
    }

    /// The widget's connection list, in the order of its indices. A converter has none.
    pub fn successors(&self) -> (r: &[Node])
        ensures
            r@ == self@.successors(),
    {
        match self {
            PathNode::AudioOut { .. } => &[],
            PathNode::AudioIn { connections, .. } => connections.as_slice(),
            PathNode::AudioMix { connections, .. } => connections.as_slice(),
            PathNode::PinComplex { connections, .. } => connections.as_slice(),
        }
    }

    /// Whether the widget is a digital-to-analog converter.
    pub fn is_dac(&self) -> (r: bool)
        ensures
            r == self@.is_dac(),
    {
        match self {
            PathNode::AudioOut { .. } => true,
            _ => false,
        }
    }

    /// Whether the widget is a headphone jack with something plugged in.
    pub fn is_headphones(&self) -> (r: bool)
        ensures
            r == self@.is_headphones(),
    {
        match self {
            PathNode::PinComplex { config, presence, .. } => {
                let present = match presence {
                    Some(p) => *p,
                    None => false,
                };
                (config.port_connectivity() == HDA_JACK_PORT_COMPLEX || config.port_connectivity()
                    == HDA_JACK_PORT_BOTH) && config.device() == HDA_JACK_HP_OUT && present && (
                config.misc() & HDA_JACK_MISC_DETECT_OVERRIDE) == 0
            },
            _ => false,
        }
    }

    /// Whether the widget takes the stream tag and format.
    pub fn takes_stream(&self) -> (r: bool)
        ensures
            r == self@.takes_stream(),
    {
        match self {
            PathNode::AudioOut { .. } => true,
            PathNode::AudioMix { .. } => true,
            _ => false,
        }
    }
}

/// Whether the entries of a connection list with this length response are two bytes wide.
pub open spec fn list_is_long(length: u32) -> bool {
    length & HDA_CONNECTION_LIST_LONG_BIT != 0
}

/// Number of entries of a connection list, from its length response.
pub open spec fn list_entries(length: u32) -> u32 {
    length & HDA_CONNECTION_LIST_LENGTH_MASK
}

/// Number of entries that one response of the connection list verb holds:
/// two where the entries are long, four where they are short.
pub open spec fn entries_per_word(long: bool) -> u32 {
    if long {
        2
    } else {
        4
    }
}

/// Width in bits of one entry of a connection list.
pub open spec fn entry_bits(long: bool) -> u32 {
    if long {
        16
    } else {
        8
    }
}

/// All bits of one entry of a connection list.
pub open spec fn entry_mask(long: bool) -> u32 {
    if long {
        0xffff
    } else {
        0xff
    }
}

/// The offsets at which the connection list verb is sent to read a list with
/// this length response: every `entries_per_word` entries from 0 on, below
/// the number of entries.
pub open spec fn spec_connection_offsets(length: u32) -> Seq<u32> {
    let step = entries_per_word(list_is_long(length)) as int;
    Seq::new(
        ((list_entries(length) + step - 1) / step) as nat,
        |k: int| (k * step) as u32,
    )
}

/// The nodes named by the lowest `count` entries of `word`, lowest first;
/// an entry of zero names no node.
pub open spec fn word_connections(word: u32, long: bool, count: nat) -> Seq<Node>
    decreases count,
{
    if count == 0 {
        Seq::empty()
    } else {
        let first = if word & entry_mask(long) != 0 {
            seq![Node(word & entry_mask(long))]
        } else {
            Seq::empty()
        };
        first + word_connections(word >> entry_bits(long), long, (count - 1) as nat)
    }
}

/// The connection list held by the responses `words`, in the order of the
/// list's indices.
pub open spec fn spec_connections(words: Seq<u32>, long: bool) -> Seq<Node>
    decreases words.len(),
{
    if words.len() == 0 {
        Seq::empty()
    } else {
        spec_connections(words.drop_last(), long) + word_connections(
            words.last(),
            long,
            entries_per_word(long) as nat,
        )
    }
}

/// A connection list names no node zero: entries of zero are left out.
pub proof fn lemma_connections_nonzero(words: Seq<u32>, long: bool, index: int)
    requires
        0 <= index < spec_connections(words, long).len(),
    ensures
        spec_connections(words, long)[index].0 != 0,
    decreases words.len(),
{
    if words.len() > 0 {
        let head = spec_connections(words.drop_last(), long);
        if index < head.len() {
            lemma_connections_nonzero(words.drop_last(), long, index);
        } else {
            lemma_word_connections_nonzero(
                words.last(),
                long,
                entries_per_word(long) as nat,
                index - head.len(),
            );
        }
    }
}

/// The entries of one word name no node zero.
proof fn lemma_word_connections_nonzero(word: u32, long: bool, count: nat, index: int)
    requires
        0 <= index < word_connections(word, long, count).len(),
    ensures
        word_connections(word, long, count)[index].0 != 0,
    decreases count,
{
    if count > 0 {
        let first = if word & entry_mask(long) != 0 {
            seq![Node(word & entry_mask(long))]
        } else {
            Seq::empty()
        };
        if index >= first.len() {
            lemma_word_connections_nonzero(
                word >> entry_bits(long),
                long,
                (count - 1) as nat,
                index - first.len(),
            );
        }
    }
}

/// How to learn whether something is plugged into a pin.
#[derive(Clone, Copy, Debug, PartialEq, Eq, Structural)]
pub enum PinSense {
    /// The pin cannot tell: send nothing.
    Skip,
    /// Send the pin sense query.
    Read,
    /// Send the execute pin sense verb, then the query.
    TriggerThenRead,
}

/// The offsets at which to send the connection list verb for a widget whose
/// connection list length parameter read `length`.
pub fn connection_offsets(length: u32) -> (r: Vec<u32>)
    ensures
        r@ == spec_connection_offsets(length),
{
    let entries = length & HDA_CONNECTION_LIST_LENGTH_MASK;
    assert(entries <= 0x7f) by (bit_vector)
        requires
            entries == length & 0x7f,
    ;
    let step: u32 = if length & HDA_CONNECTION_LIST_LONG_BIT == 0 {
        4
    } else {
        2
    };
    let ghost count = (entries + step - 1) / (step as int);
    let mut offsets: Vec<u32> = Vec::new();
    let mut i: u32 = 0;
    while i < entries
        invariant
            entries <= 0x7f,
            step == 2 || step == 4,
            step == entries_per_word(list_is_long(length)),
            count == (entries + step - 1) / (step as int),
            i == offsets.len() * step,
            offsets.len() <= count,
            i < entries ==> offsets.len() < count,
            forall|k: int| 0 <= k < offsets.len() ==> offsets[k] == (k * step) as u32,
        decreases 0x100 - i,
    {
        offsets.push(i);
        i += step;
    }
    assert(offsets@ =~= spec_connection_offsets(length));
    offsets
}

/// The nodes named by one response of the connection list verb.
pub fn connection_entries(word: u32, long: bool) -> (r: Vec<Node>)
    ensures
        r@ == word_connections(word, long, entries_per_word(long) as nat),
{
    let mut connections: Vec<Node> = Vec::new();
    append_connection_entries(&mut connections, word, long);
    connections
}

fn append_connection_entries(connections: &mut Vec<Node>, word: u32, long: bool)
    ensures
        final(connections)@ == old(connections)@ + word_connections(
            word,
            long,
            entries_per_word(long) as nat,
        ),
{
    let (step, bits, mask): (u32, u32, u32) = if long {
        (2, 16, 0xffff)
    } else {
        (4, 8, 0xff)
    };
    let mut cls = word;
    let mut k: u32 = 0;
    while k < step
        invariant
            k <= step,
            step == entries_per_word(long),
            bits == entry_bits(long),
            mask == entry_mask(long),
            connections@ + word_connections(cls, long, (step - k) as nat) == old(connections)@
                + word_connections(word, long, step as nat),
        decreases step - k,
    {
        proof {
            let rest = word_connections(cls >> bits, long, (step - k - 1) as nat);
            if cls & mask != 0 {
                assert(connections@.push(Node(cls & mask)) + rest =~= connections@ + (seq![
                    Node(cls & mask),
                ] + rest));
            } else {
                assert(connections@ + rest =~= connections@ + (Seq::<Node>::empty() + rest));
            }
        }
        if cls & mask != 0 {
            connections.push(Node(cls & mask));
        }
        cls = cls >> bits;
        k += 1;
    }
    assert(connections@ + Seq::<Node>::empty() =~= connections@);
}

/// Decodes a connection list from the responses to the connection list verb,
/// which were read at the offsets that `connection_offsets` gives for
/// `length`. Entries of zero are left out.
pub fn decode_connections(length: u32, words: &[u32]) -> (r: Vec<Node>)
    ensures
        r@ == spec_connections(words@, list_is_long(length)),
{
    let long = length & HDA_CONNECTION_LIST_LONG_BIT != 0;
    let mut connections: Vec<Node> = Vec::new();
    let mut i: usize = 0;
    while i < words.len()
        invariant
            i <= words.len(),
            long == list_is_long(length),
            connections@ == spec_connections(words@.take(i as int), long),
        decreases words.len() - i,
    {
        proof {
            assert(words@.take(i + 1).drop_last() =~= words@.take(i as int));
        }
        append_connection_entries(&mut connections, words[i], long);
        i += 1;
    }
    assert(words@.take(words.len() as int) =~= words@);
    connections
}

/// How to sense presence on a pin with these capabilities.
pub fn pin_sense_plan(pin_caps: u32) -> (r: PinSense)
    ensures
        r == if field(pin_caps, 2, 1) == 0 {
            PinSense::Skip
        } else if field(pin_caps, 1, 1) == 0 {
            PinSense::Read
        } else {
            PinSense::TriggerThenRead
        },
{
    let caps = PinCapabilities::from(pin_caps);
    if caps.presence_detect_capable() != 0 {
        if caps.trigger_required() != 0 {
            PinSense::TriggerThenRead
        } else {
            PinSense::Read
        }
    } else {
        PinSense::Skip
    }
}

/// Whether a pin sense response says that something is plugged in.
pub fn presence_detected(sense: u32) -> (r: bool)
    ensures
        r == (sense & HDA_PIN_SENSE_PRESENCE_DETECT != 0),
{
    (sense & HDA_PIN_SENSE_PRESENCE_DETECT) != 0
}

/// What was read from one widget while the codec was walked.
#[derive(Clone, Debug)]
pub struct WidgetProbe {
    pub node: Node,
    /// The audio widget capabilities parameter.
    pub capabilities: u32,
    /// The connection list length parameter.
    pub list_length: u32,
    /// The responses of the connection list verb, in the order of `connection_offsets`.
    pub list_words: Vec<u32>,
    /// The default configuration.
    pub config: u32,
    /// The selected connection.
    pub select: u32,
    /// Whether something is plugged in, for a pin that can tell.
    pub presence: Option<bool>,
}

/// What a `WidgetProbe` stands for.
pub struct ProbeView {
    pub node: Node,
    pub capabilities: u32,
    pub list_length: u32,
    pub list_words: Seq<u32>,
    pub config: u32,
    pub select: u32,
    pub presence: Option<bool>,
}

impl ProbeView {
    /// The connection list that the probe read.
    pub open spec fn connections(self) -> Seq<Node> {
        spec_connections(self.list_words, list_is_long(self.list_length))
    }

    /// The widget that the probe describes, by the type in bits 23:20 of its
    /// capabilities; `None` for a widget whose type plays no part in an
    /// output path.
    pub open spec fn classify(self) -> Option<Widget> {
        let typ = field(self.capabilities, 20, 0xf);
        if typ == HDA_WIDGET_AUDIO_OUT {
            Some(Widget::AudioOut { node: self.node })
        } else if typ == HDA_WIDGET_AUDIO_IN {
            Some(
                Widget::AudioIn {
                    node: self.node,
                    connections: self.connections(),
                    select: self.select as usize,
                },
            )
        } else if typ == HDA_WIDGET_AUDIO_MIX {
            Some(
                Widget::AudioMix {
                    node: self.node,
                    connections: self.connections(),
                    select: self.select as usize,
                },
            )
        } else if typ == HDA_WIDGET_PIN_COMPLEX {
            Some(
                Widget::PinComplex {
                    node: self.node,
                    connections: self.connections(),
                    select: self.select as usize,
                    config: self.config,
                    presence: self.presence,
                },
            )
        } else {
            None
        }
    }
}

impl View for WidgetProbe {
    type V = ProbeView;

    open spec fn view(&self) -> ProbeView {
        ProbeView {
            node: self.node,
            capabilities: self.capabilities,
            list_length: self.list_length,
            list_words: self.list_words@,
            config: self.config,
            select: self.select,
            presence: self.presence,
        }
    }
}

impl DeepView for WidgetProbe {
    type V = ProbeView;

    open spec fn deep_view(&self) -> ProbeView {
        self@
    }
}

/// The widgets that a walk over a codec found, in the order of the probes;
/// widgets that play no part in an output path are left out.
pub open spec fn spec_collect(probes: Seq<ProbeView>) -> Seq<Widget>
    decreases probes.len(),
{
    if probes.len() == 0 {
        Seq::empty()
    } else {
        let head = spec_collect(probes.drop_last());
        match probes.last().classify() {
            Some(widget) => head.push(widget),
            None => head,
        }
    }
}

impl WidgetProbe {
    /// The widget that the probe describes, if it is of a type that can lie
    /// on an output path.
    pub fn classify(&self) -> (r: Option<PathNode>)
        ensures
            r is Some <==> self@.classify() is Some,
            r matches Some(n) ==> Some(n@) == self@.classify(),
    {
        let node = self.node;
        let widget_type = WidgetCapabilities::from(self.capabilities).typ();
        if widget_type == HDA_WIDGET_AUDIO_OUT {
            return Some(PathNode::AudioOut { node });
        }
        if widget_type != HDA_WIDGET_AUDIO_IN && widget_type != HDA_WIDGET_AUDIO_MIX && widget_type
            != HDA_WIDGET_PIN_COMPLEX {
            return None;
        }
        let connections = decode_connections(self.list_length, self.list_words.as_slice());
        let select = self.select as usize;
        if widget_type == HDA_WIDGET_AUDIO_IN {
            Some(PathNode::AudioIn { node, connections, select })
        } else if widget_type == HDA_WIDGET_AUDIO_MIX {
            Some(PathNode::AudioMix { node, connections, select })
        } else {
            Some(
                PathNode::PinComplex {
                    node,
                    connections,
                    select,
                    config: PinConfig::from(self.config),
                    presence: self.presence,
                },
            )
        }
    }
}

/// Builds the codec's routing graph from what was read from its widgets.
pub fn collect_nodes(probes: &[WidgetProbe]) -> (r: Vec<PathNode>)
    ensures
        r.deep_view() == spec_collect(probes.deep_view()),
{
    let mut result: Vec<PathNode> = Vec::new();
    let mut i: usize = 0;
    while i < probes.len()
        invariant
            i <= probes.len(),
            result.deep_view() == spec_collect(probes.deep_view().take(i as int)),
        decreases probes.len() - i,
    {
        proof {
            assert(probes.deep_view().take(i + 1).drop_last() =~= probes.deep_view().take(
                i as int,
            ));
            assert(probes.deep_view().take(i + 1).last() == probes[i as int]@);
        }
        let ghost before = result.deep_view();
        match probes[i].classify() {
            Some(node) => {
                result.push(node);
                assert(result.deep_view() =~= before.push(node@));
            },
            None => {},
        }
        i += 1;
    }
    assert(probes.deep_view().take(probes.len() as int) =~= probes.deep_view());
    result
}

} // verus!
