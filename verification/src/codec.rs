//! Exchanges with a codec. Each exchange is a function from the responses
//! collected so far to the next move: the caller sends the commands, and every
//! decision that depends on an answer is made here.

use vstd::prelude::*;
use crate::command::{
    make_command, parse_node_count, spec_make_command, spec_parse_node_count, Codec, Node,
    NodeDescriptor, Param, Verb, HDA_NODE_ROOT, HDA_PARAM_AMPLIFIER_OUTPUT_CAPABILITY,
    HDA_PARAM_AUDIO_WIDGET_CAPABILITIES, HDA_PARAM_CONNECTION_LIST_LENGTH,
    HDA_PARAM_FUNCTION_TYPE, HDA_PARAM_NODE_COUNT, HDA_PARAM_PIN_WIDGET_CAPABILITIES,
    HDA_PARAM_VID, HDA_VERB_EXECUTE_PIN_SENSE, HDA_VERB_GET_CHANNEL_STREAM,
    HDA_VERB_GET_CONFIG_DEFAULT, HDA_VERB_GET_CONNECTION_LIST, HDA_VERB_GET_CONNECTION_SELECT,
    HDA_VERB_GET_EAPDBTL_ENABLE, HDA_VERB_GET_PIN_SENSE, HDA_VERB_GET_PIN_WIDGET_CONTROL,
    HDA_VERB_GET_POWER_STATE, HDA_VERB_GET_STREAM_FORMAT, HDA_VERB_PARAMS,
    HDA_VERB_SET_AMPLIFIER_GAIN_MUTE, HDA_VERB_SET_CHANNEL_STREAM,
    HDA_VERB_SET_CONNECTION_SELECT, HDA_VERB_SET_EAPDBTL_ENABLE,
    HDA_VERB_SET_PIN_WIDGET_CONTROL, HDA_VERB_SET_POWER_STATE, HDA_VERB_SET_STREAM_FORMAT,
};
use crate::error::HdaError;
use crate::hda::field;
use crate::setup::WidgetAction;
use crate::stream::milliseconds_to_stall;
use crate::widget::{
    connection_offsets, pin_sense_plan, presence_detected, spec_connection_offsets, PinSense,
    WidgetProbe, HDA_PIN_SENSE_PRESENCE_DETECT, HDA_WIDGET_PIN_COMPLEX,
};

verus! {

/// Bits of a function type response that hold the type.
pub const HDA_FUNCTION_TYPE_MASK: u32 = 0x7f;

/// Function type of an audio function group.
pub const HDA_FUNCTION_AUDIO: u32 = 0x1;

/// Function type of a modem function group.
pub const HDA_FUNCTION_MODEM: u32 = 0x2;

/// Bit of the pin capabilities that says the pin controls an external amplifier.
pub const HDA_PIN_CAPABILITY_EAPDBTL_BIT: u32 = 0x0001_0000;

/// The external amplifier and balanced output enables.
pub const HDA_PIN_EAPDBTL_ENABLE_MASK: u32 = 0x3;

/// Output enable of the pin widget control.
pub const HDA_PIN_WIDGET_CONTROL_OUT_ENABLE_BIT: u32 = 0x40;

/// Input enable of the pin widget control.
pub const HDA_PIN_WIDGET_CONTROL_IN_ENABLE_BIT: u32 = 0x20;

pub const HDA_AMPLIFIER_CAPABILITY_OFFSET_MASK: u32 = 0x7f;
pub const HDA_AMPLIFIER_CAPABILITY_MUTE_BIT: u32 = 0x8000_0000;
pub const HDA_AMPLIFIER_GAIN_MUTE_MUTE_BIT: u32 = 0x0080;
pub const HDA_AMPLIFIER_GAIN_MUTE_SETR_BIT: u32 = 0x1000;
pub const HDA_AMPLIFIER_GAIN_MUTE_SETL_BIT: u32 = 0x2000;
pub const HDA_AMPLIFIER_GAIN_MUTE_SETI_BIT: u32 = 0x4000;
pub const HDA_AMPLIFIER_GAIN_MUTE_SETO_BIT: u32 = 0x8000;

// Power states.
pub const HDA_POWER_STATE_D0: u32 = 0x0;
pub const HDA_POWER_STATE_D1: u32 = 0x1;
pub const HDA_POWER_STATE_D2: u32 = 0x2;
pub const HDA_POWER_STATE_D3HOT: u32 = 0x3;
pub const HDA_POWER_STATE_D3COLD: u32 = 0x4;

/// Bit of a power state response that reports an error.
pub const HDA_POWER_STATE_ERROR_BIT: u32 = 0x100;

/// Milliseconds to let a widget settle after its power state or its pin
/// control was written.
pub const SETTLE_TIME: usize = 5;

/// The time to let a widget settle, in microseconds.
pub const SETTLE_STALL: usize = 5000;

/// The next move in an exchange with a codec. The caller sends commands and
/// collects the responses, in order; each move is decided from the
/// responses collected so far.
#[derive(Clone, Copy, Debug, PartialEq, Eq, Structural)]
pub enum CodecStep {
    /// Stall for `stall` microseconds, then send `command` and collect its response.
    Send { command: u32, stall: usize },
    /// The exchange is complete.
    Done,
    /// The exchange has failed.
    Failed(HdaError),
}

/// The step that sends a verb with an operand at once.
pub open spec fn send(codec: Codec, node: Node, verb: u32, param: u32) -> CodecStep {
    CodecStep::Send { command: spec_make_command(codec, node, Verb(verb), Param(param)), stall: 0 }
}

/// The step that sends a verb with an operand once the widget has settled.
pub open spec fn send_settled(codec: Codec, node: Node, verb: u32, param: u32) -> CodecStep {
    CodecStep::Send {
        command: spec_make_command(codec, node, Verb(verb), Param(param)),
        stall: SETTLE_STALL,
    }
}

fn step(codec: Codec, node: Node, verb: u32, param: u32) -> (r: CodecStep)
    ensures
        r == send(codec, node, verb, param),
{
    CodecStep::Send { command: make_command(codec, node, Verb(verb), Param(param)), stall: 0 }
}

fn step_settled(codec: Codec, node: Node, verb: u32, param: u32) -> (r: CodecStep)
    ensures
        r == send_settled(codec, node, verb, param),
{
    CodecStep::Send {
        command: make_command(codec, node, Verb(verb), Param(param)),
        stall: milliseconds_to_stall(SETTLE_TIME),
    }
}

/// The command that asks the codec at `codec` for its vendor identifier. A
/// codec that answers it is present.
pub fn probe_command(codec: u32) -> (r: u32)
    ensures
        r == spec_make_command(
            Codec(codec),
            Node(HDA_NODE_ROOT),
            Verb(HDA_VERB_PARAMS),
            Param(HDA_PARAM_VID),
        ),
{
    make_command(Codec(codec), Node(HDA_NODE_ROOT), Verb(HDA_VERB_PARAMS), Param(HDA_PARAM_VID))
}

/// The command that asks `node` for the range of its sub-nodes.
pub fn node_count_command(codec: Codec, node: Node) -> (r: u32)
    ensures
        r == spec_make_command(codec, node, Verb(HDA_VERB_PARAMS), Param(HDA_PARAM_NODE_COUNT)),
{
    make_command(codec, node, Verb(HDA_VERB_PARAMS), Param(HDA_PARAM_NODE_COUNT))
}

/// Whether a function type response names an audio function group.
pub open spec fn is_audio_function(response: u32) -> bool {
    response & HDA_FUNCTION_TYPE_MASK == HDA_FUNCTION_AUDIO
}

/// Whether, among the function type responses of the first `count`
/// sub-nodes, the one at `index` is the first that names an audio function
/// group.
pub open spec fn first_audio_function(types: Seq<u32>, count: int, index: int) -> bool {
    &&& 0 <= index < types.len()
    &&& index < count
    &&& is_audio_function(types[index])
    &&& forall|j: int| 0 <= j < index ==> !is_audio_function(#[trigger] types[j])
}

/// Whether none of the function type responses of the first `count`
/// sub-nodes names an audio function group.
pub open spec fn no_audio_function(types: Seq<u32>, count: int) -> bool {
    forall|j: int| 0 <= j < types.len() && j < count ==> !is_audio_function(#[trigger] types[j])
}

/// The next move of the search for the audio function group: ask the root
/// for its sub-nodes, then each sub-node for its function type. `responses`
/// holds the answers so far.
pub open spec fn spec_find_audio_function_node_step(
    codec: Codec,
    responses: Seq<u32>,
) -> CodecStep {
    if responses.len() == 0 {
        send(codec, Node(HDA_NODE_ROOT), HDA_VERB_PARAMS, HDA_PARAM_NODE_COUNT)
    } else {
        match spec_parse_node_count(responses[0]) {
            Err(e) => CodecStep::Failed(e),
            Ok(d) => if responses.len() - 1 < d.count {
                send(
                    codec,
                    Node((d.start_id + responses.len() - 1) as u32),
                    HDA_VERB_PARAMS,
                    HDA_PARAM_FUNCTION_TYPE,
                )
            } else {
                CodecStep::Done
            },
        }
    }
}

/// The next move of this exchange, from the responses so far.
pub fn find_audio_function_node_step(codec: Codec, responses: &[u32]) -> (r: CodecStep)
    ensures
        r == spec_find_audio_function_node_step(codec, responses@),
{
    if responses.len() == 0 {
        return step(codec, Node(HDA_NODE_ROOT), HDA_VERB_PARAMS, HDA_PARAM_NODE_COUNT);
    }
    match parse_node_count(responses[0]) {
        Err(e) => CodecStep::Failed(e),
        Ok(d) => {
            let asked = responses.len() - 1;
            if asked < d.count as usize {
                let node = Node(d.start_id + asked as u32);
                step(codec, node, HDA_VERB_PARAMS, HDA_PARAM_FUNCTION_TYPE)
            } else {
                CodecStep::Done
            }
        },
    }
}

/// Picks the audio function group among the sub-nodes of the root, given
/// their range and the function type that each reported, in order: the
/// first whose type, in the low seven bits of its response, is audio.
/// Where several are, the first counts; where none is, there is no audio
/// function group to be found.
pub fn find_audio_function_node(descriptor: NodeDescriptor, function_types: &[u32]) -> (r: Result<
    Node,
    HdaError,
>)
    requires
        descriptor.start_id + descriptor.count <= u32::MAX,
    ensures
        no_audio_function(function_types@, descriptor.count as int) <==> r == Err::<
            Node,
            HdaError,
        >(HdaError::NotFound),
        forall|i: int|
            first_audio_function(function_types@, descriptor.count as int, i) ==> r == Ok::<
                Node,
                HdaError,
            >(Node((descriptor.start_id + i) as u32)),
        r matches Ok(node) ==> first_audio_function(
            function_types@,
            descriptor.count as int,
            node.0 - descriptor.start_id,
        ),
{
    let mut i: usize = 0;
    while i < function_types.len() && i < descriptor.count as usize
        invariant
            i <= function_types.len(),
            i <= descriptor.count,
            descriptor.start_id + descriptor.count <= u32::MAX,
            forall|j: int| 0 <= j < i ==> !is_audio_function(#[trigger] function_types@[j]),
        decreases function_types.len() - i,
    {
        if function_types[i] & HDA_FUNCTION_TYPE_MASK == HDA_FUNCTION_AUDIO {
            assert(first_audio_function(function_types@, descriptor.count as int, i as int));
            return Ok(Node(descriptor.start_id + i as u32));
        }
        i += 1;
    }
    Err(HdaError::NotFound)
}

/// Number of connection list responses in a probe whose list length read `length`.
pub open spec fn list_words(length: u32) -> int {
    spec_connection_offsets(length).len() as int
}

/// The next move of the probe of one widget, from the responses so far:
/// capabilities, connection list length, the connection list word by word,
/// default configuration and selected connection; for a pin complex then the
/// pin capabilities and, where the pin can detect presence, the pin sense,
/// triggered first where the pin asks for that.
pub open spec fn spec_probe_step(codec: Codec, node: Node, responses: Seq<u32>) -> CodecStep {
    let n = responses.len() as int;
    if n == 0 {
        send(codec, node, HDA_VERB_PARAMS, HDA_PARAM_AUDIO_WIDGET_CAPABILITIES)
    } else if n == 1 {
        send(codec, node, HDA_VERB_PARAMS, HDA_PARAM_CONNECTION_LIST_LENGTH)
    } else {
        let w = list_words(responses[1]);
        if n < 2 + w {
            send(
                codec,
                node,
                HDA_VERB_GET_CONNECTION_LIST,
                spec_connection_offsets(responses[1])[n - 2],
            )
        } else if n == 2 + w {
            send(codec, node, HDA_VERB_GET_CONFIG_DEFAULT, 0)
        } else if n == 3 + w {
            send(codec, node, HDA_VERB_GET_CONNECTION_SELECT, 0)
        } else if field(responses[0], 20, 0xf) != HDA_WIDGET_PIN_COMPLEX {
            CodecStep::Done
        } else if n == 4 + w {
            send(codec, node, HDA_VERB_PARAMS, HDA_PARAM_PIN_WIDGET_CAPABILITIES)
        } else if field(responses[4 + w], 2, 1) == 0 {
            CodecStep::Done
        } else if field(responses[4 + w], 1, 1) == 0 {
            if n == 5 + w {
                send(codec, node, HDA_VERB_GET_PIN_SENSE, 0)
            } else {
                CodecStep::Done
            }
        } else if n == 5 + w {
            send(codec, node, HDA_VERB_EXECUTE_PIN_SENSE, 0)
        } else if n == 6 + w {
            send(codec, node, HDA_VERB_GET_PIN_SENSE, 0)
        } else {
            CodecStep::Done
        }
    }
}

/// What a probe that is complete has read of the widget; `None` for
/// responses that are too few to hold the widget's selected connection.
pub open spec fn spec_probe_result(node: Node, responses: Seq<u32>) -> Option<
    crate::widget::ProbeView,
> {
    if responses.len() < 2 || responses.len() < 4 + list_words(responses[1]) {
        None
    } else {
        let w = list_words(responses[1]);
        let n = responses.len() as int;
        Some(
            crate::widget::ProbeView {
                node,
                capabilities: responses[0],
                list_length: responses[1],
                list_words: responses.subrange(2, 2 + w),
                config: responses[2 + w],
                select: responses[3 + w],
                presence: if field(responses[0], 20, 0xf) == HDA_WIDGET_PIN_COMPLEX && n >= 6 + w
                    && field(responses[4 + w], 2, 1) != 0 {
                    Some(responses[n - 1] & HDA_PIN_SENSE_PRESENCE_DETECT != 0)
                } else {
                    None
                },
            },
        )
    }
}

/// The next move of the probe of the widget `node`.
pub fn probe_step(codec: Codec, node: Node, responses: &[u32]) -> (r: CodecStep)
    ensures
        r == spec_probe_step(codec, node, responses@),
{
    let n = responses.len();
    if n == 0 {
        return step(codec, node, HDA_VERB_PARAMS, HDA_PARAM_AUDIO_WIDGET_CAPABILITIES);
    }
    if n == 1 {
        return step(codec, node, HDA_VERB_PARAMS, HDA_PARAM_CONNECTION_LIST_LENGTH);
    }
    let offsets = connection_offsets(responses[1]);
    let w = offsets.len();
    assert(w <= 64) by {
        let length = responses@[1];
        assert(length & 0x7f <= 0x7f) by (bit_vector);
    }
    if n < 2 + w {
        return step(codec, node, HDA_VERB_GET_CONNECTION_LIST, offsets[n - 2]);
    }
    if n == 2 + w {
        return step(codec, node, HDA_VERB_GET_CONFIG_DEFAULT, 0);
    }
    if n == 3 + w {
        return step(codec, node, HDA_VERB_GET_CONNECTION_SELECT, 0);
    }
    if crate::hda::WidgetCapabilities::from(responses[0]).typ() != HDA_WIDGET_PIN_COMPLEX {
        return CodecStep::Done;
    }
    if n == 4 + w {
        return step(codec, node, HDA_VERB_PARAMS, HDA_PARAM_PIN_WIDGET_CAPABILITIES);
    }
    match pin_sense_plan(responses[4 + w]) {
        PinSense::Skip => CodecStep::Done,
        PinSense::Read => {
            if n == 5 + w {
                step(codec, node, HDA_VERB_GET_PIN_SENSE, 0)
            } else {
                CodecStep::Done
            }
        },
        PinSense::TriggerThenRead => {
            if n == 5 + w {
                step(codec, node, HDA_VERB_EXECUTE_PIN_SENSE, 0)
            } else if n == 6 + w {
                step(codec, node, HDA_VERB_GET_PIN_SENSE, 0)
            } else {
                CodecStep::Done
            }
        },
    }
}

/// Gathers what a complete probe has read of the widget `node`.
pub fn probe_result(node: Node, responses: &[u32]) -> (r: Option<WidgetProbe>)
    ensures
        r is Some <==> spec_probe_result(node, responses@) is Some,
        r matches Some(probe) ==> Some(probe@) == spec_probe_result(node, responses@),
{
    let n = responses.len();
    if n < 2 {
        return None;
    }
    let offsets = connection_offsets(responses[1]);
    let w = offsets.len();
    assert(w <= 64) by {
        let length = responses@[1];
        assert(length & 0x7f <= 0x7f) by (bit_vector);
    }
    if n < 4 + w {
        return None;
    }
    let mut list_words: Vec<u32> = Vec::new();
    let mut i: usize = 0;
    while i < w
        invariant
            i <= w,
            2 + w <= responses.len(),
            list_words@ == responses@.subrange(2, 2 + i),
        decreases w - i,
    {
        list_words.push(responses[2 + i]);
        assert(list_words@ =~= responses@.subrange(2, 2 + i + 1));
        i += 1;
    }
    let is_pin = crate::hda::WidgetCapabilities::from(responses[0]).typ()
        == HDA_WIDGET_PIN_COMPLEX;
    let presence = if is_pin && n >= 6 + w {
        match pin_sense_plan(responses[4 + w]) {
            PinSense::Skip => None,
            _ => Some(presence_detected(responses[n - 1])),
        }
    } else {
        None
    };
    Some(
        WidgetProbe {
            node,
            capabilities: responses[0],
            list_length: responses[1],
            list_words,
            config: responses[2 + w],
            select: responses[3 + w],
            presence,
        },
    )
}

/// The value to write to an amplifier with capabilities `amc` to mute or
/// unmute it: both channels of the output amplifier at the gain that the
/// capabilities give for 0 dB, with the mute bit as asked.
pub open spec fn amplifier_flags(amc: u32, mute: bool) -> u32 {
    let flags = HDA_AMPLIFIER_GAIN_MUTE_SETO_BIT | HDA_AMPLIFIER_GAIN_MUTE_SETL_BIT
        | HDA_AMPLIFIER_GAIN_MUTE_SETR_BIT | (amc & HDA_AMPLIFIER_CAPABILITY_OFFSET_MASK);
    if mute {
        flags | HDA_AMPLIFIER_GAIN_MUTE_MUTE_BIT
    } else {
        flags
    }
}

/// Brings a widget to full power, or down to D3, and checks that the codec
/// reports no error: read the power state, write the new one, let the
/// widget settle, and read again.
pub open spec fn spec_pin_power(
    codec: Codec,
    node: Node,
    up: bool,
    responses: Seq<u32>,
) -> CodecStep {
    if responses.len() == 0 {
        send(codec, node, HDA_VERB_GET_POWER_STATE, 0)
    } else if responses.len() == 1 {
        send(
            codec,
            node,
            HDA_VERB_SET_POWER_STATE,
            if up {
                HDA_POWER_STATE_D0
            } else {
                HDA_POWER_STATE_D3HOT
            },
        )
    } else if responses.len() == 2 {
        send_settled(codec, node, HDA_VERB_GET_POWER_STATE, 0)
    } else if responses[2] & HDA_POWER_STATE_ERROR_BIT != 0 {
        CodecStep::Failed(HdaError::DeviceError)
    } else {
        CodecStep::Done
    }
}

/// The next move of this exchange, from the responses so far.
pub fn pin_power(codec: Codec, node: Node, up: bool, responses: &[u32]) -> (r: CodecStep)
    ensures
        r == spec_pin_power(codec, node, up, responses@),
{
    let n = responses.len();
    if n == 0 {
        step(codec, node, HDA_VERB_GET_POWER_STATE, 0)
    } else if n == 1 {
        if up {
            step(codec, node, HDA_VERB_SET_POWER_STATE, HDA_POWER_STATE_D0)
        } else {
            step(codec, node, HDA_VERB_SET_POWER_STATE, HDA_POWER_STATE_D3HOT)
        }
    } else if n == 2 {
        step_settled(codec, node, HDA_VERB_GET_POWER_STATE, 0)
    } else if (responses[2] & HDA_POWER_STATE_ERROR_BIT) != 0 {
        CodecStep::Failed(HdaError::DeviceError)
    } else {
        CodecStep::Done
    }
}

/// Switches the output of a pin on or off: read the pin control, write it
/// back with the output enable set or cleared, let the pin settle, and
/// read it again.
pub open spec fn spec_pin_enable_output(
    codec: Codec,
    node: Node,
    enable: bool,
    responses: Seq<u32>,
) -> CodecStep {
    if responses.len() == 0 {
        send(codec, node, HDA_VERB_GET_PIN_WIDGET_CONTROL, 0)
    } else if responses.len() == 1 {
        send(
            codec,
            node,
            HDA_VERB_SET_PIN_WIDGET_CONTROL,
            if enable {
                responses[0] | HDA_PIN_WIDGET_CONTROL_OUT_ENABLE_BIT
            } else {
                responses[0] & !HDA_PIN_WIDGET_CONTROL_OUT_ENABLE_BIT
            },
        )
    } else if responses.len() == 2 {
        send_settled(codec, node, HDA_VERB_GET_PIN_WIDGET_CONTROL, 0)
    } else {
        CodecStep::Done
    }
}

/// The next move of this exchange, from the responses so far.
pub fn pin_enable_output(
    codec: Codec,
    node: Node,
    enable: bool,
    responses: &[u32],
) -> (r: CodecStep)
    ensures
        r == spec_pin_enable_output(codec, node, enable, responses@),
{
    let n = responses.len();
    if n == 0 {
        step(codec, node, HDA_VERB_GET_PIN_WIDGET_CONTROL, 0)
    } else if n == 1 {
        let ctl = responses[0];
        if enable {
            step(
                codec,
                node,
                HDA_VERB_SET_PIN_WIDGET_CONTROL,
                ctl | HDA_PIN_WIDGET_CONTROL_OUT_ENABLE_BIT,
            )
        } else {
            step(
                codec,
                node,
                HDA_VERB_SET_PIN_WIDGET_CONTROL,
                ctl & !HDA_PIN_WIDGET_CONTROL_OUT_ENABLE_BIT,
            )
        }
    } else if n == 2 {
        step_settled(codec, node, HDA_VERB_GET_PIN_WIDGET_CONTROL, 0)
    } else {
        CodecStep::Done
    }
}

/// Switches the external amplifier of a pin on or off, where the pin
/// controls one: read the pin capabilities and, if they name the control,
/// read the enables and write them back with both set or both cleared.
pub open spec fn spec_pin_enable_eapd(
    codec: Codec,
    node: Node,
    enable: bool,
    responses: Seq<u32>,
) -> CodecStep {
    if responses.len() == 0 {
        send(codec, node, HDA_VERB_PARAMS, HDA_PARAM_PIN_WIDGET_CAPABILITIES)
    } else if responses[0] & HDA_PIN_CAPABILITY_EAPDBTL_BIT == 0 {
        CodecStep::Done
    } else if responses.len() == 1 {
        send(codec, node, HDA_VERB_GET_EAPDBTL_ENABLE, 0)
    } else if responses.len() == 2 {
        send(
            codec,
            node,
            HDA_VERB_SET_EAPDBTL_ENABLE,
            if enable {
                responses[1] | HDA_PIN_EAPDBTL_ENABLE_MASK
            } else {
                responses[1] & !HDA_PIN_EAPDBTL_ENABLE_MASK
            },
        )
    } else {
        CodecStep::Done
    }
}

/// The next move of this exchange, from the responses so far.
pub fn pin_enable_eapd(codec: Codec, node: Node, enable: bool, responses: &[u32]) -> (r: CodecStep)
    ensures
        r == spec_pin_enable_eapd(codec, node, enable, responses@),
{
    let n = responses.len();
    if n == 0 {
        return step(codec, node, HDA_VERB_PARAMS, HDA_PARAM_PIN_WIDGET_CAPABILITIES);
    }
    if (responses[0] & HDA_PIN_CAPABILITY_EAPDBTL_BIT) == 0 {
        return CodecStep::Done;
    }
    if n == 1 {
        step(codec, node, HDA_VERB_GET_EAPDBTL_ENABLE, 0)
    } else if n == 2 {
        let eapd = responses[1];
        if enable {
            step(codec, node, HDA_VERB_SET_EAPDBTL_ENABLE, eapd | HDA_PIN_EAPDBTL_ENABLE_MASK)
        } else {
            step(codec, node, HDA_VERB_SET_EAPDBTL_ENABLE, eapd & !HDA_PIN_EAPDBTL_ENABLE_MASK)
        }
    } else {
        CodecStep::Done
    }
}

/// Mutes or unmutes the output amplifier of a widget: read the amplifier
/// capabilities and, if the amplifier can mute, write gain and mute. A
/// widget whose amplifier cannot mute is left alone.
pub open spec fn spec_pin_mute_unmute(
    codec: Codec,
    node: Node,
    mute: bool,
    responses: Seq<u32>,
) -> CodecStep {
    if responses.len() == 0 {
        send(codec, node, HDA_VERB_PARAMS, HDA_PARAM_AMPLIFIER_OUTPUT_CAPABILITY)
    } else if responses.len() == 1 && responses[0] & HDA_AMPLIFIER_CAPABILITY_MUTE_BIT
        != 0 {
        send(
            codec,
            node,
            HDA_VERB_SET_AMPLIFIER_GAIN_MUTE,
            amplifier_flags(responses[0], mute),
        )
    } else {
        CodecStep::Done
    }
}

/// The next move of this exchange, from the responses so far.
pub fn pin_mute_unmute(codec: Codec, node: Node, mute: bool, responses: &[u32]) -> (r: CodecStep)
    ensures
        r == spec_pin_mute_unmute(codec, node, mute, responses@),
{
    let n = responses.len();
    if n == 0 {
        return step(codec, node, HDA_VERB_PARAMS, HDA_PARAM_AMPLIFIER_OUTPUT_CAPABILITY);
    }
    let amc = responses[0];
    if n == 1 && (amc & HDA_AMPLIFIER_CAPABILITY_MUTE_BIT) != 0 {
        let offset = amc & HDA_AMPLIFIER_CAPABILITY_OFFSET_MASK;
        let mut flags = HDA_AMPLIFIER_GAIN_MUTE_SETO_BIT | HDA_AMPLIFIER_GAIN_MUTE_SETL_BIT
            | HDA_AMPLIFIER_GAIN_MUTE_SETR_BIT | offset;
        if mute {
            flags = flags | HDA_AMPLIFIER_GAIN_MUTE_MUTE_BIT;
        }
        step(codec, node, HDA_VERB_SET_AMPLIFIER_GAIN_MUTE, flags)
    } else {
        CodecStep::Done
    }
}

/// Selects the connection with index `index` of a widget: read the
/// connection list length and the current selection and, if the index lies
/// below the length, write the selection and read it back.
pub open spec fn spec_pin_select(
    codec: Codec,
    node: Node,
    index: usize,
    responses: Seq<u32>,
) -> CodecStep {
    if responses.len() == 0 {
        send(codec, node, HDA_VERB_PARAMS, HDA_PARAM_CONNECTION_LIST_LENGTH)
    } else if responses.len() == 1 {
        send(codec, node, HDA_VERB_GET_CONNECTION_SELECT, 0)
    } else if index >= responses[0] {
        CodecStep::Done
    } else if responses.len() == 2 {
        send(codec, node, HDA_VERB_SET_CONNECTION_SELECT, index as u32)
    } else if responses.len() == 3 {
        send(codec, node, HDA_VERB_GET_CONNECTION_SELECT, 0)
    } else {
        CodecStep::Done
    }
}

/// The next move of this exchange, from the responses so far.
pub fn pin_select(codec: Codec, node: Node, index: usize, responses: &[u32]) -> (r: CodecStep)
    ensures
        r == spec_pin_select(codec, node, index, responses@),
{
    let n = responses.len();
    if n == 0 {
        return step(codec, node, HDA_VERB_PARAMS, HDA_PARAM_CONNECTION_LIST_LENGTH);
    }
    if n == 1 {
        return step(codec, node, HDA_VERB_GET_CONNECTION_SELECT, 0);
    }
    let len = responses[0];
    if index >= len as usize {
        return CodecStep::Done;
    }
    if n == 2 {
        step(codec, node, HDA_VERB_SET_CONNECTION_SELECT, index as u32)
    } else if n == 3 {
        step(codec, node, HDA_VERB_GET_CONNECTION_SELECT, 0)
    } else {
        CodecStep::Done
    }
}

/// Puts a converter or mixer on the stream with tag `mask`, or takes it off
/// every stream with 0: read the stream and channel, write them, and read
/// them back.
pub open spec fn spec_codec_set_stream(
    codec: Codec,
    node: Node,
    mask: u8,
    responses: Seq<u32>,
) -> CodecStep {
    if responses.len() == 0 {
        send(codec, node, HDA_VERB_GET_CHANNEL_STREAM, 0)
    } else if responses.len() == 1 {
        send(codec, node, HDA_VERB_SET_CHANNEL_STREAM, mask as u32)
    } else if responses.len() == 2 {
        send(codec, node, HDA_VERB_GET_CHANNEL_STREAM, 0)
    } else {
        CodecStep::Done
    }
}

/// The next move of this exchange, from the responses so far.
pub fn codec_set_stream(codec: Codec, node: Node, mask: u8, responses: &[u32]) -> (r: CodecStep)
    ensures
        r == spec_codec_set_stream(codec, node, mask, responses@),
{
    let n = responses.len();
    if n == 0 {
        step(codec, node, HDA_VERB_GET_CHANNEL_STREAM, 0)
    } else if n == 1 {
        step(codec, node, HDA_VERB_SET_CHANNEL_STREAM, mask as u32)
    } else if n == 2 {
        step(codec, node, HDA_VERB_GET_CHANNEL_STREAM, 0)
    } else {
        CodecStep::Done
    }
}

/// Writes the sample format of a converter or mixer and reads it back.
pub open spec fn spec_codec_set_format(
    codec: Codec,
    node: Node,
    format: u16,
    responses: Seq<u32>,
) -> CodecStep {
    if responses.len() == 0 {
        send(codec, node, HDA_VERB_SET_STREAM_FORMAT, format as u32)
    } else if responses.len() == 1 {
        send(codec, node, HDA_VERB_GET_STREAM_FORMAT, 0)
    } else {
        CodecStep::Done
    }
}

/// The next move of this exchange, from the responses so far.
pub fn codec_set_format(codec: Codec, node: Node, format: u16, responses: &[u32]) -> (r: CodecStep)
    ensures
        r == spec_codec_set_format(codec, node, format, responses@),
{
    let n = responses.len();
    if n == 0 {
        step(codec, node, HDA_VERB_SET_STREAM_FORMAT, format as u32)
    } else if n == 1 {
        step(codec, node, HDA_VERB_GET_STREAM_FORMAT, 0)
    } else {
        CodecStep::Done
    }
}

/// The next move of the exchange that carries out `action`.
pub open spec fn spec_action_step(
    codec: Codec,
    action: WidgetAction,
    responses: Seq<u32>,
) -> CodecStep {
    match action {
        WidgetAction::PowerUp { node } => spec_pin_power(codec, node, true, responses),
        WidgetAction::EnableOutput { node } => spec_pin_enable_output(codec, node, true, responses),
        WidgetAction::Unmute { node } => spec_pin_mute_unmute(codec, node, false, responses),
        WidgetAction::EnableEapd { node } => spec_pin_enable_eapd(codec, node, true, responses),
        WidgetAction::Select { node, index } => spec_pin_select(codec, node, index, responses),
        WidgetAction::SetStream { node, tag } => spec_codec_set_stream(codec, node, tag, responses),
        WidgetAction::SetFormat { node, format } => spec_codec_set_format(
            codec,
            node,
            format,
            responses,
        ),
        WidgetAction::Mute { node } => spec_pin_mute_unmute(codec, node, true, responses),
    }
}

/// The next move of the exchange that carries out one action of a plan.
pub fn action_step(codec: Codec, action: WidgetAction, responses: &[u32]) -> (r: CodecStep)
    ensures
        r == spec_action_step(codec, action, responses@),
{
    match action {
        WidgetAction::PowerUp { node } => pin_power(codec, node, true, responses),
        WidgetAction::EnableOutput { node } => pin_enable_output(codec, node, true, responses),
        WidgetAction::Unmute { node } => pin_mute_unmute(codec, node, false, responses),
        WidgetAction::EnableEapd { node } => pin_enable_eapd(codec, node, true, responses),
        WidgetAction::Select { node, index } => pin_select(codec, node, index, responses),
        WidgetAction::SetStream { node, tag } => codec_set_stream(codec, node, tag, responses),
        WidgetAction::SetFormat { node, format } => {
            codec_set_format(codec, node, format, responses)
        },
        WidgetAction::Mute { node } => pin_mute_unmute(codec, node, true, responses),
    }
}

/// No exchange that carries out an action goes on for ever: after four
/// responses every one of them is complete or has failed.
pub proof fn lemma_action_ends(codec: Codec, action: WidgetAction, responses: Seq<u32>)
    requires
        responses.len() >= 4,
    ensures
        !(spec_action_step(codec, action, responses) is Send),
{
}

/// A probe that is complete has read what makes up the widget.
pub proof fn lemma_probe_complete(codec: Codec, node: Node, responses: Seq<u32>)
    requires
        spec_probe_step(codec, node, responses) == CodecStep::Done,
    ensures
        spec_probe_result(node, responses) is Some,
{
}

/// A search for the audio function group that is complete has asked every
/// sub-node of the root for its function type.
pub proof fn lemma_search_complete(codec: Codec, responses: Seq<u32>)
    requires
        spec_find_audio_function_node_step(codec, responses) == CodecStep::Done,
    ensures
        responses.len() > 0,
        spec_parse_node_count(responses[0]) matches Ok(range) && responses.len() - 1
            >= range.count,
{
}

/// A probe ends: the moves after the first 71 responses are all `Done`.
pub proof fn lemma_probe_ends(codec: Codec, node: Node, responses: Seq<u32>)
    requires
        responses.len() >= 71,
    ensures
        spec_probe_step(codec, node, responses) == CodecStep::Done,
{
    let length = responses[1];
    assert(length & 0x7f <= 0x7f) by (bit_vector);
}

/// What prepares a function group for playback: the group itself, then
/// each of its widgets, is brought to full power, and each widget has its
/// output enabled.
pub open spec fn spec_power_up(
    afg: Node,
    descriptor: NodeDescriptor,
    upto: int,
) -> Seq<WidgetAction>
    decreases upto,
{
    if upto <= 0 {
        seq![WidgetAction::PowerUp { node: afg }]
    } else {
        spec_power_up(afg, descriptor, upto - 1) + seq![
            WidgetAction::PowerUp { node: Node((descriptor.start_id + upto - 1) as u32) },
            WidgetAction::EnableOutput { node: Node((descriptor.start_id + upto - 1) as u32) },
        ]
    }
}

/// The actions that prepare the function group `afg`, whose widgets
/// `descriptor` names, for playback.
pub fn codec_power_up(afg: Node, descriptor: NodeDescriptor) -> (actions: Vec<WidgetAction>)
    requires
        descriptor.start_id + descriptor.count <= u32::MAX,
    ensures
        actions@ == spec_power_up(afg, descriptor, descriptor.count as int),
{
    let mut actions: Vec<WidgetAction> = Vec::new();
    actions.push(WidgetAction::PowerUp { node: afg });
    let mut i: u32 = 0;
    while i < descriptor.count
        invariant
            i <= descriptor.count,
            descriptor.start_id + descriptor.count <= u32::MAX,
            actions@ == spec_power_up(afg, descriptor, i as int),
        decreases descriptor.count - i,
    {
        let node = Node(descriptor.start_id + i);
        actions.push(WidgetAction::PowerUp { node });
        actions.push(WidgetAction::EnableOutput { node });
        assert(actions@ =~= spec_power_up(afg, descriptor, i as int) + seq![
            WidgetAction::PowerUp { node },
            WidgetAction::EnableOutput { node },
        ]);
        i += 1;
    }
    actions
}

} // verus!
