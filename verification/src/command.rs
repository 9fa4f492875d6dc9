//! Commands of the link: the parts of a command word, the verbs and
//! parameters that the driver uses, and the node count response.

use vstd::prelude::*;
use crate::error::HdaError;

verus! {

/// Operand of a verb.
#[derive(Clone, Copy, Debug, PartialEq, Eq, Structural)]
pub struct Param(pub u32);

/// Address of a codec on the link, 0 to 15.
#[derive(Clone, Copy, Debug, PartialEq, Eq, Structural)]
pub struct Codec(pub u32);

/// Identifier of a node within a codec.
#[derive(Clone, Copy, Debug, PartialEq, Eq, Structural, PartialOrd, Ord)]
pub struct Node(pub u32);

/// Opcode sent to a node.
#[derive(Clone, Copy, Debug, PartialEq, Eq, Structural)]
pub struct Verb(pub u32);

/// Identifier of the root node of every codec.
pub const HDA_NODE_ROOT: u32 = 0x0;

pub const HDA_VERB_PARAMS: u32 = 0xf00;
pub const HDA_VERB_GET_CHANNEL_STREAM: u32 = 0xf06;
pub const HDA_VERB_SET_CHANNEL_STREAM: u32 = 0x706;
pub const HDA_VERB_SET_STREAM_FORMAT: u32 = 0x200;
pub const HDA_VERB_GET_STREAM_FORMAT: u32 = 0xa00;
pub const HDA_VERB_GET_CONFIG_DEFAULT: u32 = 0xf1c;
pub const HDA_VERB_GET_PIN_WIDGET_CONTROL: u32 = 0xf07;
pub const HDA_VERB_GET_CONNECTION_LIST: u32 = 0xf02;
pub const HDA_VERB_GET_AMPLIFIER_GAIN_MUTE: u32 = 0xb00;
pub const HDA_VERB_SET_AMPLIFIER_GAIN_MUTE: u32 = 0x300;
pub const HDA_VERB_GET_EAPDBTL_ENABLE: u32 = 0xf0c;
pub const HDA_VERB_SET_EAPDBTL_ENABLE: u32 = 0x70c;
pub const HDA_VERB_SET_PIN_WIDGET_CONTROL: u32 = 0x707;
pub const HDA_VERB_SET_POWER_STATE: u32 = 0x705;
pub const HDA_VERB_GET_POWER_STATE: u32 = 0xf05;
pub const HDA_VERB_GET_CONNECTION_SELECT: u32 = 0xf01;
pub const HDA_VERB_SET_CONNECTION_SELECT: u32 = 0x701;
pub const HDA_VERB_GET_PIN_SENSE: u32 = 0xf09;
pub const HDA_VERB_EXECUTE_PIN_SENSE: u32 = 0x709;

pub const HDA_PARAM_VID: u32 = 0x0;
pub const HDA_PARAM_NODE_COUNT: u32 = 0x4;
pub const HDA_PARAM_FUNCTION_TYPE: u32 = 0x5;
pub const HDA_PARAM_AUDIO_WIDGET_CAPABILITIES: u32 = 0x9;
pub const HDA_PARAM_SUPPORTED_PCM: u32 = 0xa;
pub const HDA_PARAM_PIN_WIDGET_CAPABILITIES: u32 = 0xc;
pub const HDA_PARAM_CONNECTION_LIST_LENGTH: u32 = 0xe;
pub const HDA_PARAM_SUPPORTED_POWER_STATES: u32 = 0xf;
pub const HDA_PARAM_AMPLIFIER_OUTPUT_CAPABILITY: u32 = 0x12;
pub const HDA_PARAM_VOLUME_KNOB_CAPABILITIES: u32 = 0x13;

/// Response to a node count query that stands for a hardware error.
pub const NODE_COUNT_ERROR: u32 = 0xffff_ffff;

/// The command word: codec address at bit 28, node at bit 20, verb at bit 8
/// and the operand in the low bits.
pub open spec fn spec_make_command(codec: Codec, node: Node, verb: Verb, param: Param) -> u32 {
    (codec.0 << 28) | (node.0 << 20) | (verb.0 << 8) | param.0
}

/// Packs a command for the link.
#[verifier::when_used_as_spec(spec_make_command)]
pub fn make_command(codec: Codec, node: Node, verb: Verb, param: Param) -> (r: u32)
    ensures
        r == spec_make_command(codec, node, verb, param),
{
    (codec.0 << 28) | (node.0 << 20) | (verb.0 << 8) | (param.0)
}

/// Whether the four parts fit their places in a command word: a 4-bit codec
/// address, an 8-bit node, and either a 12-bit verb with an 8-bit operand or
/// a 4-bit verb, written with its low eight bits zero, with a 16-bit operand.
pub open spec fn command_fits(codec: Codec, node: Node, verb: Verb, param: Param) -> bool {
    &&& codec.0 < 0x10
    &&& node.0 < 0x100
    &&& verb.0 < 0x1000
    &&& param.0 < 0x1_0000
    &&& (param.0 < 0x100 || verb.0 & 0xff == 0)
}

/// A command whose parts fit can be taken apart again: no part spills into
/// another's place.
pub proof fn lemma_command_parts(codec: Codec, node: Node, verb: Verb, param: Param)
    requires
        command_fits(codec, node, verb, param),
    ensures
        spec_make_command(codec, node, verb, param) >> 28 == codec.0,
        (spec_make_command(codec, node, verb, param) >> 20) & 0xff == node.0,
        spec_make_command(codec, node, verb, param) & 0xf_ffff == (verb.0 << 8) | param.0,
        param.0 < 0x100 ==> (spec_make_command(codec, node, verb, param) >> 8) & 0xfff == verb.0
            && spec_make_command(codec, node, verb, param) & 0xff == param.0,
        param.0 >= 0x100 ==> (spec_make_command(codec, node, verb, param) >> 16) & 0xf == verb.0
            >> 8 && spec_make_command(codec, node, verb, param) & 0xffff == param.0,
{
    let c = codec.0;
    let n = node.0;
    let v = verb.0;
    let p = param.0;
    let w = (c << 28) | (n << 20) | (v << 8) | p;
    assert(w >> 28 == c && (w >> 20) & 0xff == n && w & 0xf_ffff == (v << 8) | p && (p < 0x100
        ==> (w >> 8) & 0xfff == v && w & 0xff == p) && (p >= 0x100 ==> (w >> 16) & 0xf == v >> 8
        && w & 0xffff == p)) by (bit_vector)
        requires
            w == (c << 28) | (n << 20) | (v << 8) | p,
            c < 0x10,
            n < 0x100,
            v < 0x1000,
            p < 0x1_0000,
            p < 0x100 || v & 0xff == 0,
    ;
}

/// The sub-nodes of a node: `count` of them, numbered from `start_id`.
#[derive(Clone, Copy, Debug, PartialEq, Eq, Structural)]
pub struct NodeDescriptor {
    pub start_id: u32,
    pub count: u32,
}

/// What a node count response says, unless it is the error value.
pub open spec fn spec_parse_node_count(response: u32) -> Result<NodeDescriptor, HdaError> {
    if response == NODE_COUNT_ERROR {
        Err(HdaError::DeviceError)
    } else {
        Ok(NodeDescriptor { start_id: (response >> 16) & 0x7fff, count: response & 0x7fff })
    }
}

/// Decodes the response to a node count query: the first sub-node's
/// identifier in bits 30:16 and the number of sub-nodes in bits 14:0. A
/// response of all ones is the hardware's way to report an error.
#[verifier::when_used_as_spec(spec_parse_node_count)]
pub fn parse_node_count(response: u32) -> (r: Result<NodeDescriptor, HdaError>)
    ensures
        r == spec_parse_node_count(response),
        r is Err <==> response == NODE_COUNT_ERROR,
        r matches Ok(d) ==> d.start_id <= 0x7fff && d.count <= 0x7fff,
{
    if response == NODE_COUNT_ERROR {
        return Err(HdaError::DeviceError);
    }
    let start_id = (response >> 16) & 0x7fff;
    let count = response & 0x7fff;
    assert((response >> 16) & 0x7fff <= 0x7fff && response & 0x7fff <= 0x7fff) by (bit_vector);
    Ok(NodeDescriptor { start_id, count })
}

} // verus!
