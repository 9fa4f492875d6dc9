use efi_hda::codec::{
    action_step, codec_power_up, codec_set_format, codec_set_stream, find_audio_function_node,
    find_audio_function_node_step, node_count_command, pin_enable_eapd, pin_enable_output,
    pin_mute_unmute, pin_power, pin_select, probe_command, probe_result, probe_step, CodecStep,
};
use efi_hda::command::{parse_node_count, Codec, Node, NodeDescriptor};
use efi_hda::error::HdaError;
use efi_hda::path::hda_find_dac;
use efi_hda::setup::{codec_setup_stream, WidgetAction};
use efi_hda::widget::{collect_nodes, PathNode};

fn send(command: u32) -> CodecStep {
    CodecStep::Send { command, stall: 0 }
}

fn settled(command: u32) -> CodecStep {
    CodecStep::Send { command, stall: 5000 }
}

#[test]
fn probe_command_asks_for_the_vendor() {
    assert_eq!(probe_command(0), 0x000f_0000);
    assert_eq!(probe_command(3), 0x300f_0000);
    assert_eq!(node_count_command(Codec(1), Node(2)), 0x102f_0004);
}

#[test]
fn function_group_search_steps() {
    let codec = Codec(2);
    assert_eq!(find_audio_function_node_step(codec, &[]), send(0x200f_0004));
    // two sub-nodes from node 1 on
    assert_eq!(find_audio_function_node_step(codec, &[0x0001_0002]), send(0x201f_0005));
    assert_eq!(find_audio_function_node_step(codec, &[0x0001_0002, 2]), send(0x202f_0005));
    assert_eq!(find_audio_function_node_step(codec, &[0x0001_0002, 2, 1]), CodecStep::Done);
    assert_eq!(find_audio_function_node_step(codec, &[0x0001_0000]), CodecStep::Done);
    assert_eq!(
        find_audio_function_node_step(codec, &[0xffff_ffff]),
        CodecStep::Failed(HdaError::DeviceError)
    );
}

#[test]
fn function_group_is_the_first_audio_node() {
    let range = NodeDescriptor { start_id: 2, count: 3 };
    assert_eq!(find_audio_function_node(range, &[0x2, 0x101, 0x1]), Ok(Node(3)));
    assert_eq!(find_audio_function_node(range, &[0x1, 0x1, 0x1]), Ok(Node(2)));
    assert_eq!(find_audio_function_node(range, &[0x2, 0x0, 0x81]), Ok(Node(4)));
}

#[test]
fn function_group_not_found() {
    let range = NodeDescriptor { start_id: 2, count: 3 };
    assert_eq!(find_audio_function_node(range, &[0x2, 0x2, 0x0]), Err(HdaError::NotFound));
    assert_eq!(find_audio_function_node(range, &[]), Err(HdaError::NotFound));
    // a node beyond the range does not count
    assert_eq!(find_audio_function_node(range, &[0, 0, 0, 1]), Err(HdaError::NotFound));
    let none = NodeDescriptor { start_id: 2, count: 0 };
    assert_eq!(find_audio_function_node(none, &[1]), Err(HdaError::NotFound));
}

#[test]
fn probe_of_a_converter() {
    let (codec, node) = (Codec(0), Node(2));
    let mut responses = vec![];
    assert_eq!(probe_step(codec, node, &responses), send(0x002f_0009));
    responses.push(0x0000_0001);
    assert_eq!(probe_step(codec, node, &responses), send(0x002f_000e));
    responses.push(0);
    assert_eq!(probe_step(codec, node, &responses), send(0x002f_1c00));
    responses.push(0);
    assert_eq!(probe_step(codec, node, &responses), send(0x002f_0100));
    assert!(probe_result(node, &responses).is_none());
    responses.push(0);
    assert_eq!(probe_step(codec, node, &responses), CodecStep::Done);
    let probe = probe_result(node, &responses).unwrap();
    assert!(matches!(probe.classify(), Some(PathNode::AudioOut { node: Node(2) })));
}

#[test]
fn probe_of_a_pin_with_triggered_sense() {
    let (codec, node) = (Codec(1), Node(5));
    // a pin complex with five connections in short form
    let script = [
        (0x105f_0009, 0x0040_0100),
        (0x105f_000e, 5),
        (0x105f_0200, 0x0504_0302),
        (0x105f_0204, 0x0000_0006),
        (0x105f_1c00, 0x0221_401f),
        (0x105f_0100, 1),
        (0x105f_000c, 0x0000_0006),
        (0x1057_0900, 0),
        (0x105f_0900, 0x8000_0000),
    ];
    let mut responses = vec![];
    for (command, response) in script {
        assert_eq!(probe_step(codec, node, &responses), send(command));
        responses.push(response);
    }
    assert_eq!(probe_step(codec, node, &responses), CodecStep::Done);
    let probe = probe_result(node, &responses).unwrap();
    assert_eq!(probe.list_words, vec![0x0504_0302, 0x0000_0006]);
    assert_eq!(probe.config, 0x0221_401f);
    assert_eq!(probe.select, 1);
    assert_eq!(probe.presence, Some(true));
    match probe.classify() {
        Some(PathNode::PinComplex { connections, presence, .. }) => {
            assert_eq!(connections, vec![Node(2), Node(3), Node(4), Node(5), Node(6)]);
            assert_eq!(presence, Some(true));
        }
        other => panic!("not a pin: {:?}", other),
    }
}

#[test]
fn probe_of_a_pin_without_presence_detect() {
    let (codec, node) = (Codec(0), Node(6));
    let mut responses = vec![0x0040_0000, 0, 0x9010_0000, 0];
    assert_eq!(probe_step(codec, node, &responses), send(0x006f_000c));
    responses.push(0x0000_0010);
    assert_eq!(probe_step(codec, node, &responses), CodecStep::Done);
    assert_eq!(probe_result(node, &responses).unwrap().presence, None);
    // with presence detect but no trigger: one more query
    responses[4] = 0x0000_0004;
    assert_eq!(probe_step(codec, node, &responses), send(0x006f_0900));
    responses.push(0x0000_0001);
    assert_eq!(probe_step(codec, node, &responses), CodecStep::Done);
    assert_eq!(probe_result(node, &responses).unwrap().presence, Some(false));
}

#[test]
fn probe_reads_long_connection_lists() {
    let (codec, node) = (Codec(0), Node(7));
    let responses = [0x0020_0000, 0x83];
    assert_eq!(probe_step(codec, node, &responses), send(0x007f_0200));
    let responses = [0x0020_0000, 0x83, 0x0003_0002];
    assert_eq!(probe_step(codec, node, &responses), send(0x007f_0202));
    let responses = [0x0020_0000, 0x83, 0x0003_0002, 0x0000_0104, 0, 0];
    assert_eq!(probe_step(codec, node, &responses), CodecStep::Done);
    match probe_result(node, &responses).unwrap().classify() {
        Some(PathNode::AudioMix { connections, .. }) => {
            assert_eq!(connections, vec![Node(2), Node(3), Node(0x104)]);
        }
        other => panic!("not a mixer: {:?}", other),
    }
}

#[test]
fn power_exchange() {
    let (codec, node) = (Codec(0), Node(2));
    assert_eq!(pin_power(codec, node, true, &[]), send(0x002f_0500));
    assert_eq!(pin_power(codec, node, true, &[0x33]), send(0x0027_0500));
    assert_eq!(pin_power(codec, node, false, &[0x33]), send(0x0027_0503));
    assert_eq!(pin_power(codec, node, true, &[0x33, 0]), settled(0x002f_0500));
    assert_eq!(pin_power(codec, node, true, &[0x33, 0, 0]), CodecStep::Done);
    assert_eq!(
        pin_power(codec, node, true, &[0x33, 0, 0x100]),
        CodecStep::Failed(HdaError::DeviceError)
    );
}

#[test]
fn output_enable_exchange() {
    let (codec, node) = (Codec(0), Node(5));
    assert_eq!(pin_enable_output(codec, node, true, &[]), send(0x005f_0700));
    assert_eq!(pin_enable_output(codec, node, true, &[0x20]), send(0x0057_0760));
    assert_eq!(pin_enable_output(codec, node, false, &[0x60]), send(0x0057_0720));
    assert_eq!(pin_enable_output(codec, node, true, &[0x20, 0]), settled(0x005f_0700));
    assert_eq!(pin_enable_output(codec, node, true, &[0x20, 0, 0x60]), CodecStep::Done);
}

#[test]
fn eapd_exchange() {
    let (codec, node) = (Codec(0), Node(5));
    assert_eq!(pin_enable_eapd(codec, node, true, &[]), send(0x005f_000c));
    assert_eq!(pin_enable_eapd(codec, node, true, &[0x0000_ffff]), CodecStep::Done);
    assert_eq!(pin_enable_eapd(codec, node, true, &[0x0001_0000]), send(0x005f_0c00));
    assert_eq!(pin_enable_eapd(codec, node, true, &[0x0001_0000, 0x4]), send(0x0057_0c07));
    assert_eq!(pin_enable_eapd(codec, node, false, &[0x0001_0000, 0x7]), send(0x0057_0c04));
    assert_eq!(pin_enable_eapd(codec, node, true, &[0x0001_0000, 0x4, 0]), CodecStep::Done);
}

#[test]
fn mute_exchange() {
    let (codec, node) = (Codec(0), Node(4));
    assert_eq!(pin_mute_unmute(codec, node, false, &[]), send(0x004f_0012));
    // the amplifier can mute and has its 0 dB step at 0x4a
    assert_eq!(pin_mute_unmute(codec, node, false, &[0x8005_1f4a]), send(0x0043_b04a));
    assert_eq!(pin_mute_unmute(codec, node, true, &[0x8005_1f4a]), send(0x0043_b0ca));
    assert_eq!(pin_mute_unmute(codec, node, true, &[0x8005_1f4a, 0]), CodecStep::Done);
    // an amplifier that cannot mute is left alone
    assert_eq!(pin_mute_unmute(codec, node, true, &[0x0005_1f4a]), CodecStep::Done);
}

#[test]
fn select_exchange() {
    let (codec, node) = (Codec(0), Node(5));
    assert_eq!(pin_select(codec, node, 1, &[]), send(0x005f_000e));
    assert_eq!(pin_select(codec, node, 1, &[2]), send(0x005f_0100));
    assert_eq!(pin_select(codec, node, 1, &[2, 0]), send(0x0057_0101));
    assert_eq!(pin_select(codec, node, 1, &[2, 0, 0]), send(0x005f_0100));
    assert_eq!(pin_select(codec, node, 1, &[2, 0, 0, 1]), CodecStep::Done);
    // an index beyond the list is not written
    assert_eq!(pin_select(codec, node, 2, &[2, 0]), CodecStep::Done);
    assert_eq!(pin_select(codec, node, 0, &[0, 0]), CodecStep::Done);
}

#[test]
fn stream_and_format_exchanges() {
    let (codec, node) = (Codec(0), Node(2));
    assert_eq!(codec_set_stream(codec, node, 0x10, &[]), send(0x002f_0600));
    assert_eq!(codec_set_stream(codec, node, 0x10, &[0]), send(0x0027_0610));
    assert_eq!(codec_set_stream(codec, node, 0, &[0x10]), send(0x0027_0600));
    assert_eq!(codec_set_stream(codec, node, 0x10, &[0, 0]), send(0x002f_0600));
    assert_eq!(codec_set_stream(codec, node, 0x10, &[0, 0, 0x10]), CodecStep::Done);
    assert_eq!(codec_set_format(codec, node, 0x4011, &[]), send(0x0022_4011));
    assert_eq!(codec_set_format(codec, node, 0x4011, &[0]), send(0x002a_0000));
    assert_eq!(codec_set_format(codec, node, 0x4011, &[0, 0x4011]), CodecStep::Done);
}

#[test]
fn actions_use_their_exchanges() {
    let codec = Codec(0);
    let node = Node(4);
    assert_eq!(
        action_step(codec, WidgetAction::PowerUp { node }, &[0]),
        pin_power(codec, node, true, &[0])
    );
    assert_eq!(
        action_step(codec, WidgetAction::EnableOutput { node }, &[0x20]),
        pin_enable_output(codec, node, true, &[0x20])
    );
    assert_eq!(
        action_step(codec, WidgetAction::Unmute { node }, &[0x8000_0005]),
        send(0x0043_b005)
    );
    assert_eq!(
        action_step(codec, WidgetAction::Mute { node }, &[0x8000_0005]),
        send(0x0043_b085)
    );
    assert_eq!(
        action_step(codec, WidgetAction::EnableEapd { node }, &[0x0001_0000, 0]),
        send(0x0047_0c03)
    );
    assert_eq!(
        action_step(codec, WidgetAction::Select { node, index: 3 }, &[4, 0]),
        send(0x0047_0103)
    );
    assert_eq!(
        action_step(codec, WidgetAction::SetStream { node, tag: 0x10 }, &[0]),
        send(0x0047_0610)
    );
    assert_eq!(
        action_step(codec, WidgetAction::SetFormat { node, format: 0x11 }, &[]),
        send(0x0042_0011)
    );
}

#[test]
fn power_up_actions() {
    let range = NodeDescriptor { start_id: 2, count: 2 };
    assert_eq!(
        codec_power_up(Node(1), range),
        vec![
            WidgetAction::PowerUp { node: Node(1) },
            WidgetAction::PowerUp { node: Node(2) },
            WidgetAction::EnableOutput { node: Node(2) },
            WidgetAction::PowerUp { node: Node(3) },
            WidgetAction::EnableOutput { node: Node(3) },
        ]
    );
    assert_eq!(
        codec_power_up(Node(1), NodeDescriptor { start_id: 2, count: 0 }),
        vec![WidgetAction::PowerUp { node: Node(1) }]
    );
}

/// A codec with one function group, node 1, whose widgets are a converter 2,
/// an input 3, a mixer 4 that takes the converter, and a headphone pin 5
/// that takes the input and the mixer.
fn answer(command: u32) -> u32 {
    let node = (command >> 20) & 0xff;
    let verb = (command >> 8) & 0xfff;
    let payload = command & 0xff;
    match (node, verb, payload) {
        (0, 0xf00, 0x04) => 0x0001_0001,
        (1, 0xf00, 0x05) => 0x0000_0001,
        (1, 0xf00, 0x04) => 0x0002_0004,
        (2, 0xf00, 0x09) => 0x0000_0001,
        (3, 0xf00, 0x09) => 0x0010_0001,
        (4, 0xf00, 0x09) => 0x0020_0101,
        (5, 0xf00, 0x09) => 0x0040_0181,
        (4, 0xf00, 0x0e) => 1,
        (5, 0xf00, 0x0e) => 2,
        (4, 0xf02, 0) => 0x0000_0002,
        (5, 0xf02, 0) => 0x0000_0403,
        (5, 0xf1c, 0) => 0x0221_4010,
        (5, 0xf00, 0x0c) => 0x0001_001c,
        (5, 0xf09, 0) => 0x8000_0000,
        (_, 0xf00, 0x12) => 0x8005_1f4a,
        _ => 0,
    }
}

fn converse(next: impl Fn(&[u32]) -> CodecStep, log: &mut Vec<u32>) -> Result<Vec<u32>, HdaError> {
    let mut responses = vec![];
    loop {
        match next(&responses) {
            CodecStep::Send { command, .. } => {
                log.push(command);
                responses.push(answer(command));
            }
            CodecStep::Done => return Ok(responses),
            CodecStep::Failed(e) => return Err(e),
        }
        assert!(responses.len() < 100);
    }
}

#[test]
fn walk_and_set_up_a_codec() {
    let codec = Codec(0);
    let mut log = vec![];
    let found = converse(|r| find_audio_function_node_step(codec, r), &mut log).unwrap();
    let range = parse_node_count(found[0]).unwrap();
    let afg = find_audio_function_node(range, &found[1..]).unwrap();
    assert_eq!(afg, Node(1));
    let widgets = parse_node_count(answer(node_count_command(codec, afg))).unwrap();
    assert_eq!(widgets, NodeDescriptor { start_id: 2, count: 4 });
    let mut probes = vec![];
    for n in 2..6 {
        let responses = converse(|r| probe_step(codec, Node(n), r), &mut log).unwrap();
        probes.push(probe_result(Node(n), &responses).unwrap());
    }
    let nodes = collect_nodes(&probes);
    assert_eq!(nodes.len(), 4);
    assert!(nodes[3].is_headphones());
    let path: Vec<u32> = hda_find_dac(&nodes, Node(5)).unwrap().iter().map(|n| n.0).collect();
    assert_eq!(path, vec![2, 4, 5]);
    let plan = codec_setup_stream(&nodes, 0x4011);
    let mut sent = vec![];
    for action in &plan {
        converse(|r| action_step(codec, *action, r), &mut sent).unwrap();
    }
    // what changes the codec, in order: the converter, the mixer and the pin are
    // unmuted, the pin's amplifier is powered, connections are selected, the
    // stream reaches the converter and the mixer, and the input is muted
    let writes: Vec<u32> =
        sent.iter().copied().filter(|c| (c >> 16) & 0xf != 0xf && (c >> 16) & 0xf != 0xa).collect();
    assert_eq!(
        writes,
        vec![
            0x0023_b04a,
            0x0027_0610,
            0x0022_4011,
            0x0043_b04a,
            0x0047_0100,
            0x0047_0610,
            0x0042_4011,
            0x0053_b04a,
            0x0057_0c03,
            0x0057_0101,
            0x0033_b0ca,
        ]
    );
}
