use efi_hda::command::Node;
use efi_hda::hda::PinConfig;
use efi_hda::setup::{codec_mute_all, codec_setup_stream, WidgetAction};
use efi_hda::widget::PathNode;

const HEADPHONE: u32 = 0x0020_0000;
const SPEAKER: u32 = 0x9010_0000;

fn pin(node: u32, connections: &[u32], config: u32, presence: Option<bool>) -> PathNode {
    PathNode::PinComplex {
        node: Node(node),
        connections: connections.iter().map(|&n| Node(n)).collect(),
        select: 0,
        config: PinConfig::from(config),
        presence,
    }
}

fn input(node: u32) -> PathNode {
    PathNode::AudioIn { node: Node(node), connections: vec![], select: 0 }
}

fn mixer(node: u32, connections: &[u32]) -> PathNode {
    PathNode::AudioMix {
        node: Node(node),
        connections: connections.iter().map(|&n| Node(n)).collect(),
        select: 0,
    }
}

fn dac(node: u32) -> PathNode {
    PathNode::AudioOut { node: Node(node) }
}

fn unmute(n: u32) -> WidgetAction {
    WidgetAction::Unmute { node: Node(n) }
}

fn eapd(n: u32) -> WidgetAction {
    WidgetAction::EnableEapd { node: Node(n) }
}

fn select(n: u32, index: usize) -> WidgetAction {
    WidgetAction::Select { node: Node(n), index }
}

fn stream(n: u32, tag: u8) -> WidgetAction {
    WidgetAction::SetStream { node: Node(n), tag }
}

fn format(n: u32, format: u16) -> WidgetAction {
    WidgetAction::SetFormat { node: Node(n), format }
}

fn mute(n: u32) -> WidgetAction {
    WidgetAction::Mute { node: Node(n) }
}

#[test]
fn setup_headphone_path() {
    let nodes = vec![
        pin(5, &[3, 4], HEADPHONE, Some(true)),
        input(3),
        mixer(4, &[2]),
        dac(2),
    ];
    assert_eq!(
        codec_setup_stream(&nodes, 0x4011),
        vec![
            unmute(5),
            eapd(5),
            select(5, 1),
            unmute(4),
            eapd(4),
            select(4, 0),
            stream(4, 0x10),
            format(4, 0x4011),
            unmute(2),
            eapd(2),
            stream(2, 0x10),
            format(2, 0x4011),
            mute(3),
        ]
    );
}

#[test]
fn setup_prefers_headphones_over_speakers() {
    let nodes = vec![
        pin(6, &[7], SPEAKER, None),
        pin(5, &[2], HEADPHONE, Some(true)),
        dac(7),
        dac(2),
    ];
    assert_eq!(
        codec_setup_stream(&nodes, 0x11),
        vec![
            unmute(5),
            eapd(5),
            select(5, 0),
            unmute(2),
            eapd(2),
            stream(2, 0x10),
            format(2, 0x11),
            mute(6),
            mute(7),
            stream(7, 0),
            format(7, 0),
        ]
    );
}

#[test]
fn setup_falls_back_to_the_other_pins() {
    // the headphone jack has nothing plugged in, so it counts among the other pins
    let nodes = vec![
        pin(6, &[7], SPEAKER, None),
        pin(5, &[7], HEADPHONE, Some(false)),
        dac(7),
        dac(2),
    ];
    assert_eq!(
        codec_setup_stream(&nodes, 0x11),
        vec![
            // the path of pin 6, in the order of the widgets
            unmute(6),
            eapd(6),
            select(6, 0),
            unmute(7),
            eapd(7),
            stream(7, 0x10),
            format(7, 0x11),
            // the path of pin 5: the converter is active already
            unmute(5),
            eapd(5),
            select(5, 0),
            // the converter that no path reached
            mute(2),
            stream(2, 0),
            format(2, 0),
        ]
    );
}

#[test]
fn setup_headphones_without_converter_fall_back() {
    let nodes = vec![pin(5, &[9], HEADPHONE, Some(true)), pin(6, &[2], SPEAKER, None), dac(2)];
    assert_eq!(
        codec_setup_stream(&nodes, 0),
        vec![
            unmute(6),
            eapd(6),
            select(6, 0),
            unmute(2),
            eapd(2),
            stream(2, 0x10),
            format(2, 0),
            mute(5),
        ]
    );
}

#[test]
fn setup_without_any_path_mutes_everything() {
    let nodes = vec![pin(5, &[4], SPEAKER, None), mixer(4, &[]), input(3), dac(2)];
    assert_eq!(
        codec_setup_stream(&nodes, 0x4011),
        vec![
            mute(5),
            mute(4),
            stream(4, 0),
            format(4, 0),
            mute(3),
            mute(2),
            stream(2, 0),
            format(2, 0),
        ]
    );
    assert_eq!(codec_setup_stream(&[], 0x4011), vec![]);
}

#[test]
fn setup_settles_every_widget_once() {
    let nodes = vec![
        pin(10, &[20, 21], HEADPHONE, Some(true)),
        pin(11, &[21], HEADPHONE, Some(true)),
        pin(12, &[22], SPEAKER, None),
        mixer(20, &[30]),
        mixer(21, &[30, 31]),
        mixer(22, &[31]),
        dac(30),
        dac(31),
        input(40),
    ];
    let plan = codec_setup_stream(&nodes, 0x4011);
    for node in &nodes {
        let id = node.node();
        let unmutes = plan.iter().filter(|a| **a == WidgetAction::Unmute { node: id }).count();
        let mutes = plan.iter().filter(|a| **a == WidgetAction::Mute { node: id }).count();
        let selects = plan
            .iter()
            .filter(|a| matches!(a, WidgetAction::Select { node, .. } if *node == id))
            .count();
        assert_eq!(unmutes + mutes, 1, "node {:?}", id);
        assert!(selects <= 1);
    }
    // both headphone pins are served; the speaker and what only it reaches are silenced
    assert!(plan.contains(&unmute(10)) && plan.contains(&unmute(11)));
    assert!(plan.contains(&mute(12)) && plan.contains(&mute(22)) && plan.contains(&mute(31)));
    assert!(plan.contains(&select(10, 0)) && plan.contains(&select(11, 0)));
    assert!(plan.contains(&select(20, 0)) && plan.contains(&select(21, 0)));
}

#[test]
fn mute_all_silences_every_widget() {
    let nodes = vec![pin(5, &[4], HEADPHONE, Some(true)), mixer(4, &[2]), input(3), dac(2)];
    assert_eq!(
        codec_mute_all(&nodes),
        vec![
            mute(5),
            mute(4),
            stream(4, 0),
            format(4, 0),
            mute(3),
            mute(2),
            stream(2, 0),
            format(2, 0),
        ]
    );
    assert_eq!(codec_mute_all(&[]), vec![]);
}
