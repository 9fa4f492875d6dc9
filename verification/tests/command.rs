use efi_hda::command::{make_command, parse_node_count, Codec, Node, NodeDescriptor, Param, Verb};
use efi_hda::error::HdaError;

#[test]
fn make_command_root_params() {
    assert_eq!(make_command(Codec(0), Node(2), Verb(0xF00), Param(0)), 0x002F0000);
}

#[test]
fn make_command_packs_every_part() {
    assert_eq!(make_command(Codec(0xf), Node(0xff), Verb(0xfff), Param(0xff)), 0xffff_ffff);
    assert_eq!(make_command(Codec(1), Node(0), Verb(0), Param(0)), 0x1000_0000);
    assert_eq!(make_command(Codec(0), Node(1), Verb(0), Param(0)), 0x0010_0000);
    assert_eq!(make_command(Codec(0), Node(0), Verb(1), Param(0)), 0x0000_0100);
    assert_eq!(make_command(Codec(0), Node(0), Verb(0), Param(1)), 0x0000_0001);
    // a four-bit verb with a sixteen-bit operand
    assert_eq!(make_command(Codec(2), Node(0x10), Verb(0x300), Param(0xb05a)), 0x2103_b05a);
}

#[test]
fn make_command_parts_come_back() {
    let cmd = make_command(Codec(3), Node(0x1c), Verb(0x707), Param(0x40));
    assert_eq!(cmd >> 28, 3);
    assert_eq!((cmd >> 20) & 0xff, 0x1c);
    assert_eq!((cmd >> 8) & 0xfff, 0x707);
    assert_eq!(cmd & 0xff, 0x40);
}

#[test]
fn parse_node_count_fields() {
    assert_eq!(
        parse_node_count(0x0002_0009),
        Ok(NodeDescriptor { start_id: 2, count: 9 })
    );
    assert_eq!(parse_node_count(0), Ok(NodeDescriptor { start_id: 0, count: 0 }));
    assert_eq!(
        parse_node_count(0xffff_fffe),
        Ok(NodeDescriptor { start_id: 0x7fff, count: 0x7ffe })
    );
}

#[test]
fn parse_node_count_error_value() {
    assert_eq!(parse_node_count(0xffff_ffff), Err(HdaError::DeviceError));
}
