use efi_hda::bus::{
    bus_clear_interrupt, bus_detected_codecs, bus_link_state, bus_probe_codecs, bus_reset,
    bus_reset_link, bus_start, bus_stop, in_stream, init_context, out_stream, out_stream_1,
    stream_cleanup, stream_clear, stream_reset, stream_setup, stream_shutdown, stream_start,
    stream_stop, DeviceContext,
};
use efi_hda::command::Codec;
use efi_hda::error::HdaError;
use efi_hda::hda::GlobalCapabilities;
use efi_hda::immediate::{exec_immediate, Immediate};
use efi_hda::registers::{IoBase, IoWidth, RegOp, StreamRegisterSet};

fn byte(offset: u64) -> IoBase {
    IoBase { offset, width: IoWidth::Byte }
}

fn word(offset: u64) -> IoBase {
    IoBase { offset, width: IoWidth::Word }
}

fn dword(offset: u64) -> IoBase {
    IoBase { offset, width: IoWidth::Dword }
}

#[test]
fn stream_numbering() {
    let gcap = GlobalCapabilities::from(0x2101);
    assert_eq!(in_stream(&gcap, 0), StreamRegisterSet { index: 0, base: 0x80 });
    assert_eq!(out_stream(&gcap, 0), StreamRegisterSet { index: 1, base: 0xa0 });
    assert_eq!(out_stream(&gcap, 1), StreamRegisterSet { index: 2, base: 0xc0 });
    let wide = GlobalCapabilities::from(0xff00);
    assert_eq!(in_stream(&wide, 14).index, 14);
    assert_eq!(out_stream(&wide, 14), StreamRegisterSet { index: 29, base: 0x80 + 29 * 0x20 });
}

#[test]
fn context_needs_output_streams() {
    let gcap = GlobalCapabilities::from(0x4401);
    assert_eq!(
        init_context(&gcap, Codec(2)),
        Ok(DeviceContext { codec: Codec(2), in_streams: 4, out_streams: 4 })
    );
    assert_eq!(
        init_context(&GlobalCapabilities::from(0x0f01), Codec(0)),
        Err(HdaError::Unsupported)
    );
    assert_eq!(init_context(&gcap, Codec(16)), Err(HdaError::InvalidParameter));
    let device = init_context(&gcap, Codec(15)).unwrap();
    assert_eq!(out_stream_1(&device), StreamRegisterSet { index: 4, base: 0x100 });
}

#[test]
fn bus_stop_program() {
    let gcap = GlobalCapabilities::from(0x2101);
    assert_eq!(
        bus_stop(&gcap),
        vec![
            RegOp::And { reg: word(0x80), mask: !0x1c },
            RegOp::And { reg: word(0xa0), mask: !0x1c },
            RegOp::And { reg: word(0xc0), mask: !0x1c },
            RegOp::And { reg: dword(0x20), mask: 0 },
            RegOp::Write { reg: byte(0x83), value: 0x1c },
            RegOp::Write { reg: byte(0xa3), value: 0x1c },
            RegOp::Write { reg: byte(0xc3), value: 0x1c },
            RegOp::Write { reg: word(0x0e), value: 0x7 },
            RegOp::Write { reg: byte(0x5d), value: 0x5 },
            RegOp::Write { reg: dword(0x24), value: 0x7fff_ffff },
        ]
    );
}

#[test]
fn bus_stop_without_streams() {
    let gcap = GlobalCapabilities::from(0x0001);
    assert_eq!(bus_stop(&gcap).len(), 4);
    assert_eq!(bus_clear_interrupt(&gcap).len(), 3);
    let all = GlobalCapabilities::from(0xff00);
    assert_eq!(bus_stop(&all).len(), 30 + 1 + 30 + 3);
}

#[test]
fn bus_start_and_reset_programs() {
    let gcap = GlobalCapabilities::from(0x1001);
    let link = vec![
        RegOp::Write { reg: word(0x0e), value: 0x7 },
        RegOp::And { reg: dword(0x08), mask: !0x1 },
        RegOp::Wait { reg: dword(0x08), timeout: 1000, mask: 0x1, value: 0 },
        RegOp::Or { reg: dword(0x08), mask: 0x1 },
        RegOp::Wait { reg: dword(0x08), timeout: 1000, mask: 0x1, value: 0x1 },
    ];
    assert_eq!(bus_reset_link(), link);
    let mut reset = bus_stop(&gcap);
    reset.extend(link);
    assert_eq!(bus_reset(&gcap), reset);
    assert_eq!(
        bus_start(&gcap),
        vec![
            RegOp::Write { reg: byte(0x83), value: 0x1c },
            RegOp::Write { reg: word(0x0e), value: 0x7 },
            RegOp::Write { reg: byte(0x5d), value: 0x5 },
            RegOp::Write { reg: dword(0x24), value: 0x7fff_ffff },
            RegOp::Or { reg: dword(0x20), mask: 0x7fff_ffff },
        ]
    );
}

#[test]
fn link_state_after_reset() {
    assert_eq!(bus_link_state(0, 0x5), Err(HdaError::NotReady));
    assert_eq!(bus_link_state(1, 0x5), Ok(0x5));
    assert_eq!(bus_link_state(0x100, 0), Ok(0));
}

#[test]
fn codecs_named_by_the_mask() {
    assert_eq!(bus_probe_codecs(0), Vec::<u32>::new());
    assert_eq!(bus_probe_codecs(0b101), vec![0, 2]);
    assert_eq!(bus_probe_codecs(0x8001), vec![0, 15]);
    assert_eq!(bus_probe_codecs(0xffff), (0..16).collect::<Vec<u32>>());
}

#[test]
fn codecs_that_answer_are_there() {
    let candidates = [0u32, 2, 5];
    assert_eq!(
        bus_detected_codecs(&candidates, &[Ok(0x8086_1234), Err(HdaError::Timeout), Ok(0)]),
        vec![0, 5]
    );
    assert_eq!(
        bus_detected_codecs(&candidates, &[Err(HdaError::NotReady), Ok(1)]),
        vec![2]
    );
    assert_eq!(bus_detected_codecs(&candidates, &[]), Vec::<u32>::new());
    assert_eq!(bus_detected_codecs(&[], &[Ok(1)]), Vec::<u32>::new());
}

#[test]
fn stream_programs() {
    let sd = StreamRegisterSet::new(4);
    let clear = vec![
        RegOp::And { reg: word(0x100), mask: !0x1e },
        RegOp::Write { reg: byte(0x103), value: 0x1c },
        RegOp::And { reg: byte(0x102), mask: !0x03 },
    ];
    assert_eq!(stream_clear(&sd), clear);
    let cleanup = vec![
        RegOp::Write { reg: dword(0x118), value: 0 },
        RegOp::Write { reg: dword(0x11c), value: 0 },
        RegOp::And { reg: word(0x100), mask: !0xffe0 },
        RegOp::Write { reg: byte(0x102), value: 0 },
    ];
    assert_eq!(stream_cleanup(&sd), cleanup);
    let mut reset = clear.clone();
    reset.extend([
        RegOp::Or { reg: word(0x100), mask: 0x1 },
        RegOp::Wait { reg: word(0x100), timeout: 1000, mask: 0x1, value: 0x1 },
        RegOp::And { reg: word(0x100), mask: !0x1 },
        RegOp::Wait { reg: word(0x100), timeout: 1000, mask: 0x1, value: 0 },
    ]);
    assert_eq!(stream_reset(&sd), reset);
    assert_eq!(
        stream_start(&sd),
        vec![
            RegOp::Or { reg: dword(0x20), mask: 0x10 },
            RegOp::And { reg: byte(0x102), mask: !0x03 },
            RegOp::Or { reg: word(0x100), mask: 0x1e },
            RegOp::Wait { reg: byte(0x103), timeout: 1000, mask: 0x20, value: 0x20 },
        ]
    );
    let mut stop = clear.clone();
    stop.extend([
        RegOp::And { reg: dword(0x20), mask: !0x10 },
        RegOp::Wait { reg: word(0x100), timeout: 1000, mask: 0x2, value: 0 },
    ]);
    assert_eq!(stream_stop(&sd), stop);
    let mut shutdown = stop.clone();
    shutdown.extend(clear);
    shutdown.extend(cleanup);
    assert_eq!(stream_shutdown(&sd), shutdown);
}

#[test]
fn stream_setup_program() {
    let sd = StreamRegisterSet::new(1);
    assert_eq!(
        stream_setup(&sd, 0x1_2345_6780, 8, 16384, 0x4011),
        Ok(vec![
            RegOp::Write { reg: byte(0xa2), value: 0x10 },
            RegOp::Write { reg: dword(0xa8), value: 32768 },
            RegOp::Update { reg: word(0xb2), value: 0x4011, mask: !0x80 },
            RegOp::Update { reg: word(0xac), value: 7, mask: !0xff00 },
            RegOp::Write { reg: dword(0xb8), value: 0x2345_6780 },
            RegOp::Write { reg: dword(0xbc), value: 1 },
            RegOp::Or { reg: word(0xa0), mask: 0x1c },
        ])
    );
}

#[test]
fn stream_setup_refuses_bad_values() {
    let sd = StreamRegisterSet::new(0);
    assert_eq!(stream_setup(&sd, 0x1040, 8, 16384, 0), Err(HdaError::InvalidParameter));
    assert_eq!(stream_setup(&sd, 0x1000, 0, 16384, 0), Err(HdaError::InvalidParameter));
    assert_eq!(stream_setup(&sd, 0x1000, 257, 16384, 0), Err(HdaError::InvalidParameter));
    assert_eq!(stream_setup(&sd, 0x1000, 8, 0x8000_0000, 0), Err(HdaError::InvalidParameter));
    assert!(stream_setup(&sd, 0x1000, 256, 0x7fff_ffff, 0).is_ok());
    assert!(stream_setup(&sd, 0x1000, 1, 0, 0).is_ok());
}

#[test]
fn immediate_command_programs() {
    let transport = Immediate::new();
    assert_eq!(
        transport.wait_idle(),
        RegOp::Wait { reg: word(0x68), timeout: 1000, mask: 0x1, value: 0 }
    );
    assert_eq!(transport.response(), dword(0x64));
    let issue = vec![
        RegOp::Or { reg: word(0x68), mask: 0x2 },
        RegOp::Write { reg: dword(0x60), value: 0x002f_0000 },
        RegOp::Or { reg: word(0x68), mask: 0x1 },
        RegOp::Wait { reg: word(0x68), timeout: 1000, mask: 0x3, value: 0x2 },
    ];
    assert_eq!(exec_immediate(Ok(()), 0x002f_0000), Ok(issue.clone()));
    // a busy bit that is stuck is cleared by force
    let mut forced = vec![RegOp::And { reg: word(0x68), mask: !0x1 }];
    forced.extend(issue);
    assert_eq!(exec_immediate(Err(HdaError::Timeout), 0x002f_0000), Ok(forced));
    assert_eq!(
        exec_immediate(Err(HdaError::DeviceError), 0x002f_0000),
        Err(HdaError::DeviceError)
    );
}
