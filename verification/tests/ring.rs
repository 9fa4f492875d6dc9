use efi_hda::error::HdaError;
use efi_hda::registers::{IoBase, IoWidth, RegOp};
use efi_hda::ring::{ring_capacity, split_address, CommandResponseBuffers, RecvStep, ResponseEntry};

fn rings(size: u8) -> CommandResponseBuffers {
    CommandResponseBuffers::new(0x1000, 0x2000, size, size).unwrap()
}

#[test]
fn ring_capacity_by_selection() {
    assert_eq!(ring_capacity(0x00), Ok(2));
    assert_eq!(ring_capacity(0x01), Ok(16));
    assert_eq!(ring_capacity(0x42), Ok(256));
    assert_eq!(ring_capacity(0x03), Err(HdaError::Unsupported));
    assert_eq!(ring_capacity(0xff), Err(HdaError::Unsupported));
}

#[test]
fn rings_need_aligned_addresses() {
    assert!(matches!(
        CommandResponseBuffers::new(0x1040, 0x2000, 2, 2),
        Err(HdaError::Unsupported)
    ));
    assert!(matches!(
        CommandResponseBuffers::new(0x1000, 0x2001, 2, 2),
        Err(HdaError::Unsupported)
    ));
    assert!(matches!(
        CommandResponseBuffers::new(0x1000, 0x2000, 3, 2),
        Err(HdaError::Unsupported)
    ));
    assert!(matches!(
        CommandResponseBuffers::new(0x1000, 0x2000, 2, 3),
        Err(HdaError::Unsupported)
    ));
    assert!(CommandResponseBuffers::new(0x1080, 0xffff_ffff_ffff_ff80, 2, 1).is_ok());
}

#[test]
fn send_writes_the_next_slot() {
    let mut ring = rings(2);
    assert_eq!(ring.capacity(), 256);
    assert_eq!(ring.send(0, 0, 0xaaaa_0001), Ok(1));
    assert_eq!(ring.command_at(1), 0xaaaa_0001);
    assert_eq!(ring.send(1, 0, 0xaaaa_0002), Ok(2));
    assert_eq!(ring.command_at(2), 0xaaaa_0002);
    assert_eq!(ring.command_at(1), 0xaaaa_0001);
    assert_eq!(ring.command_at(0), 0);
}

#[test]
fn send_wraps_at_capacity() {
    let mut ring = rings(2);
    assert_eq!(ring.send(255, 7, 0x1234), Ok(0));
    assert_eq!(ring.command_at(0), 0x1234);
    let mut small = rings(1);
    assert_eq!(small.capacity(), 16);
    assert_eq!(small.send(15, 7, 0x55), Ok(0));
    assert_eq!(small.send(14, 7, 0x66), Ok(15));
    assert_eq!(small.command_at(15), 0x66);
}

#[test]
fn send_sequence_follows_write_pointer() {
    let mut ring = rings(1);
    let mut wp: u16 = 3;
    let rp: u16 = 2;
    let mut sent = 0;
    for i in 0..40u32 {
        match ring.send(wp, rp, 0x100 + i) {
            Ok(next) => {
                assert_eq!(next, (wp + 1) % 16);
                assert_eq!(ring.command_at(next as usize), 0x100 + i);
                wp = next;
                sent += 1;
            }
            Err(e) => {
                assert_eq!(e, HdaError::NotReady);
                assert_eq!((wp + 1) % 16, rp);
            }
        }
    }
    // fourteen slots were free between the pointers: one always stays empty
    assert_eq!(sent, 14);
    assert_eq!(wp, 1);
}

#[test]
fn send_full_ring_is_not_ready() {
    let mut ring = rings(0);
    assert_eq!(ring.capacity(), 2);
    assert_eq!(ring.send(0, 0, 0x11), Ok(1));
    let before: Vec<u32> = (0..256).map(|i| ring.command_at(i)).collect();
    assert_eq!(ring.send(1, 0, 0x22), Err(HdaError::NotReady));
    let after: Vec<u32> = (0..256).map(|i| ring.command_at(i)).collect();
    assert_eq!(before, after);
}

#[test]
fn poll_waits_for_the_write_pointer() {
    let mut ring = rings(1);
    assert_eq!(ring.cursor(), 0);
    assert_eq!(ring.poll_rirb(0), Err(HdaError::NotReady));
    assert_eq!(ring.poll_rirb(0), Err(HdaError::NotReady));
    assert_eq!(ring.cursor(), 0);
    assert_eq!(ring.poll_rirb(2), Ok(1));
    assert_eq!(ring.cursor(), 1);
    assert_eq!(ring.poll_rirb(2), Ok(2));
    assert_eq!(ring.poll_rirb(2), Err(HdaError::NotReady));
    assert_eq!(ring.cursor(), 2);
}

#[test]
fn poll_wraps_and_never_steps_back() {
    let mut ring = rings(0);
    let mut taken = 0;
    let mut last = ring.cursor();
    for wp in [1u16, 1, 0, 0, 1, 0] {
        if let Ok(slot) = ring.poll_rirb(wp) {
            assert_eq!(slot, (last + 1) % 2);
            taken += 1;
        } else {
            assert_eq!(ring.cursor(), last);
        }
        last = ring.cursor();
    }
    assert_eq!(taken, 4);
}

#[test]
fn unsolicited_responses_are_device_errors() {
    let entry = ResponseEntry { result: 0x1234_5678, response_ex: 0x10 };
    assert!(entry.unsolicited());
    assert_eq!(entry.solicited(), Err(HdaError::DeviceError));
    let entry = ResponseEntry { result: 1, response_ex: 0xf };
    assert!(!entry.unsolicited());
    assert_eq!(entry.solicited(), Ok(ResponseEntry { result: 1, response_ex: 0xf }));
    assert_eq!(ResponseEntry::new(), ResponseEntry { result: 0, response_ex: 0 });
}

#[test]
fn recv_steps() {
    let ring = rings(2);
    assert_eq!(
        ring.recv(Ok(ResponseEntry { result: 0x8086, response_ex: 0 })),
        RecvStep::Done(0x8086)
    );
    assert_eq!(ring.recv(Err(HdaError::NotReady)), RecvStep::Stall);
    assert_eq!(ring.recv(Err(HdaError::DeviceError)), RecvStep::Failed(HdaError::DeviceError));
    assert_eq!(ring.recv(Err(HdaError::Timeout)), RecvStep::Failed(HdaError::Timeout));
    assert_eq!(ring.response_timer(), 1_000_000);
    assert_eq!(ring.after_stall(false), Ok(()));
    assert_eq!(ring.after_stall(true), Err(HdaError::Timeout));
}

#[test]
fn split_address_halves() {
    assert_eq!(split_address(0x1234_5678_9abc_de80), (0x9abc_de80, 0x1234_5678));
    assert_eq!(split_address(0xffff_ff80), (0xffff_ff80, 0));
}

#[test]
fn bring_up_program() {
    let ring = CommandResponseBuffers::new(0x1_0000_1000, 0x2000, 0x42, 0x41).unwrap();
    let ops = ring.bring_up();
    assert_eq!(ops.len(), 19);
    let rirbctl = IoBase { offset: 0x5c, width: IoWidth::Byte };
    let corbctl = IoBase { offset: 0x4c, width: IoWidth::Byte };
    assert_eq!(ops[0], RegOp::And { reg: rirbctl, mask: !0x02 });
    assert_eq!(ops[1], RegOp::And { reg: corbctl, mask: !0x02 });
    assert_eq!(ops[2], RegOp::Wait { reg: corbctl, timeout: 1000, mask: 0x02, value: 0 });
    assert_eq!(
        ops[4],
        RegOp::Update {
            reg: IoBase { offset: 0x4a, width: IoWidth::Word },
            value: 0x8000,
            mask: !0x7f00
        }
    );
    assert_eq!(
        ops[9],
        RegOp::Write { reg: IoBase { offset: 0x40, width: IoWidth::Dword }, value: 0x0000_1000 }
    );
    assert_eq!(
        ops[10],
        RegOp::Write { reg: IoBase { offset: 0x44, width: IoWidth::Dword }, value: 1 }
    );
    assert_eq!(
        ops[11],
        RegOp::Update {
            reg: IoBase { offset: 0x4e, width: IoWidth::Byte },
            value: 2,
            mask: !0x0c
        }
    );
    assert_eq!(
        ops[14],
        RegOp::Update {
            reg: IoBase { offset: 0x5e, width: IoWidth::Byte },
            value: 1,
            mask: !0x0c
        }
    );
    // the response engine starts before the command engine
    assert_eq!(ops[17], RegOp::Or { reg: rirbctl, mask: 0x03 });
    assert_eq!(ops[18], RegOp::Or { reg: corbctl, mask: 0x02 });
}

#[test]
fn shut_down_program() {
    let ring = rings(2);
    let ops = ring.uninit_io();
    let rirbctl = IoBase { offset: 0x5c, width: IoWidth::Byte };
    let corbctl = IoBase { offset: 0x4c, width: IoWidth::Byte };
    assert_eq!(
        ops,
        vec![
            RegOp::And { reg: rirbctl, mask: !0x02 },
            RegOp::And { reg: corbctl, mask: !0x02 },
            RegOp::Wait { reg: rirbctl, timeout: 1000, mask: 0x02, value: 0 },
            RegOp::Wait { reg: corbctl, timeout: 1000, mask: 0x02, value: 0 },
        ]
    );
    assert_eq!(
        ring.acknowledge(),
        RegOp::Or { reg: IoBase { offset: 0x5d, width: IoWidth::Byte }, mask: 0x01 }
    );
}
