use efi_hda::registers::{IoBase, IoWidth, RegOp, StreamRegisterSet, WaitStep, INFINITY};

#[test]
fn stream_register_offsets() {
    let sd = StreamRegisterSet::new(0);
    assert_eq!(sd.base, 0x80);
    assert_eq!(sd.ctl16(), IoBase { offset: 0x80, width: IoWidth::Word });
    assert_eq!(sd.ctl8(), IoBase { offset: 0x82, width: IoWidth::Byte });
    assert_eq!(sd.sts(), IoBase { offset: 0x83, width: IoWidth::Byte });
    assert_eq!(sd.lpib(), IoBase { offset: 0x84, width: IoWidth::Dword });
    assert_eq!(sd.cbl(), IoBase { offset: 0x88, width: IoWidth::Dword });
    assert_eq!(sd.lvi(), IoBase { offset: 0x8c, width: IoWidth::Word });
    assert_eq!(sd.fifow(), IoBase { offset: 0x8e, width: IoWidth::Word });
    assert_eq!(sd.fifos(), IoBase { offset: 0x90, width: IoWidth::Word });
    assert_eq!(sd.fmt(), IoBase { offset: 0x92, width: IoWidth::Word });
    assert_eq!(sd.bdpl(), IoBase { offset: 0x98, width: IoWidth::Dword });
    assert_eq!(sd.bdpu(), IoBase { offset: 0x9c, width: IoWidth::Dword });
    assert_eq!(sd.intctl_mask(), 1);
    let sd = StreamRegisterSet::new(4);
    assert_eq!(sd.index, 4);
    assert_eq!(sd.base, 0x100);
    assert_eq!(sd.lpib().offset, 0x104);
    assert_eq!(sd.intctl_mask(), 0x10);
    let last = StreamRegisterSet::new(29);
    assert_eq!(last.base, 0x80 + 0x20 * 29);
    assert_eq!(last.intctl_mask(), 0x2000_0000);
}

#[test]
fn io_base_constructors() {
    assert_eq!(IoBase::new(0x08, IoWidth::Dword), IoBase::dword(0x08));
    assert_eq!(IoBase::byte(0x4c).width, IoWidth::Byte);
    assert_eq!(IoBase::word(0x48).offset, 0x48);
    assert_eq!(IoWidth::Byte.mask(), 0xff);
    assert_eq!(IoWidth::Word.mask(), 0xffff);
    assert_eq!(IoWidth::Dword.mask(), 0xffff_ffff);
}

#[test]
fn reg_op_written_values() {
    let byte = IoBase::byte(0x4c);
    let word = IoBase::word(0x4a);
    assert_eq!(RegOp::Write { reg: byte, value: 0x1ff }.written(0), Some(0xff));
    assert_eq!(RegOp::And { reg: byte, mask: !0x02 }.written(0xff), Some(0xfd));
    assert_eq!(RegOp::Or { reg: byte, mask: 0x03 }.written(0x80), Some(0x83));
    assert_eq!(
        RegOp::Update { reg: word, value: 0x8000, mask: !0x7f00 }.written(0x7f12),
        Some(0xff00)
    );
    assert_eq!(
        RegOp::Update { reg: word, value: 0x0011, mask: !0x0080 }.written(0xffff),
        Some(0x0091)
    );
    assert_eq!(
        RegOp::Wait { reg: word, timeout: 1000, mask: 1, value: 1 }.written(0xffff),
        None
    );
    assert!(!RegOp::Write { reg: byte, value: 0 }.reads());
    assert!(RegOp::Or { reg: byte, mask: 1 }.reads());
    assert_eq!(RegOp::And { reg: word, mask: 1 }.reg(), word);
}

#[test]
fn wait_polls_until_timeout() {
    let wait = RegOp::Wait { reg: IoBase::byte(0x4c), timeout: 1000, mask: 0x02, value: 0 };
    assert_eq!(wait.poll(0xfd, 0), WaitStep::Ready);
    assert_eq!(wait.poll(0x02, 0), WaitStep::Again { elapsed: 100 });
    assert_eq!(wait.poll(0x02, 800), WaitStep::Again { elapsed: 900 });
    assert_eq!(wait.poll(0x02, 900), WaitStep::TimedOut);
    // a wait runs for ten rounds of a hundred microseconds
    let mut elapsed = 0;
    let mut rounds = 0;
    loop {
        rounds += 1;
        match wait.poll(0x02, elapsed) {
            WaitStep::Again { elapsed: e } => elapsed = e,
            step => {
                assert_eq!(step, WaitStep::TimedOut);
                break;
            }
        }
    }
    assert_eq!(rounds, 10);
}

#[test]
fn wait_without_bound_never_times_out() {
    let wait = RegOp::Wait { reg: IoBase::dword(0x08), timeout: INFINITY, mask: 1, value: 1 };
    assert_eq!(wait.poll(0, 0), WaitStep::Again { elapsed: 100 });
    assert_eq!(wait.poll(0, u64::MAX - 50), WaitStep::Again { elapsed: u64::MAX });
    assert_eq!(wait.poll(0, u64::MAX), WaitStep::Again { elapsed: u64::MAX });
    assert_eq!(wait.poll(1, u64::MAX), WaitStep::Ready);
    // a step that is no wait is ready at once
    assert_eq!(RegOp::Write { reg: IoBase::dword(0x08), value: 0 }.poll(0, 0), WaitStep::Ready);
}

#[test]
fn io_base_builds_steps() {
    let gctl = IoBase::dword(0x08);
    assert_eq!(gctl.write(5), RegOp::Write { reg: gctl, value: 5 });
    assert_eq!(gctl.and(!1), RegOp::And { reg: gctl, mask: !1 });
    assert_eq!(gctl.or(1), RegOp::Or { reg: gctl, mask: 1 });
    assert_eq!(gctl.update(2, 6), RegOp::Update { reg: gctl, value: 2, mask: 6 });
    assert_eq!(
        gctl.wait(1000, 1, 0),
        RegOp::Wait { reg: gctl, timeout: 1000, mask: 1, value: 0 }
    );
}
