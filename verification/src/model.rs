//! What register programs do to registers that keep what is written to
//! them, and what follows for the programs of the driver.

use vstd::prelude::*;
use crate::bus::{
    spec_bus_clear_interrupt, spec_bus_stop, spec_clear_stream_status,
    spec_disable_stream_interrupts, spec_in_streams, spec_out_streams, spec_stream_cleanup,
    spec_stream_clear, spec_stream_stop,
};
use crate::hda::GlobalCapabilities;
use crate::registers::{
    IoBase, RegOp, StreamRegisterSet, PCI_CORBCTL, PCI_CORBCTL_DMA_BIT, PCI_CORBLBASE,
    PCI_CORBUBASE, PCI_INTCTL, PCI_RIRBCTL, PCI_RIRBCTL_DMA_BIT, PCI_RIRBCTL_IRQ_BIT,
    PCI_RIRBLBASE, PCI_RIRBUBASE, PCI_SDCTL16_INT_MASK, PCI_SDCTL16_RUN_BIT,
};
use crate::ring::{address_high, address_low, CommandResponseBuffers};

verus! {

/// What the registers of a controller hold, for registers that keep what
/// is written to them.
pub type RegisterFile = Map<IoBase, u32>;

/// The registers after one step of a register program. A wait changes nothing.
pub open spec fn apply(op: RegOp, regs: RegisterFile) -> RegisterFile {
    match op.spec_written(regs[op.spec_reg()]) {
        Some(value) => regs.insert(op.spec_reg(), value),
        None => regs,
    }
}

/// The registers after a register program has run through.
pub open spec fn run(ops: Seq<RegOp>, regs: RegisterFile) -> RegisterFile
    decreases ops.len(),
{
    if ops.len() == 0 {
        regs
    } else {
        apply(ops.last(), run(ops.drop_last(), regs))
    }
}

/// Whether the step leaves the register as it is: it works on another
/// register, or it only waits.
pub open spec fn leaves(op: RegOp, reg: IoBase) -> bool {
    op.spec_reg() != reg || op is Wait
}

/// Running two programs one after the other is running them joined.
pub proof fn lemma_run_joined(first: Seq<RegOp>, second: Seq<RegOp>, regs: RegisterFile)
    ensures
        run(first + second, regs) == run(second, run(first, regs)),
    decreases second.len(),
{
    if second.len() == 0 {
        assert(first + second =~= first);
    } else {
        assert((first + second).drop_last() =~= first + second.drop_last());
        lemma_run_joined(first, second.drop_last(), regs);
    }
}

/// A program whose steps all leave a register as it is leaves it as it was.
pub proof fn lemma_run_leaves(ops: Seq<RegOp>, regs: RegisterFile, reg: IoBase)
    requires
        forall|k: int| 0 <= k < ops.len() ==> leaves(#[trigger] ops[k], reg),
    ensures
        run(ops, regs)[reg] == regs[reg],
    decreases ops.len(),
{
    if ops.len() > 0 {
        assert forall|k: int| 0 <= k < ops.drop_last().len() implies leaves(
            #[trigger] ops.drop_last()[k],
            reg,
        ) by {
            assert(ops.drop_last()[k] == ops[k]);
        }
        lemma_run_leaves(ops.drop_last(), regs, reg);
        assert(ops.last() == ops[ops.len() - 1]);
    }
}

/// Bits that a program clears stay clear as long as the program does
/// nothing else to the register than to clear bits: after the steps of
/// `ops`, of which the one at `at` clears the bits outside `mask` of a
/// register and those after it leave the register alone or clear bits of
/// it, the bits outside `mask` are clear.
pub proof fn lemma_cleared_stays(ops: Seq<RegOp>, regs: RegisterFile, at: int, mask: u32)
    requires
        0 <= at < ops.len(),
        ops[at] is And,
        ops[at]->And_mask == mask,
        forall|k: int|
            at < k < ops.len() ==> leaves(#[trigger] ops[k], ops[at].spec_reg()) || ops[k] is And,
    ensures
        run(ops, regs)[ops[at].spec_reg()] & !mask == 0,
    decreases ops.len(),
{
    let reg = ops[at].spec_reg();
    let before = run(ops.drop_last(), regs);
    let current = before[reg];
    let width = reg.width.spec_mask();
    if at == ops.len() - 1 {
        assert((current & mask & width) & !mask == 0) by (bit_vector);
    } else {
        assert(ops.drop_last()[at] == ops[at]);
        assert forall|k: int| at < k < ops.drop_last().len() implies leaves(
            #[trigger] ops.drop_last()[k],
            ops.drop_last()[at].spec_reg(),
        ) || ops.drop_last()[k] is And by {
            assert(ops.drop_last()[k] == ops[k]);
        }
        lemma_cleared_stays(ops.drop_last(), regs, at, mask);
        let last = ops[ops.len() - 1];
        assert(ops.last() == last);
        if last.spec_reg() == reg && last is And {
            let other = last->And_mask;
            assert((current & other & width) & !mask == 0) by (bit_vector)
                requires
                    current & !mask == 0,
            ;
        }
    }
}

/// What a program writes to a register that it does not work on again is
/// what the register holds in the end, cut to the register's width.
pub proof fn lemma_written_stays(ops: Seq<RegOp>, regs: RegisterFile, at: int)
    requires
        0 <= at < ops.len(),
        ops[at] is Write,
        forall|k: int| at < k < ops.len() ==> leaves(#[trigger] ops[k], ops[at].spec_reg()),
    ensures
        run(ops, regs)[ops[at].spec_reg()] == ops[at]->Write_value
            & ops[at].spec_reg().width.spec_mask(),
    decreases ops.len(),
{
    if at < ops.len() - 1 {
        assert(ops.drop_last()[at] == ops[at]);
        assert forall|k: int| at < k < ops.drop_last().len() implies leaves(
            #[trigger] ops.drop_last()[k],
            ops.drop_last()[at].spec_reg(),
        ) by {
            assert(ops.drop_last()[k] == ops[k]);
        }
        lemma_written_stays(ops.drop_last(), regs, at);
        assert(ops.last() == ops[ops.len() - 1]);
    }
}

/// Bits that a program sets in a register that it does not work on again
/// are set in the end, as far as the register is wide.
pub proof fn lemma_set_stays(ops: Seq<RegOp>, regs: RegisterFile, at: int, mask: u32)
    requires
        0 <= at < ops.len(),
        ops[at] is Or,
        ops[at]->Or_mask == mask,
        forall|k: int| at < k < ops.len() ==> leaves(#[trigger] ops[k], ops[at].spec_reg()),
    ensures
        run(ops, regs)[ops[at].spec_reg()] & mask == mask & ops[at].spec_reg().width.spec_mask(),
    decreases ops.len(),
{
    let reg = ops[at].spec_reg();
    if at == ops.len() - 1 {
        let current = run(ops.drop_last(), regs)[reg];
        let width = reg.width.spec_mask();
        assert(((current | mask) & width) & mask == mask & width) by (bit_vector);
    } else {
        assert(ops.drop_last()[at] == ops[at]);
        assert forall|k: int| at < k < ops.drop_last().len() implies leaves(
            #[trigger] ops.drop_last()[k],
            ops.drop_last()[at].spec_reg(),
        ) by {
            assert(ops.drop_last()[k] == ops[k]);
        }
        lemma_set_stays(ops.drop_last(), regs, at, mask);
        assert(ops.last() == ops[ops.len() - 1]);
    }
}

/// Once the rings were brought up, the controller knows where they lie and
/// both of its DMA engines run.
pub proof fn lemma_bring_up(rings: CommandResponseBuffers, regs: RegisterFile)
    ensures
        ({
            let after = run(rings.spec_bring_up(), regs);
            &&& after[IoBase::spec_dword(PCI_CORBLBASE)] == address_low(rings.corb_address())
            &&& after[IoBase::spec_dword(PCI_CORBUBASE)] == address_high(rings.corb_address())
            &&& after[IoBase::spec_dword(PCI_RIRBLBASE)] == address_low(rings.rirb_address())
            &&& after[IoBase::spec_dword(PCI_RIRBUBASE)] == address_high(rings.rirb_address())
            &&& after[IoBase::spec_byte(PCI_CORBCTL)] & PCI_CORBCTL_DMA_BIT == PCI_CORBCTL_DMA_BIT
            &&& after[IoBase::spec_byte(PCI_RIRBCTL)] & (PCI_RIRBCTL_DMA_BIT | PCI_RIRBCTL_IRQ_BIT)
                == PCI_RIRBCTL_DMA_BIT | PCI_RIRBCTL_IRQ_BIT
        }),
{
    let ops = rings.spec_bring_up();
    lemma_written_stays(ops, regs, 9);
    lemma_written_stays(ops, regs, 10);
    lemma_written_stays(ops, regs, 12);
    lemma_written_stays(ops, regs, 13);
    lemma_set_stays(ops, regs, 17, PCI_RIRBCTL_DMA_BIT | PCI_RIRBCTL_IRQ_BIT);
    lemma_set_stays(ops, regs, 18, PCI_CORBCTL_DMA_BIT);
    let corb_low = address_low(rings.corb_address());
    let corb_high = address_high(rings.corb_address());
    let rirb_low = address_low(rings.rirb_address());
    let rirb_high = address_high(rings.rirb_address());
    assert(corb_low & 0xffff_ffff == corb_low && corb_high & 0xffff_ffff == corb_high && rirb_low
        & 0xffff_ffff == rirb_low && rirb_high & 0xffff_ffff == rirb_high) by (bit_vector);
    assert((0x02u32 | 0x01u32) & 0xffu32 == 0x02u32 | 0x01u32 && 0x02u32 & 0xffu32 == 0x02u32)
        by (bit_vector);
}

/// Once the rings were taken down, neither DMA engine runs: the rings'
/// memory can be unmapped.
pub proof fn lemma_shut_down(regs: RegisterFile)
    ensures
        ({
            let after = run(CommandResponseBuffers::spec_shut_down(), regs);
            &&& after[IoBase::spec_byte(PCI_CORBCTL)] & PCI_CORBCTL_DMA_BIT == 0
            &&& after[IoBase::spec_byte(PCI_RIRBCTL)] & PCI_RIRBCTL_DMA_BIT == 0
        }),
{
    let ops = CommandResponseBuffers::spec_shut_down();
    lemma_cleared_stays(ops, regs, 0, !PCI_RIRBCTL_DMA_BIT);
    lemma_cleared_stays(ops, regs, 1, !PCI_CORBCTL_DMA_BIT);
    let corbctl = run(ops, regs)[IoBase::spec_byte(PCI_CORBCTL)];
    let rirbctl = run(ops, regs)[IoBase::spec_byte(PCI_RIRBCTL)];
    assert(corbctl & 0x02u32 == 0 && rirbctl & 0x02u32 == 0) by (bit_vector)
        requires
            corbctl & !!0x02u32 == 0,
            rirbctl & !!0x02u32 == 0,
    ;
}

/// Once a controller with these capabilities was stopped, no stream has an
/// interrupt enabled, and neither has the controller.
pub proof fn lemma_bus_stop_disables(gcap: GlobalCapabilities, regs: RegisterFile, index: int)
    requires
        0 <= index < spec_in_streams(gcap) + spec_out_streams(gcap),
    ensures
        run(spec_bus_stop(gcap), regs)[StreamRegisterSet::spec_new(index as u32).spec_ctl16()]
            & PCI_SDCTL16_INT_MASK == 0,
        run(spec_bus_stop(gcap), regs)[IoBase::spec_dword(PCI_INTCTL)] == 0,
{
    let streams = spec_in_streams(gcap) + spec_out_streams(gcap);
    let word = gcap@;
    assert(((word >> 8u16) & 0xfu16) <= 0xf && ((word >> 12u16) & 0xfu16) <= 0xf) by (bit_vector);
    let ops = spec_bus_stop(gcap);
    let disable = spec_disable_stream_interrupts(streams);
    let clear = spec_bus_clear_interrupt(gcap);
    assert(ops.len() == streams + 1 + clear.len());
    assert(clear.len() == streams + 3);
    let ctl16 = StreamRegisterSet::spec_new(index as u32).spec_ctl16();
    assert(ops[index] == disable[index]);
    assert forall|k: int| index < k < ops.len() implies leaves(#[trigger] ops[k], ctl16) by {
        if k < streams {
            assert(ops[k] == disable[k]);
        } else if k == streams {
        } else if k < streams + 1 + streams {
            assert(ops[k] == spec_clear_stream_status(streams)[k - streams - 1]);
        } else {
            assert(ops[k] == clear[k - streams - 1]);
        }
    }
    lemma_cleared_stays(ops, regs, index, !PCI_SDCTL16_INT_MASK);
    let after = run(ops, regs)[ctl16];
    assert(after & PCI_SDCTL16_INT_MASK == 0) by (bit_vector)
        requires
            after & !!PCI_SDCTL16_INT_MASK == 0,
    ;
    let intctl = IoBase::spec_dword(PCI_INTCTL);
    assert(!(0x3fff_ffffu32 | 0x4000_0000u32 | 0x8000_0000u32) == 0) by (bit_vector);
    assert(ops[streams]->And_mask == 0);
    assert forall|k: int| streams < k < ops.len() implies leaves(#[trigger] ops[k], intctl) by {
        if k < streams + 1 + streams {
            assert(ops[k] == spec_clear_stream_status(streams)[k - streams - 1]);
        } else {
            assert(ops[k] == clear[k - streams - 1]);
        }
    }
    lemma_cleared_stays(ops, regs, streams, 0);
    let left = run(ops, regs)[intctl];
    assert(left == 0) by (bit_vector)
        requires
            left & !0u32 == 0,
    ;
}

/// Once a stream was stopped, cleared and cleaned up, the device is in a
/// known state: the stream does not run, none of its interrupts is enabled,
/// and the address of the descriptor list and the upper control byte are zero.
pub proof fn lemma_stream_shutdown(stream: StreamRegisterSet, regs: RegisterFile)
    requires
        stream.wf(),
    ensures
        ({
            let after = run(
                spec_stream_stop(stream) + spec_stream_clear(stream) + spec_stream_cleanup(stream),
                regs,
            );
            &&& after[stream.spec_ctl16()] & (PCI_SDCTL16_RUN_BIT | PCI_SDCTL16_INT_MASK) == 0
            &&& after[stream.spec_bdpl()] == 0
            &&& after[stream.spec_bdpu()] == 0
            &&& after[stream.spec_ctl8()] == 0
        }),
{
    let ops = spec_stream_stop(stream) + spec_stream_clear(stream) + spec_stream_cleanup(stream);
    assert(ops.len() == 12);
    assert(ops[5] == spec_stream_clear(stream)[0]);
    assert(ops[6] == spec_stream_clear(stream)[1]);
    assert(ops[7] == spec_stream_clear(stream)[2]);
    assert(ops[8] == spec_stream_cleanup(stream)[0]);
    assert(ops[9] == spec_stream_cleanup(stream)[1]);
    assert(ops[10] == spec_stream_cleanup(stream)[2]);
    assert(ops[11] == spec_stream_cleanup(stream)[3]);
    lemma_cleared_stays(ops, regs, 5, !(PCI_SDCTL16_RUN_BIT | PCI_SDCTL16_INT_MASK));
    let control = run(ops, regs)[stream.spec_ctl16()];
    assert(control & (PCI_SDCTL16_RUN_BIT | PCI_SDCTL16_INT_MASK) == 0) by (bit_vector)
        requires
            control & !!(PCI_SDCTL16_RUN_BIT | PCI_SDCTL16_INT_MASK) == 0,
    ;
    lemma_written_stays(ops, regs, 8);
    lemma_written_stays(ops, regs, 9);
    lemma_written_stays(ops, regs, 11);
    assert(0u32 & 0xffff_ffffu32 == 0 && 0u32 & 0xffu32 == 0) by (bit_vector);
}

/// The bits of a register's old value that a program keeps.
pub open spec fn kept(ops: Seq<RegOp>, reg: IoBase) -> u32
    decreases ops.len(),
{
    if ops.len() == 0 {
        0xffff_ffff
    } else if ops.last().spec_reg() != reg {
        kept(ops.drop_last(), reg)
    } else {
        let before = kept(ops.drop_last(), reg);
        let width = reg.width.spec_mask();
        match ops.last() {
            RegOp::Write { .. } => 0,
            RegOp::And { mask, .. } => before & mask & width,
            RegOp::Or { .. } => before & width,
            RegOp::Update { mask, .. } => before & !mask & width,
            RegOp::Wait { .. } => before,
        }
    }
}

/// The bits that a program sets in a register whatever it held.
pub open spec fn set(ops: Seq<RegOp>, reg: IoBase) -> u32
    decreases ops.len(),
{
    if ops.len() == 0 {
        0
    } else if ops.last().spec_reg() != reg {
        set(ops.drop_last(), reg)
    } else {
        let before = set(ops.drop_last(), reg);
        let width = reg.width.spec_mask();
        match ops.last() {
            RegOp::Write { value, .. } => value & width,
            RegOp::And { mask, .. } => before & mask & width,
            RegOp::Or { mask, .. } => (before | mask) & width,
            RegOp::Update { value, mask, .. } => ((before & !mask) | (value & mask)) & width,
            RegOp::Wait { .. } => before,
        }
    }
}

/// What a program does to a register is to keep some bits of what the
/// register held and to set some others.
pub proof fn lemma_run_effect(ops: Seq<RegOp>, regs: RegisterFile, reg: IoBase)
    ensures
        run(ops, regs)[reg] == (regs[reg] & kept(ops, reg)) | set(ops, reg),
    decreases ops.len(),
{
    let old = regs[reg];
    if ops.len() == 0 {
        assert(old == (old & 0xffff_ffff) | 0) by (bit_vector);
    } else {
        lemma_run_effect(ops.drop_last(), regs, reg);
        if ops.last().spec_reg() == reg {
            let k = kept(ops.drop_last(), reg);
            let s = set(ops.drop_last(), reg);
            let w = reg.width.spec_mask();
            match ops.last() {
                RegOp::Write { value, .. } => {
                    assert(value & w == (old & 0) | (value & w)) by (bit_vector);
                },
                RegOp::And { mask, .. } => {
                    assert(((old & k) | s) & mask & w == (old & (k & mask & w)) | (s & mask & w))
                        by (bit_vector);
                },
                RegOp::Or { mask, .. } => {
                    assert((((old & k) | s) | mask) & w == (old & (k & w)) | ((s | mask) & w))
                        by (bit_vector);
                },
                RegOp::Update { value, mask, .. } => {
                    assert(((((old & k) | s) & !mask) | (value & mask)) & w == (old & (k & !mask
                        & w)) | (((s & !mask) | (value & mask)) & w)) by (bit_vector);
                },
                RegOp::Wait { .. } => {},
            }
        }
    }
}

/// Whether some step of the program writes the register.
pub open spec fn writes(ops: Seq<RegOp>, reg: IoBase) -> bool {
    exists|k: int| 0 <= k < ops.len() && (#[trigger] ops[k]).spec_reg() == reg && !(ops[k] is Wait)
}

/// After a program the register file holds the registers that it held
/// before and those that the program writes.
pub proof fn lemma_run_dom(ops: Seq<RegOp>, regs: RegisterFile, reg: IoBase)
    ensures
        run(ops, regs).dom().contains(reg) == (regs.dom().contains(reg) || writes(ops, reg)),
    decreases ops.len(),
{
    if ops.len() == 0 {
        assert(!writes(ops, reg));
    } else {
        let rest = ops.drop_last();
        let last = ops[ops.len() - 1];
        assert(ops.last() == last);
        lemma_run_dom(rest, regs, reg);
        if writes(rest, reg) {
            let k = choose|k: int|
                0 <= k < rest.len() && (#[trigger] rest[k]).spec_reg() == reg && !(rest[k] is Wait);
            assert(ops[k] == rest[k]);
        }
        if writes(ops, reg) && !(last.spec_reg() == reg && !(last is Wait)) {
            let k = choose|k: int|
                0 <= k < ops.len() && (#[trigger] ops[k]).spec_reg() == reg && !(ops[k] is Wait);
            assert(rest[k] == ops[k]);
        }
    }
}

/// Running a register program a second time changes nothing: a
/// controller that was stopped can be stopped again.
pub proof fn lemma_run_twice(ops: Seq<RegOp>, regs: RegisterFile)
    ensures
        run(ops, run(ops, regs)) =~= run(ops, regs),
{
    let once = run(ops, regs);
    let twice = run(ops, once);
    assert forall|reg: IoBase| twice.dom().contains(reg) == once.dom().contains(reg) by {
        lemma_run_dom(ops, regs, reg);
        lemma_run_dom(ops, once, reg);
    }
    assert forall|reg: IoBase| #[trigger] twice[reg] == once[reg] by {
        lemma_run_effect(ops, regs, reg);
        lemma_run_effect(ops, once, reg);
        let old = regs[reg];
        let k = kept(ops, reg);
        let s = set(ops, reg);
        assert(((((old & k) | s) & k) | s) == ((old & k) | s)) by (bit_vector);
    }
}

} // verus!
