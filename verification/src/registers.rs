//! The register layout of the controller and the steps that register
//! programs are made of.

use vstd::prelude::*;

verus! {

// Global registers, by byte offset within the controller's memory window.
pub const PCI_GCAP: u32 = 0x00;
pub const PCI_VMIN: u32 = 0x02;
pub const PCI_VMAJ: u32 = 0x03;
pub const PCI_OUTPAY: u32 = 0x04;
pub const PCI_INPAY: u32 = 0x06;
pub const PCI_GCTL: u32 = 0x08;
pub const PCI_WAKEEN: u32 = 0x0b;
pub const PCI_STATESTS: u32 = 0x0e;
pub const PCI_GSTS: u32 = 0x10;
pub const PCI_OUTSTRMPAY: u32 = 0x18;
pub const PCI_INSTRMPAY: u32 = 0x1a;
pub const PCI_INTCTL: u32 = 0x20;
pub const PCI_INTSTS: u32 = 0x24;
pub const PCI_WALCLK: u32 = 0x30;

// Command ring registers.
pub const PCI_CORBLBASE: u32 = 0x40;
pub const PCI_CORBUBASE: u32 = 0x44;
pub const PCI_CORBWP: u32 = 0x48;
pub const PCI_CORBRP: u32 = 0x4a;
pub const PCI_CORBCTL: u32 = 0x4c;
pub const PCI_CORBST: u32 = 0x4d;
pub const PCI_CORBSIZE: u32 = 0x4e;

// Response ring registers.
pub const PCI_RIRBLBASE: u32 = 0x50;
pub const PCI_RIRBUBASE: u32 = 0x54;
pub const PCI_RIRBWP: u32 = 0x58;
pub const PCI_RINTCNT: u32 = 0x5a;
pub const PCI_RIRBCTL: u32 = 0x5c;
pub const PCI_RIRBSTS: u32 = 0x5d;
pub const PCI_RIRBSIZE: u32 = 0x5e;

// Immediate command registers.
pub const PCI_IC: u32 = 0x60;
pub const PCI_IR: u32 = 0x64;
pub const PCI_IRS: u32 = 0x68;

pub const PCI_DPLBASE: u32 = 0x70;
pub const PCI_DPUBASE: u32 = 0x74;

/// Offset of the first stream register block.
pub const PCI_SDBASE: u32 = 0x80;
/// Distance between two stream register blocks.
pub const PCI_SDSPAN: u32 = 0x20;

// Registers of one stream, by byte offset within its block.
pub const PCI_SDCTL16: u32 = 0x00;
pub const PCI_SDCTL8: u32 = 0x02;
pub const PCI_SDSTS: u32 = 0x03;
pub const PCI_SDLPIB: u32 = 0x04;
pub const PCI_SDCBL: u32 = 0x08;
pub const PCI_SDLVI: u32 = 0x0c;
pub const PCI_SDFIFOW: u32 = 0x0e;
pub const PCI_SDFIFOS: u32 = 0x10;
pub const PCI_SDFMT: u32 = 0x12;
pub const PCI_SDBDPL: u32 = 0x18;
pub const PCI_SDBDPU: u32 = 0x1c;

/// Number of stream register blocks that the interrupt control register has a bit for.
pub const STREAM_LIMIT: u32 = 30;

// Bits of the registers above.
pub const PCI_GCTL_RST_BIT: u32 = 0x0000_0001;
pub const PCI_GCTL_UNSOLICITED_BIT: u32 = 0x0000_0100;
pub const PCI_STATESTS_INT_MASK: u32 = 0x0007;
pub const PCI_INTCTL_SIE_MASK: u32 = 0x3fff_ffff;
pub const PCI_INTCTL_CIE_BIT: u32 = 0x4000_0000;
pub const PCI_INTCTL_GIE_BIT: u32 = 0x8000_0000;
pub const PCI_INTSTS_SIS_MASK: u32 = 0x3fff_ffff;
pub const PCI_INTSTS_CIS_BIT: u32 = 0x4000_0000;
pub const PCI_INTSTS_GIS_BIT: u32 = 0x8000_0000;

pub const PCI_CORBCTL_DMA_BIT: u32 = 0x02;
pub const PCI_CORBRP_RST_BIT: u32 = 0x8000;
pub const PCI_CORBRP_RSVDP_MASK: u32 = 0x7f00;
pub const PCI_CORBWP_RSVDP_MASK: u32 = 0xff00;
pub const PCI_CORBSIZE_SZ_MASK: u32 = 0x03;
pub const PCI_CORBSIZE_RSVDP_MASK: u32 = 0x0c;
pub const PCI_CORBSIZE_SZ_256: u32 = 0x2;
pub const PCI_CORBSIZE_SZ_16: u32 = 0x1;
pub const PCI_CORBSIZE_SZ_2: u32 = 0x0;

pub const PCI_RIRBCTL_IRQ_BIT: u32 = 0x01;
pub const PCI_RIRBCTL_DMA_BIT: u32 = 0x02;
pub const PCI_RIRBSTS_RESPONSE_BIT: u32 = 0x01;
pub const PCI_RIRBSTS_INT_MASK: u32 = 0x05;
pub const PCI_RIRBWP_RST_BIT: u32 = 0x8000;
pub const PCI_RINTCNT_RSVDP_MASK: u32 = 0xff00;
pub const PCI_RIRBSIZE_SZ_MASK: u32 = 0x03;
pub const PCI_RIRBSIZE_RSVDP_MASK: u32 = 0x0c;
pub const PCI_RIRBSIZE_SZ_256: u32 = 0x2;
pub const PCI_RIRBSIZE_SZ_16: u32 = 0x1;
pub const PCI_RIRBSIZE_SZ_2: u32 = 0x0;
/// Bit of a response's second word that marks it as unsolicited.
pub const PCI_RIRB_EX_UNSOLICITED_BIT: u32 = 0x10;

pub const PCI_IRS_ICB_BIT: u32 = 0x0001;
pub const PCI_IRS_IRV_BIT: u32 = 0x0002;

pub const PCI_SDCTL16_SRST_BIT: u32 = 0x0001;
pub const PCI_SDCTL16_RUN_BIT: u32 = 0x0002;
pub const PCI_SDCTL16_IOC_BIT: u32 = 0x0004;
pub const PCI_SDCTL16_FEI_BIT: u32 = 0x0008;
pub const PCI_SDCTL16_DEI_BIT: u32 = 0x0010;
pub const PCI_SDCTL16_INT_MASK: u32 = 0x001c;
pub const PCI_SDCTL16_RSVDP_MASK: u32 = 0xffe0;
pub const PCI_SDCTL8_STRIPE_MASK: u32 = 0x03;
pub const PCI_SDCTL8_STREAM_MASK: u32 = 0xf0;
/// Stream tag 1 at its place in the upper control byte.
pub const PCI_SDCTL8_STREAM_1_MASK: u32 = 0x10;
pub const PCI_SDSTS_INT_MASK: u32 = 0x1c;
pub const PCI_SDSTS_READY_BIT: u32 = 0x20;
pub const PCI_SDLVI_RSVDP_MASK: u32 = 0xff00;
pub const PCI_SDFMT_RSVDP_MASK: u32 = 0x0080;
pub const PCI_SDBDPL_MASK: u32 = 0xffff_ff80;

/// How the masks of the registers are made of their bits.
pub proof fn lemma_register_masks()
    ensures
        PCI_SDCTL16_INT_MASK == PCI_SDCTL16_IOC_BIT | PCI_SDCTL16_FEI_BIT | PCI_SDCTL16_DEI_BIT,
        PCI_SDCTL16_RSVDP_MASK == !(PCI_SDCTL16_INT_MASK | PCI_SDCTL16_RUN_BIT
            | PCI_SDCTL16_SRST_BIT) & 0xffff,
        PCI_INTCTL_SIE_MASK == !(PCI_INTCTL_CIE_BIT | PCI_INTCTL_GIE_BIT),
        PCI_INTSTS_SIS_MASK == !(PCI_INTSTS_CIS_BIT | PCI_INTSTS_GIS_BIT),
        PCI_SDCTL8_STREAM_1_MASK & PCI_SDCTL8_STREAM_MASK == PCI_SDCTL8_STREAM_1_MASK,
        PCI_SDCTL8_STREAM_1_MASK == 1u32 << 4,
        PCI_SDBDPL_MASK == !0x7fu32,
        PCI_CORBSIZE_SZ_256 == PCI_RIRBSIZE_SZ_256,
        PCI_CORBSIZE_SZ_16 == PCI_RIRBSIZE_SZ_16,
        PCI_CORBSIZE_SZ_2 == PCI_RIRBSIZE_SZ_2,
{
    assert(0x001cu32 == 0x0004u32 | 0x0008u32 | 0x0010u32 && 0xffe0u32 == !(0x001cu32 | 0x0002u32
        | 0x0001u32) & 0xffff && 0x3fff_ffffu32 == !(0x4000_0000u32 | 0x8000_0000u32) && 0x10u32
        & 0xf0u32 == 0x10u32 && 0x10u32 == 1u32 << 4 && 0xffff_ff80u32 == !0x7fu32)
        by (bit_vector);
}

/// Timeout that stands for waiting without bound.
pub const INFINITY: u64 = 0xffff_ffff_ffff_ffff;

/// Microseconds between two reads of a register that is waited on.
pub const WAIT_STALL: u64 = 100;

/// Access width of a register.
#[derive(Clone, Copy, Debug, PartialEq, Eq, Structural, Hash)]
pub enum IoWidth {
    Byte,
    Word,
    Dword,
}

impl IoWidth {
    /// All bits of a value of this width.
    pub open spec fn spec_mask(self) -> u32 {
        match self {
            IoWidth::Byte => 0xffu32,
            IoWidth::Word => 0xffffu32,
            IoWidth::Dword => 0xffff_ffffu32,
        }
    }

    /// All bits of a value of this width.
    #[verifier::when_used_as_spec(spec_mask)]
    pub fn mask(self) -> (r: u32)
        ensures
            r == self.spec_mask(),
    {
        match self {
            IoWidth::Byte => 0xff,
            IoWidth::Word => 0xffff,
            IoWidth::Dword => 0xffff_ffff,
        }
    }
}

/// A register of the controller: where it lies in the memory window and how
/// wide an access to it is.
#[derive(Clone, Copy, Debug, PartialEq, Eq, Structural, Hash)]
pub struct IoBase {
    pub offset: u64,
    pub width: IoWidth,
}

impl IoBase {
    /// The register of the given width at `offset`.
    pub fn new(offset: u32, width: IoWidth) -> (r: IoBase)
        ensures
            r == (IoBase { offset: offset as u64, width }),
    {
        IoBase { offset: offset as u64, width }
    }

    /// The 8-bit register at `offset`.
    pub open spec fn spec_byte(offset: u32) -> IoBase {
        IoBase { offset: offset as u64, width: IoWidth::Byte }
    }

    /// The 16-bit register at `offset`.
    pub open spec fn spec_word(offset: u32) -> IoBase {
        IoBase { offset: offset as u64, width: IoWidth::Word }
    }

    /// The 32-bit register at `offset`.
    pub open spec fn spec_dword(offset: u32) -> IoBase {
        IoBase { offset: offset as u64, width: IoWidth::Dword }
    }

    /// The 8-bit register at `offset`.
    #[verifier::when_used_as_spec(spec_byte)]
    pub fn byte(offset: u32) -> (r: IoBase)
        ensures
            r == Self::spec_byte(offset),
    {
        IoBase { offset: offset as u64, width: IoWidth::Byte }
    }

    /// The 16-bit register at `offset`.
    #[verifier::when_used_as_spec(spec_word)]
    pub fn word(offset: u32) -> (r: IoBase)
        ensures
            r == Self::spec_word(offset),
    {
        IoBase { offset: offset as u64, width: IoWidth::Word }
    }

    /// The 32-bit register at `offset`.
    #[verifier::when_used_as_spec(spec_dword)]
    pub fn dword(offset: u32) -> (r: IoBase)
        ensures
            r == Self::spec_dword(offset),
    {
        IoBase { offset: offset as u64, width: IoWidth::Dword }
    }
}

impl IoBase {
    /// The step that writes `value` to the register.
    pub fn write(&self, value: u32) -> (op: RegOp)
        ensures
            op == (RegOp::Write { reg: *self, value }),
    {
        RegOp::Write { reg: *self, value }
    }

    /// The step that clears the bits of the register outside `mask`.
    pub fn and(&self, mask: u32) -> (op: RegOp)
        ensures
            op == (RegOp::And { reg: *self, mask }),
    {
        RegOp::And { reg: *self, mask }
    }

    /// The step that sets the bits of `mask` in the register.
    pub fn or(&self, mask: u32) -> (op: RegOp)
        ensures
            op == (RegOp::Or { reg: *self, mask }),
    {
        RegOp::Or { reg: *self, mask }
    }

    /// The step that replaces the bits of the register under `mask` by those of `value`.
    pub fn update(&self, value: u32, mask: u32) -> (op: RegOp)
        ensures
            op == (RegOp::Update { reg: *self, value, mask }),
    {
        RegOp::Update { reg: *self, value, mask }
    }

    /// The step that waits, for at most `timeout` microseconds, until the
    /// bits of the register under `mask` equal `value`.
    pub fn wait(&self, timeout: u64, mask: u32, value: u32) -> (op: RegOp)
        ensures
            op == (RegOp::Wait { reg: *self, timeout, mask, value }),
    {
        RegOp::Wait { reg: *self, timeout, mask, value }
    }
}

/// One step of a register program. The caller performs it on the hardware:
/// the steps that change a register read it first where they need its value.
#[derive(Clone, Copy, Debug, PartialEq, Eq, Structural)]
pub enum RegOp {
    /// Write `value` to the register.
    Write { reg: IoBase, value: u32 },
    /// Read the register and write back its value with the bits outside `mask` cleared.
    And { reg: IoBase, mask: u32 },
    /// Read the register and write back its value with the bits of `mask` set.
    Or { reg: IoBase, mask: u32 },
    /// Read the register and write back its value with the bits under `mask`
    /// replaced by those of `value`.
    Update { reg: IoBase, value: u32, mask: u32 },
    /// Read the register every `WAIT_STALL` microseconds until its bits under
    /// `mask` equal `value`, for at most `timeout` microseconds.
    Wait { reg: IoBase, timeout: u64, mask: u32, value: u32 },
}

/// What to do after one read of a register that is waited on.
#[derive(Clone, Copy, Debug, PartialEq, Eq, Structural)]
pub enum WaitStep {
    /// The register holds the awaited value.
    Ready,
    /// Stall, then read again; `elapsed` microseconds have been waited.
    Again { elapsed: u64 },
    /// The timeout has passed.
    TimedOut,
}

impl RegOp {
    /// The register that the step works on.
    pub open spec fn spec_reg(&self) -> IoBase {
        match *self {
            RegOp::Write { reg, .. } => reg,
            RegOp::And { reg, .. } => reg,
            RegOp::Or { reg, .. } => reg,
            RegOp::Update { reg, .. } => reg,
            RegOp::Wait { reg, .. } => reg,
        }
    }

    /// The register that the step works on.
    #[verifier::when_used_as_spec(spec_reg)]
    pub fn reg(&self) -> (r: IoBase)
        ensures
            r == self.spec_reg(),
    {
        match self {
            RegOp::Write { reg, .. } => *reg,
            RegOp::And { reg, .. } => *reg,
            RegOp::Or { reg, .. } => *reg,
            RegOp::Update { reg, .. } => *reg,
            RegOp::Wait { reg, .. } => *reg,
        }
    }

    /// Whether the step needs the register's value before it can go on.
    pub open spec fn spec_reads(&self) -> bool {
        !(self is Write)
    }

    /// Whether the step needs the register's value before it can go on.
    #[verifier::when_used_as_spec(spec_reads)]
    pub fn reads(&self) -> (r: bool)
        ensures
            r == self.spec_reads(),
    {
        match self {
            RegOp::Write { .. } => false,
            _ => true,
        }
    }

    /// The value that the step leaves in a register that held `current`, cut to
    /// the register's width; `None` where the step writes nothing.
    pub open spec fn spec_written(&self, current: u32) -> Option<u32> {
        match *self {
            RegOp::Write { reg, value } => Some(value & reg.width.spec_mask()),
            RegOp::And { reg, mask } => Some(current & mask & reg.width.spec_mask()),
            RegOp::Or { reg, mask } => Some((current | mask) & reg.width.spec_mask()),
            RegOp::Update { reg, value, mask } => Some(
                ((current & !mask) | (value & mask)) & reg.width.spec_mask(),
            ),
            RegOp::Wait { .. } => None,
        }
    }

    /// The value to write to the register, given the value `current` that was
    /// read from it (any value will do for a plain write).
    #[verifier::when_used_as_spec(spec_written)]
    pub fn written(&self, current: u32) -> (r: Option<u32>)
        ensures
            r == self.spec_written(current),
            r matches Some(v) ==> v <= self.spec_reg().width.spec_mask(),
    {
        let width = self.reg().width.mask();
        let v = match self {
            RegOp::Write { value, .. } => *value,
            RegOp::And { mask, .. } => current & *mask,
            RegOp::Or { mask, .. } => current | *mask,
            RegOp::Update { value, mask, .. } => (current & !*mask) | (*value & *mask),
            RegOp::Wait { .. } => {
                return None;
            },
        };
        assert(v & width <= width) by (bit_vector);
        Some(v & width)
    }

    /// What a wait does after reading `current` from its register with
    /// `elapsed` microseconds already waited: it is done when the bits under
    /// the mask hold the awaited value; else it has timed out when one more
    /// stall reaches the timeout, unless the timeout is `INFINITY`.
    pub open spec fn spec_poll(&self, current: u32, elapsed: u64) -> WaitStep {
        match *self {
            RegOp::Wait { timeout, mask, value, .. } => {
                if current & mask == value {
                    WaitStep::Ready
                } else if timeout != INFINITY && elapsed + WAIT_STALL >= timeout {
                    WaitStep::TimedOut
                } else if elapsed + WAIT_STALL > u64::MAX {
                    WaitStep::Again { elapsed: u64::MAX }
                } else {
                    WaitStep::Again { elapsed: (elapsed + WAIT_STALL) as u64 }
                }
            },
            _ => WaitStep::Ready,
        }
    }

    /// One round of a wait; a step that is no wait is ready at once. A wait
    /// that goes on has waited one stall longer, and less than its timeout
    /// if it has one: a bounded wait ends.
    #[verifier::when_used_as_spec(spec_poll)]
    pub fn poll(&self, current: u32, elapsed: u64) -> (r: WaitStep)
        ensures
            r == self.spec_poll(current, elapsed),
            r matches WaitStep::Again { elapsed: waited } ==> (waited == elapsed + WAIT_STALL
                || waited == u64::MAX) && (*self matches RegOp::Wait { timeout, .. } && (timeout
                != INFINITY ==> waited < timeout)),
    {
        match self {
            RegOp::Wait { timeout, mask, value, .. } => {
                if current & *mask == *value {
                    WaitStep::Ready
                } else {
                    let waited = elapsed.saturating_add(WAIT_STALL);
                    if *timeout != INFINITY && waited >= *timeout {
                        WaitStep::TimedOut
                    } else {
                        WaitStep::Again { elapsed: waited }
                    }
                }
            },
            _ => WaitStep::Ready,
        }
    }
}

/// The register block of one stream.
#[derive(Clone, Copy, Debug, PartialEq, Eq, Structural)]
pub struct StreamRegisterSet {
    pub index: u32,
    pub base: u32,
}

impl StreamRegisterSet {
    /// Offset of the register block of stream `index`.
    pub open spec fn spec_base(index: u32) -> int {
        PCI_SDBASE + PCI_SDSPAN * index
    }

    /// Whether the block is that of a stream the controller can have.
    pub open spec fn wf(self) -> bool {
        &&& self.index < STREAM_LIMIT
        &&& self.base == Self::spec_base(self.index)
    }

    /// The register block of stream `index`.
    pub open spec fn spec_new(index: u32) -> StreamRegisterSet {
        StreamRegisterSet { index, base: Self::spec_base(index) as u32 }
    }

    /// The register block of stream `index`, counted over input streams
    /// first and output streams after them.
    #[verifier::when_used_as_spec(spec_new)]
    pub fn new(index: u32) -> (r: StreamRegisterSet)
        requires
            index < STREAM_LIMIT,
        ensures
            r == Self::spec_new(index),
            r.wf(),
    {
        let base = PCI_SDBASE + PCI_SDSPAN * index;
        StreamRegisterSet { index, base }
    }

    /// Control bits: reset, run and the interrupt enables.
    pub open spec fn spec_ctl16(&self) -> IoBase {
        IoBase::spec_word((self.base + PCI_SDCTL16) as u32)
    }

    /// Upper control byte: stream tag and stripe.
    pub open spec fn spec_ctl8(&self) -> IoBase {
        IoBase::spec_byte((self.base + PCI_SDCTL8) as u32)
    }

    /// Status byte.
    pub open spec fn spec_sts(&self) -> IoBase {
        IoBase::spec_byte((self.base + PCI_SDSTS) as u32)
    }

    /// Link position in the cyclic buffer, in bytes.
    pub open spec fn spec_lpib(&self) -> IoBase {
        IoBase::spec_dword((self.base + PCI_SDLPIB) as u32)
    }

    /// Length of the cyclic buffer, in bytes.
    pub open spec fn spec_cbl(&self) -> IoBase {
        IoBase::spec_dword((self.base + PCI_SDCBL) as u32)
    }

    /// Index of the last valid descriptor.
    pub open spec fn spec_lvi(&self) -> IoBase {
        IoBase::spec_word((self.base + PCI_SDLVI) as u32)
    }

    /// FIFO watermark.
    pub open spec fn spec_fifow(&self) -> IoBase {
        IoBase::spec_word((self.base + PCI_SDFIFOW) as u32)
    }

    /// FIFO size.
    pub open spec fn spec_fifos(&self) -> IoBase {
        IoBase::spec_word((self.base + PCI_SDFIFOS) as u32)
    }

    /// Sample format.
    pub open spec fn spec_fmt(&self) -> IoBase {
        IoBase::spec_word((self.base + PCI_SDFMT) as u32)
    }

    /// Lower half of the descriptor list's address.
    pub open spec fn spec_bdpl(&self) -> IoBase {
        IoBase::spec_dword((self.base + PCI_SDBDPL) as u32)
    }

    /// Upper half of the descriptor list's address.
    pub open spec fn spec_bdpu(&self) -> IoBase {
        IoBase::spec_dword((self.base + PCI_SDBDPU) as u32)
    }

    /// The bit of this stream in the interrupt control register.
    pub open spec fn spec_intctl_mask(&self) -> u32 {
        1u32 << self.index
    }

    /// Control bits: reset, run and the interrupt enables.
    #[verifier::when_used_as_spec(spec_ctl16)]
    pub fn ctl16(&self) -> (r: IoBase)
        requires
            self.wf(),
        ensures
            r == self.spec_ctl16(),
    {
        IoBase::word(self.base + PCI_SDCTL16)
    }

    /// Upper control byte: stream tag and stripe.
    #[verifier::when_used_as_spec(spec_ctl8)]
    pub fn ctl8(&self) -> (r: IoBase)
        requires
            self.wf(),
        ensures
            r == self.spec_ctl8(),
    {
        IoBase::byte(self.base + PCI_SDCTL8)
    }

    /// Status byte.
    #[verifier::when_used_as_spec(spec_sts)]
    pub fn sts(&self) -> (r: IoBase)
        requires
            self.wf(),
        ensures
            r == self.spec_sts(),
    {
        IoBase::byte(self.base + PCI_SDSTS)
    }

    /// Link position in the cyclic buffer, in bytes.
    #[verifier::when_used_as_spec(spec_lpib)]
    pub fn lpib(&self) -> (r: IoBase)
        requires
            self.wf(),
        ensures
            r == self.spec_lpib(),
    {
        IoBase::dword(self.base + PCI_SDLPIB)
    }

    /// Length of the cyclic buffer, in bytes.
    #[verifier::when_used_as_spec(spec_cbl)]
    pub fn cbl(&self) -> (r: IoBase)
        requires
            self.wf(),
        ensures
            r == self.spec_cbl(),
    {
        IoBase::dword(self.base + PCI_SDCBL)
    }

    /// Index of the last valid descriptor.
    #[verifier::when_used_as_spec(spec_lvi)]
    pub fn lvi(&self) -> (r: IoBase)
        requires
            self.wf(),
        ensures
            r == self.spec_lvi(),
    {
        IoBase::word(self.base + PCI_SDLVI)
    }

    /// FIFO watermark.
    #[verifier::when_used_as_spec(spec_fifow)]
    pub fn fifow(&self) -> (r: IoBase)
        requires
            self.wf(),
        ensures
            r == self.spec_fifow(),
    {
        IoBase::word(self.base + PCI_SDFIFOW)
    }

    /// FIFO size.
    #[verifier::when_used_as_spec(spec_fifos)]
    pub fn fifos(&self) -> (r: IoBase)
        requires
            self.wf(),
        ensures
            r == self.spec_fifos(),
    {
        IoBase::word(self.base + PCI_SDFIFOS)
    }

    /// Sample format.
    #[verifier::when_used_as_spec(spec_fmt)]
    pub fn fmt(&self) -> (r: IoBase)
        requires
            self.wf(),
        ensures
            r == self.spec_fmt(),
    {
        IoBase::word(self.base + PCI_SDFMT)
    }

    /// Lower half of the descriptor list's address.
    #[verifier::when_used_as_spec(spec_bdpl)]
    pub fn bdpl(&self) -> (r: IoBase)
        requires
            self.wf(),
        ensures
            r == self.spec_bdpl(),
    {
        IoBase::dword(self.base + PCI_SDBDPL)
    }

    /// Upper half of the descriptor list's address.
    #[verifier::when_used_as_spec(spec_bdpu)]
    pub fn bdpu(&self) -> (r: IoBase)
        requires
            self.wf(),
        ensures
            r == self.spec_bdpu(),
    {
        IoBase::dword(self.base + PCI_SDBDPU)
    }

    /// The bit of this stream in the interrupt control register.
    #[verifier::when_used_as_spec(spec_intctl_mask)]
    pub fn intctl_mask(&self) -> (r: u32)
        requires
            self.wf(),
        ensures
            r == self.spec_intctl_mask(),
            r & PCI_INTCTL_SIE_MASK == r,
    {
        let index = self.index;
        assert((1u32 << index) & 0x3fff_ffff == 1u32 << index) by (bit_vector)
            requires
                index < 30,
        ;
        1u32 << self.index
    }
}

} // verus!
