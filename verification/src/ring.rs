//! The transport through the command and response rings.

use vstd::prelude::*;
use crate::error::HdaError;
use crate::fence::{fence, Fence};
use crate::stream::{milliseconds_to_timer_period, TIMER_UNITS_PER_MILLISECOND};
use crate::window::{load_u32, loaded_u32, store_u32, stored};
use crate::registers::{
    IoBase, RegOp, PCI_CORBCTL, PCI_CORBCTL_DMA_BIT, PCI_CORBLBASE, PCI_CORBRP,
    PCI_CORBRP_RST_BIT, PCI_CORBRP_RSVDP_MASK, PCI_CORBSIZE, PCI_CORBSIZE_RSVDP_MASK,
    PCI_CORBSIZE_SZ_16, PCI_CORBSIZE_SZ_2, PCI_CORBSIZE_SZ_256, PCI_CORBSIZE_SZ_MASK,
    PCI_CORBUBASE, PCI_CORBWP, PCI_CORBWP_RSVDP_MASK, PCI_RINTCNT, PCI_RINTCNT_RSVDP_MASK,
    PCI_RIRBCTL, PCI_RIRBCTL_DMA_BIT, PCI_RIRBCTL_IRQ_BIT, PCI_RIRBLBASE, PCI_RIRBSIZE,
    PCI_RIRBSIZE_RSVDP_MASK, PCI_RIRBSIZE_SZ_MASK, PCI_RIRBSTS, PCI_RIRBSTS_RESPONSE_BIT,
    PCI_RIRBUBASE, PCI_RIRBWP, PCI_RIRBWP_RST_BIT, PCI_RIRB_EX_UNSOLICITED_BIT,
};

verus! {

/// Number of slots that each ring's memory holds, whatever its capacity in use.
pub const RING_SLOTS: usize = 256;

/// Bits of a ring's device address that must be clear: rings are 128-byte aligned.
pub const RING_ALIGN_MASK: u64 = 0x7f;

/// Microseconds to wait for a ring's DMA engine or pointer reset.
pub const RING_WAIT: u64 = 1000;

/// Milliseconds to wait for the response to a command.
pub const RESPONSE_TIMEOUT: u64 = 100;

/// Microseconds to stall between two looks at the response ring.
pub const RESPONSE_STALL: usize = 20;

/// Number of bytes in one slot of the command ring.
pub const COMMAND_BYTES: usize = 4;

/// Number of bytes in one slot of the response ring.
pub const RESPONSE_BYTES: usize = 8;

/// One entry of the response ring.
#[derive(Clone, Copy, Debug, PartialEq, Eq, Structural)]
pub struct ResponseEntry {
    pub result: u32,
    pub response_ex: u32,
}

impl ResponseEntry {
    /// An entry of zeros.
    pub fn new() -> (r: ResponseEntry)
        ensures
            r == (ResponseEntry { result: 0, response_ex: 0 }),
    {
        ResponseEntry { result: 0, response_ex: 0 }
    }

    /// Reads the entry in slot `slot` of the response ring from the ring's
    /// memory: eight bytes a slot, the response first, each low byte first.
    /// A slot that does not lie within the memory is refused. A load fence
    /// comes before the read, so that the entry is read after the write
    /// pointer that announced it.
    pub fn load(window: &[u8], slot: usize) -> (r: Result<ResponseEntry, HdaError>)
        ensures
            RESPONSE_BYTES * (slot + 1) > window@.len() ==> r == Err::<ResponseEntry, HdaError>(
                HdaError::InvalidParameter,
            ),
            RESPONSE_BYTES * (slot + 1) <= window@.len() ==> r == Ok::<ResponseEntry, HdaError>(
                ResponseEntry {
                    result: loaded_u32(window@, RESPONSE_BYTES * slot),
                    response_ex: loaded_u32(window@, RESPONSE_BYTES * slot + 4),
                },
            ),
    {
        let len = window.len();
        if slot >= len / RESPONSE_BYTES {
            return Err(HdaError::InvalidParameter);
        }
        let offset = RESPONSE_BYTES * slot;
        fence(Fence::Load);
        Ok(
            ResponseEntry {
                result: load_u32(window, offset),
                response_ex: load_u32(window, offset + 4),
            },
        )
    }

    /// Whether the codec sent the entry on its own, not in answer to a command.
    pub open spec fn spec_unsolicited(&self) -> bool {
        self.response_ex & PCI_RIRB_EX_UNSOLICITED_BIT != 0
    }

    /// Whether the codec sent the entry on its own, not in answer to a command.
    #[verifier::when_used_as_spec(spec_unsolicited)]
    pub fn unsolicited(&self) -> (r: bool)
        ensures
            r == self.spec_unsolicited(),
    {
        (self.response_ex & PCI_RIRB_EX_UNSOLICITED_BIT) != 0
    }

    /// The entry as the answer to a command: an unsolicited entry is a
    /// device error. A full fence comes before the entry is handed on.
    pub fn solicited(self) -> (r: Result<ResponseEntry, HdaError>)
        ensures
            self.spec_unsolicited() ==> r == Err::<ResponseEntry, HdaError>(HdaError::DeviceError),
            !self.spec_unsolicited() ==> r == Ok::<ResponseEntry, HdaError>(self),
    {
        if self.unsolicited() {
            Err(HdaError::DeviceError)
        } else {
            fence(Fence::Full);
            Ok(self)
        }
    }
}

/// Number of slots that a ring of the given size selection uses; the
/// selection is the low two bits of the ring's size register.
pub open spec fn spec_ring_capacity(select: u32) -> Result<usize, HdaError> {
    if select == PCI_CORBSIZE_SZ_256 {
        Ok(256usize)
    } else if select == PCI_CORBSIZE_SZ_16 {
        Ok(16usize)
    } else if select == PCI_CORBSIZE_SZ_2 {
        Ok(2usize)
    } else {
        Err(HdaError::Unsupported)
    }
}

/// The slot after `pointer` in a ring of `capacity` slots.
pub open spec fn ring_next(pointer: int, capacity: int) -> int {
    (pointer + 1) % capacity
}

/// The pointer that starts at `pointer` after `steps` moves to the next slot.
pub open spec fn ring_advance(pointer: int, steps: nat, capacity: int) -> int
    decreases steps,
{
    if steps == 0 {
        pointer
    } else {
        ring_next(ring_advance(pointer, (steps - 1) as nat, capacity), capacity)
    }
}

/// Number of slots from `from` forward to `to`, going round the ring.
pub open spec fn ring_distance(from: int, to: int, capacity: int) -> int {
    (to - from) % capacity
}

/// Number of slots that a ring uses, from the value of its size register.
/// Of the three selections only 2, 16 and 256 slots can be; the fourth is
/// reserved.
pub fn ring_capacity(size_register: u8) -> (r: Result<usize, HdaError>)
    ensures
        r == spec_ring_capacity(size_register as u32 & PCI_CORBSIZE_SZ_MASK),
        r matches Ok(n) ==> n == 2 || n == 16 || n == 256,
        r is Err <==> size_register as u32 & PCI_CORBSIZE_SZ_MASK == 3,
{
    let select = size_register as u32 & PCI_CORBSIZE_SZ_MASK;
    assert(select <= 3) by (bit_vector)
        requires
            select == size_register as u32 & 3,
    ;
    if select == PCI_CORBSIZE_SZ_256 {
        Ok(256)
    } else if select == PCI_CORBSIZE_SZ_16 {
        Ok(16)
    } else if select == PCI_CORBSIZE_SZ_2 {
        Ok(2)
    } else {
        Err(HdaError::Unsupported)
    }
}

/// Lower half of a device address.
pub open spec fn address_low(address: u64) -> u32 {
    (address & 0xffff_ffff) as u32
}

/// Upper half of a device address.
pub open spec fn address_high(address: u64) -> u32 {
    ((address >> 32) & 0xffff_ffff) as u32
}

/// Splits a device address into the values of a pair of base registers.
pub fn split_address(address: u64) -> (r: (u32, u32))
    ensures
        r.0 == address_low(address),
        r.1 == address_high(address),
{
    assert(address & 0xffff_ffff <= 0xffff_ffff && (address >> 32) & 0xffff_ffff <= 0xffff_ffff)
        by (bit_vector);
    ((address & 0xffff_ffff) as u32, ((address >> 32) & 0xffff_ffff) as u32)
}

/// The command and response rings of a controller, as the driver sees them:
/// the memory of the command ring, the capacities in use and the place up to
/// which responses have been taken.
pub struct CommandResponseBuffers {
    corbsize: usize,
    rirbsize: usize,
    read_pos: usize,
    corb: Vec<u32>,
    corb_address: u64,
    rirb_address: u64,
    corb_select: u32,
    rirb_select: u32,
}

/// What to do after a look at the response ring.
#[derive(Clone, Copy, Debug, PartialEq, Eq, Structural)]
pub enum RecvStep {
    /// The response has come.
    Done(u32),
    /// Nothing yet: stall for `RESPONSE_STALL` microseconds and see whether
    /// the timeout has passed.
    Stall,
    /// The command has failed.
    Failed(HdaError),
}

impl CommandResponseBuffers {
    #[verifier::type_invariant]
    spec fn inv(self) -> bool {
        &&& spec_ring_capacity(self.corb_select) == Ok::<usize, HdaError>(self.corbsize)
        &&& spec_ring_capacity(self.rirb_select) == Ok::<usize, HdaError>(self.rirbsize)
        &&& self.read_pos < self.rirbsize
        &&& self.corb.len() == RING_SLOTS
        &&& self.corb_address & RING_ALIGN_MASK == 0
        &&& self.rirb_address & RING_ALIGN_MASK == 0
    }

    /// Number of slots of the command ring that are in use.
    pub closed spec fn corbsize(&self) -> usize {
        self.corbsize
    }

    /// Number of slots of the response ring that are in use.
    pub closed spec fn rirbsize(&self) -> usize {
        self.rirbsize
    }

    /// Slot of the response ring that was taken last.
    pub closed spec fn read_pos(&self) -> usize {
        self.read_pos
    }

    /// Memory of the command ring.
    pub closed spec fn corb(&self) -> Seq<u32> {
        self.corb@
    }

    /// Device address of the command ring.
    pub closed spec fn corb_address(&self) -> u64 {
        self.corb_address
    }

    /// Device address of the response ring.
    pub closed spec fn rirb_address(&self) -> u64 {
        self.rirb_address
    }

    /// Size selection of the command ring.
    pub closed spec fn corb_select(&self) -> u32 {
        self.corb_select
    }

    /// Size selection of the response ring.
    pub closed spec fn rirb_select(&self) -> u32 {
        self.rirb_select
    }

    /// Whether rings at these device addresses and with these size registers
    /// can be used: both addresses are 128-byte aligned and both size
    /// selections name a capacity.
    pub open spec fn supported(
        corb_address: u64,
        rirb_address: u64,
        corbszcap: u8,
        rirbszcap: u8,
    ) -> bool {
        &&& corb_address & RING_ALIGN_MASK == 0
        &&& rirb_address & RING_ALIGN_MASK == 0
        &&& spec_ring_capacity(corbszcap as u32 & PCI_CORBSIZE_SZ_MASK) is Ok
        &&& spec_ring_capacity(rirbszcap as u32 & PCI_RIRBSIZE_SZ_MASK) is Ok
    }

    /// The rings of a controller whose ring memory was mapped at the two
    /// device addresses and whose size registers read `corbszcap` and
    /// `rirbszcap`. The command ring starts out zeroed, the read cursor at
    /// slot 0.
    pub fn new(corb_address: u64, rirb_address: u64, corbszcap: u8, rirbszcap: u8) -> (r: Result<
        CommandResponseBuffers,
        HdaError,
    >)
        ensures
            !Self::supported(corb_address, rirb_address, corbszcap, rirbszcap) ==> r matches Err(
                HdaError::Unsupported,
            ),
            Self::supported(corb_address, rirb_address, corbszcap, rirbszcap) ==> (r matches Ok(b)
                && Ok::<usize, HdaError>(b.corbsize()) == spec_ring_capacity(
                corbszcap as u32 & PCI_CORBSIZE_SZ_MASK,
            ) && Ok::<usize, HdaError>(b.rirbsize()) == spec_ring_capacity(
                rirbszcap as u32 & PCI_RIRBSIZE_SZ_MASK,
            ) && b.corb_select() == corbszcap as u32 & PCI_CORBSIZE_SZ_MASK && b.rirb_select()
                == rirbszcap as u32 & PCI_RIRBSIZE_SZ_MASK && b.read_pos() == 0 && b.corb()
                == Seq::new(RING_SLOTS as nat, |i: int| 0u32) && b.corb_address() == corb_address
                && b.rirb_address() == rirb_address),
    {
        if (corb_address & RING_ALIGN_MASK) != 0 {
            return Err(HdaError::Unsupported);
        }
        if (rirb_address & RING_ALIGN_MASK) != 0 {
            return Err(HdaError::Unsupported);
        }
        let corbsize = match ring_capacity(corbszcap) {
            Ok(n) => n,
            Err(_) => {
                return Err(HdaError::Unsupported);
            },
        };
        let rirbsize = match ring_capacity(rirbszcap) {
            Ok(n) => n,
            Err(_) => {
                return Err(HdaError::Unsupported);
            },
        };
        let mut corb: Vec<u32> = Vec::new();
        let mut i: usize = 0;
        while i < RING_SLOTS
            invariant
                i <= RING_SLOTS,
                corb@ == Seq::new(i as nat, |k: int| 0u32),
            decreases RING_SLOTS - i,
        {
            corb.push(0);
            i += 1;
        }
        Ok(
            CommandResponseBuffers {
                corbsize,
                rirbsize,
                read_pos: 0,
                corb,
                corb_address,
                rirb_address,
                corb_select: corbszcap as u32 & PCI_CORBSIZE_SZ_MASK,
                rirb_select: rirbszcap as u32 & PCI_RIRBSIZE_SZ_MASK,
            },
        )
    }

    /// The register program that brings the rings up: stop both DMA engines
    /// and wait until they have stopped, reset the command ring's read
    /// pointer and clear its write pointer, program base address and size of
    /// each ring, reset the response ring's write pointer, ask for an
    /// interrupt per response, and start the response engine before the
    /// command engine.
    pub open spec fn spec_bring_up(&self) -> Seq<RegOp> {
        seq![
            RegOp::And { reg: IoBase::spec_byte(PCI_RIRBCTL), mask: !PCI_RIRBCTL_DMA_BIT },
            RegOp::And { reg: IoBase::spec_byte(PCI_CORBCTL), mask: !PCI_CORBCTL_DMA_BIT },
            RegOp::Wait {
                reg: IoBase::spec_byte(PCI_CORBCTL),
                timeout: RING_WAIT,
                mask: PCI_CORBCTL_DMA_BIT,
                value: 0,
            },
            RegOp::Wait {
                reg: IoBase::spec_byte(PCI_RIRBCTL),
                timeout: RING_WAIT,
                mask: PCI_RIRBCTL_DMA_BIT,
                value: 0,
            },
            RegOp::Update {
                reg: IoBase::spec_word(PCI_CORBRP),
                value: PCI_CORBRP_RST_BIT,
                mask: !PCI_CORBRP_RSVDP_MASK,
            },
            RegOp::Wait {
                reg: IoBase::spec_word(PCI_CORBRP),
                timeout: RING_WAIT,
                mask: PCI_CORBRP_RST_BIT,
                value: PCI_CORBRP_RST_BIT,
            },
            RegOp::And { reg: IoBase::spec_word(PCI_CORBRP), mask: !PCI_CORBRP_RST_BIT },
            RegOp::Wait {
                reg: IoBase::spec_word(PCI_CORBRP),
                timeout: RING_WAIT,
                mask: PCI_CORBRP_RST_BIT,
                value: 0,
            },
            RegOp::And { reg: IoBase::spec_word(PCI_CORBWP), mask: PCI_CORBWP_RSVDP_MASK },
            RegOp::Write {
                reg: IoBase::spec_dword(PCI_CORBLBASE),
                value: address_low(self.corb_address()),
            },
            RegOp::Write {
                reg: IoBase::spec_dword(PCI_CORBUBASE),
                value: address_high(self.corb_address()),
            },
            RegOp::Update {
                reg: IoBase::spec_byte(PCI_CORBSIZE),
                value: self.corb_select(),
                mask: !PCI_CORBSIZE_RSVDP_MASK,
            },
            RegOp::Write {
                reg: IoBase::spec_dword(PCI_RIRBLBASE),
                value: address_low(self.rirb_address()),
            },
            RegOp::Write {
                reg: IoBase::spec_dword(PCI_RIRBUBASE),
                value: address_high(self.rirb_address()),
            },
            RegOp::Update {
                reg: IoBase::spec_byte(PCI_RIRBSIZE),
                value: self.rirb_select(),
                mask: !PCI_RIRBSIZE_RSVDP_MASK,
            },
            RegOp::Or { reg: IoBase::spec_word(PCI_RIRBWP), mask: PCI_RIRBWP_RST_BIT },
            RegOp::Update {
                reg: IoBase::spec_word(PCI_RINTCNT),
                value: 1,
                mask: !PCI_RINTCNT_RSVDP_MASK,
            },
            RegOp::Or {
                reg: IoBase::spec_byte(PCI_RIRBCTL),
                mask: PCI_RIRBCTL_DMA_BIT | PCI_RIRBCTL_IRQ_BIT,
            },
            RegOp::Or { reg: IoBase::spec_byte(PCI_CORBCTL), mask: PCI_CORBCTL_DMA_BIT },
        ]
    }

    /// The register program to run once the rings' memory is mapped and
    /// before the first command is sent.
    pub fn bring_up(&self) -> (ops: Vec<RegOp>)
        ensures
            ops@ == self.spec_bring_up(),
    {
        let (corb_low, corb_high) = split_address(self.corb_address);
        let (rirb_low, rirb_high) = split_address(self.rirb_address);
        let rirbctl = IoBase::byte(PCI_RIRBCTL);
        let corbctl = IoBase::byte(PCI_CORBCTL);
        let corbrp = IoBase::word(PCI_CORBRP);
        let mut ops: Vec<RegOp> = Vec::new();
        ops.push(rirbctl.and(!PCI_RIRBCTL_DMA_BIT));
        ops.push(corbctl.and(!PCI_CORBCTL_DMA_BIT));
        ops.push(corbctl.wait(RING_WAIT, PCI_CORBCTL_DMA_BIT, 0));
        ops.push(rirbctl.wait(RING_WAIT, PCI_RIRBCTL_DMA_BIT, 0));
        ops.push(corbrp.update(PCI_CORBRP_RST_BIT, !PCI_CORBRP_RSVDP_MASK));
        ops.push(corbrp.wait(RING_WAIT, PCI_CORBRP_RST_BIT, PCI_CORBRP_RST_BIT));
        ops.push(corbrp.and(!PCI_CORBRP_RST_BIT));
        ops.push(corbrp.wait(RING_WAIT, PCI_CORBRP_RST_BIT, 0));
        ops.push(IoBase::word(PCI_CORBWP).and(PCI_CORBWP_RSVDP_MASK));
        ops.push(IoBase::dword(PCI_CORBLBASE).write(corb_low));
        ops.push(IoBase::dword(PCI_CORBUBASE).write(corb_high));
        ops.push(IoBase::byte(PCI_CORBSIZE).update(self.corb_select, !PCI_CORBSIZE_RSVDP_MASK));
        ops.push(IoBase::dword(PCI_RIRBLBASE).write(rirb_low));
        ops.push(IoBase::dword(PCI_RIRBUBASE).write(rirb_high));
        ops.push(IoBase::byte(PCI_RIRBSIZE).update(self.rirb_select, !PCI_RIRBSIZE_RSVDP_MASK));
        ops.push(IoBase::word(PCI_RIRBWP).or(PCI_RIRBWP_RST_BIT));
        ops.push(IoBase::word(PCI_RINTCNT).update(1, !PCI_RINTCNT_RSVDP_MASK));
        ops.push(rirbctl.or(PCI_RIRBCTL_DMA_BIT | PCI_RIRBCTL_IRQ_BIT));
        ops.push(corbctl.or(PCI_CORBCTL_DMA_BIT));
        assert(ops@ =~= self.spec_bring_up());
        ops
    }

    /// The register program that stops both DMA engines and waits until they
    /// have stopped. It runs before the rings' memory is unmapped, never after.
    pub open spec fn spec_shut_down() -> Seq<RegOp> {
        seq![
            RegOp::And { reg: IoBase::spec_byte(PCI_RIRBCTL), mask: !PCI_RIRBCTL_DMA_BIT },
            RegOp::And { reg: IoBase::spec_byte(PCI_CORBCTL), mask: !PCI_CORBCTL_DMA_BIT },
            RegOp::Wait {
                reg: IoBase::spec_byte(PCI_RIRBCTL),
                timeout: RING_WAIT,
                mask: PCI_RIRBCTL_DMA_BIT,
                value: 0,
            },
            RegOp::Wait {
                reg: IoBase::spec_byte(PCI_CORBCTL),
                timeout: RING_WAIT,
                mask: PCI_CORBCTL_DMA_BIT,
                value: 0,
            },
        ]
    }

    /// The register program that takes the rings out of use.
    pub fn uninit_io(&self) -> (ops: Vec<RegOp>)
        ensures
            ops@ == Self::spec_shut_down(),
    {
        let rirbctl = IoBase::byte(PCI_RIRBCTL);
        let corbctl = IoBase::byte(PCI_CORBCTL);
        let mut ops: Vec<RegOp> = Vec::new();
        ops.push(rirbctl.and(!PCI_RIRBCTL_DMA_BIT));
        ops.push(corbctl.and(!PCI_CORBCTL_DMA_BIT));
        ops.push(rirbctl.wait(RING_WAIT, PCI_RIRBCTL_DMA_BIT, 0));
        ops.push(corbctl.wait(RING_WAIT, PCI_CORBCTL_DMA_BIT, 0));
        assert(ops@ =~= Self::spec_shut_down());
        ops
    }

    /// The command in slot `index` of the command ring.
    pub fn command_at(&self, index: usize) -> (r: u32)
        requires
            index < RING_SLOTS,
        ensures
            r == self.corb()[index as int],
    {
        proof {
            use_type_invariant(self);
        }
        self.corb[index]
    }

    /// Writes the command in slot `slot` into the command ring's memory:
    /// four bytes a slot, low byte first. A slot that does not lie within the
    /// ring or the memory is refused, and the memory stays as it was. A store
    /// fence comes after the write, so that the command is in memory before
    /// the write pointer register tells the controller of it.
    pub fn store_command(&self, window: &mut [u8], slot: usize) -> (r: Result<(), HdaError>)
        ensures
            slot >= RING_SLOTS || COMMAND_BYTES * (slot + 1) > old(window)@.len() ==> r == Err::<
                (),
                HdaError,
            >(HdaError::InvalidParameter) && final(window)@ == old(window)@,
            slot < RING_SLOTS && COMMAND_BYTES * (slot + 1) <= old(window)@.len() ==> r == Ok::<
                (),
                HdaError,
            >(()) && final(window)@ == stored(
                old(window)@,
                COMMAND_BYTES * slot,
                vstd::bytes::spec_u32_to_le_bytes(self.corb()[slot as int]),
            ),
    {
        proof {
            use_type_invariant(self);
        }
        let len = window.len();
        if slot >= RING_SLOTS || slot >= len / COMMAND_BYTES {
            return Err(HdaError::InvalidParameter);
        }
        store_u32(window, COMMAND_BYTES * slot, self.corb[slot]);
        fence(Fence::Store);
        Ok(())
    }

    /// Number of slots of the command ring that are in use.
    pub fn capacity(&self) -> (r: usize)
        ensures
            r == self.corbsize(),
            r == 2 || r == 16 || r == 256,
    {
        proof {
            use_type_invariant(self);
        }
        self.corbsize
    }

    /// Slot of the response ring that was taken last.
    pub fn cursor(&self) -> (r: usize)
        ensures
            r == self.read_pos(),
            r < self.rirbsize(),
    {
        proof {
            use_type_invariant(self);
        }
        self.read_pos
    }

    /// Puts `cmd` into the command ring. `corbwp` and `corbrp` are the values
    /// read from the ring's write and read pointer registers. The command goes
    /// into the slot after the write pointer, and the result is that slot,
    /// which the caller writes to the write pointer register after a store
    /// fence. Where that slot is the one at the read pointer the ring is full:
    /// the call fails and leaves the ring's memory as it was.
    pub fn send(&mut self, corbwp: u16, corbrp: u16, cmd: u32) -> (r: Result<u16, HdaError>)
        ensures
            final(self).corbsize() == old(self).corbsize(),
            final(self).rirbsize() == old(self).rirbsize(),
            final(self).read_pos() == old(self).read_pos(),
            final(self).corb_address() == old(self).corb_address(),
            final(self).rirb_address() == old(self).rirb_address(),
            final(self).corb_select() == old(self).corb_select(),
            final(self).rirb_select() == old(self).rirb_select(),
            ring_next(corbwp as int, old(self).corbsize() as int) == corbrp ==> r == Err::<
                u16,
                HdaError,
            >(HdaError::NotReady) && final(self).corb() == old(self).corb(),
            ring_next(corbwp as int, old(self).corbsize() as int) != corbrp ==> r == Ok::<
                u16,
                HdaError,
            >(ring_next(corbwp as int, old(self).corbsize() as int) as u16) && final(self).corb()
                == old(self).corb().update(
                ring_next(corbwp as int, old(self).corbsize() as int),
                cmd,
            ),
    {
        proof {
            use_type_invariant(&*self);
        }
        let next_corbwp = (corbwp as usize + 1) % self.corbsize;
        if next_corbwp == corbrp as usize {
            return Err(HdaError::NotReady);
        }
        self.corb[next_corbwp] = cmd;
        Ok(next_corbwp as u16)
    }

    /// Looks for a response. `rirbwp` is the value read from the response
    /// ring's write pointer register. While it equals the read cursor nothing
    /// has come and the call fails with `NotReady`; else the cursor moves to
    /// the next slot, and the result is that slot, which the caller reads
    /// after a load fence.
    pub fn poll_rirb(&mut self, rirbwp: u16) -> (r: Result<usize, HdaError>)
        ensures
            final(self).corbsize() == old(self).corbsize(),
            final(self).rirbsize() == old(self).rirbsize(),
            final(self).corb() == old(self).corb(),
            final(self).corb_address() == old(self).corb_address(),
            final(self).rirb_address() == old(self).rirb_address(),
            final(self).corb_select() == old(self).corb_select(),
            final(self).rirb_select() == old(self).rirb_select(),
            rirbwp == old(self).read_pos() ==> r == Err::<usize, HdaError>(HdaError::NotReady)
                && final(self).read_pos() == old(self).read_pos(),
            rirbwp != old(self).read_pos() ==> r == Ok::<usize, HdaError>(final(self).read_pos())
                && final(self).read_pos() == ring_next(
                old(self).read_pos() as int,
                old(self).rirbsize() as int,
            ),
    {
        proof {
            use_type_invariant(&*self);
        }
        if rirbwp as usize == self.read_pos {
            return Err(HdaError::NotReady);
        }
        self.read_pos = (self.read_pos + 1) % self.rirbsize;
        Ok(self.read_pos)
    }

    /// The register step that acknowledges a response once its slot has been read.
    pub fn acknowledge(&self) -> (op: RegOp)
        ensures
            op == (RegOp::Or {
                reg: IoBase::spec_byte(PCI_RIRBSTS),
                mask: PCI_RIRBSTS_RESPONSE_BIT,
            }),
    {
        RegOp::Or { reg: IoBase::byte(PCI_RIRBSTS), mask: PCI_RIRBSTS_RESPONSE_BIT }
    }

    /// The period of the one-shot timer that bounds the wait for a
    /// response, in timer units of 100 ns: a tenth of a second.
    pub fn response_timer(&self) -> (period: u64)
        ensures
            period == RESPONSE_TIMEOUT * TIMER_UNITS_PER_MILLISECOND,
            period == 1_000_000,
    {
        milliseconds_to_timer_period(RESPONSE_TIMEOUT)
    }

    /// What `recv` does with the outcome of one look at the response ring: a
    /// response ends the wait with its result, `NotReady` asks for a stall and
    /// another look, and any other failure ends the wait with that failure.
    pub fn recv(&self, polled: Result<ResponseEntry, HdaError>) -> (r: RecvStep)
        ensures
            r == match polled {
                Ok(entry) => RecvStep::Done(entry.result),
                Err(HdaError::NotReady) => RecvStep::Stall,
                Err(e) => RecvStep::Failed(e),
            },
    {
        match polled {
            Ok(entry) => RecvStep::Done(entry.result),
            Err(HdaError::NotReady) => RecvStep::Stall,
            Err(e) => RecvStep::Failed(e),
        }
    }

    /// What `recv` does after a stall: it gives up with `Timeout` once the
    /// response timer has fired, and looks again until then.
    pub fn after_stall(&self, timer_fired: bool) -> (r: Result<(), HdaError>)
        ensures
            timer_fired ==> r == Err::<(), HdaError>(HdaError::Timeout),
            !timer_fired ==> r == Ok::<(), HdaError>(()),
    {
        if timer_fired {
            Err(HdaError::Timeout)
        } else {
            Ok(())
        }
    }
}

/// A write pointer that starts at `pointer`, below the capacity, stands
/// `steps` slots further round the ring after `steps` sends that succeeded.
pub proof fn lemma_ring_advance(pointer: int, steps: nat, capacity: int)
    requires
        0 < capacity,
        0 <= pointer,
    ensures
        ring_advance(pointer, steps, capacity) == if steps == 0 {
            pointer
        } else {
            (pointer + steps) % capacity
        },
    decreases steps,
{
    if steps > 1 {
        lemma_ring_advance(pointer, (steps - 1) as nat, capacity);
        vstd::arithmetic::div_mod::lemma_add_mod_noop(pointer + steps - 1, 1, capacity);
        vstd::arithmetic::div_mod::lemma_mod_bound(pointer + steps - 1, capacity);
        vstd::arithmetic::div_mod::lemma_mod_twice(pointer + steps - 1, capacity);
        if 1 < capacity {
            vstd::arithmetic::div_mod::lemma_small_mod(1, capacity as nat);
        } else {
            assert(((pointer + steps - 1) % capacity + 1) % 1 == 0);
            assert((pointer + steps) % 1 == 0);
        }
    } else if steps == 1 {
        assert(ring_advance(pointer, 0, capacity) == pointer);
    }
}

/// A send that succeeds fills one more slot and still leaves one slot free:
/// the ring never holds more than its capacity less one.
pub proof fn lemma_send_keeps_one_slot_free(corbwp: int, corbrp: int, capacity: int)
    requires
        0 < capacity,
        0 <= corbwp < capacity,
        0 <= corbrp < capacity,
        ring_next(corbwp, capacity) != corbrp,
    ensures
        ring_distance(corbrp, ring_next(corbwp, capacity), capacity) == ring_distance(
            corbrp,
            corbwp,
            capacity,
        ) + 1,
        ring_distance(corbrp, ring_next(corbwp, capacity), capacity) <= capacity - 1,
{
    let next = ring_next(corbwp, capacity);
    if corbwp + 1 < capacity {
        vstd::arithmetic::div_mod::lemma_small_mod((corbwp + 1) as nat, capacity as nat);
        assert(next == corbwp + 1);
    } else {
        vstd::arithmetic::div_mod::lemma_mod_self_0(capacity);
        assert(next == 0);
    }
    lemma_distance(corbrp, corbwp, capacity);
    lemma_distance(corbrp, next, capacity);
}

/// A poll that takes a response moves the read cursor one slot toward the
/// hardware's write pointer and never past it.
pub proof fn lemma_poll_moves_forward(read_pos: int, rirbwp: int, capacity: int)
    requires
        0 < capacity,
        0 <= read_pos < capacity,
        0 <= rirbwp < capacity,
        rirbwp != read_pos,
    ensures
        ring_distance(ring_next(read_pos, capacity), rirbwp, capacity) == ring_distance(
            read_pos,
            rirbwp,
            capacity,
        ) - 1,
        0 <= ring_distance(ring_next(read_pos, capacity), rirbwp, capacity),
{
    let next = ring_next(read_pos, capacity);
    if read_pos + 1 < capacity {
        vstd::arithmetic::div_mod::lemma_small_mod((read_pos + 1) as nat, capacity as nat);
        assert(next == read_pos + 1);
    } else {
        vstd::arithmetic::div_mod::lemma_mod_self_0(capacity);
        assert(next == 0);
    }
    lemma_distance(read_pos, rirbwp, capacity);
    lemma_distance(next, rirbwp, capacity);
}

/// The distance between two slots of a ring, without the remainder.
proof fn lemma_distance(from: int, to: int, capacity: int)
    requires
        0 < capacity,
        0 <= from < capacity,
        0 <= to < capacity,
    ensures
        ring_distance(from, to, capacity) == if from <= to {
            to - from
        } else {
            to - from + capacity
        },
{
    if from <= to {
        vstd::arithmetic::div_mod::lemma_small_mod((to - from) as nat, capacity as nat);
    } else {
        vstd::arithmetic::div_mod::lemma_mod_add_multiples_vanish(to - from, capacity);
        vstd::arithmetic::div_mod::lemma_small_mod((to - from + capacity) as nat, capacity as nat);
    }
}

} // verus!
