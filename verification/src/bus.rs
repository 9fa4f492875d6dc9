//! The bus controller: the register programs that stop, reset and start the
//! controller and its streams, and what the driver keeps for each codec.

use vstd::prelude::*;
use crate::command::Codec;
use crate::error::HdaError;
use crate::hda::{field16, GlobalCapabilities};
use crate::registers::{
    IoBase, RegOp, StreamRegisterSet, PCI_GCTL, PCI_GCTL_RST_BIT, PCI_INTCTL, PCI_INTCTL_CIE_BIT,
    PCI_INTCTL_GIE_BIT, PCI_INTCTL_SIE_MASK, PCI_INTSTS, PCI_INTSTS_CIS_BIT, PCI_INTSTS_SIS_MASK,
    PCI_RIRBSTS, PCI_RIRBSTS_INT_MASK, PCI_SDCTL16_INT_MASK, PCI_SDCTL16_RSVDP_MASK,
    PCI_SDCTL16_RUN_BIT, PCI_SDCTL16_SRST_BIT, PCI_SDCTL8_STREAM_1_MASK, PCI_SDCTL8_STRIPE_MASK,
    PCI_SDFMT_RSVDP_MASK, PCI_SDLVI_RSVDP_MASK, PCI_SDSTS_INT_MASK, PCI_SDSTS_READY_BIT,
    PCI_STATESTS, PCI_STATESTS_INT_MASK,
};
use crate::ring::{address_high, address_low, split_address};
use crate::stream::BDL_ALIGN_MASK;

verus! {

/// Microseconds to wait for the link to enter or leave reset.
pub const LINK_WAIT: u64 = 1000;

/// Microseconds to wait for a stream to change state.
pub const STREAM_WAIT: u64 = 1000;

/// Largest number of descriptors that a descriptor list can have.
pub const DESCRIPTOR_LIMIT: u32 = 256;

/// Largest number of codecs on a link.
pub const CODEC_LIMIT: u32 = 16;

/// Number of input streams that the capabilities name.
pub open spec fn spec_in_streams(gcap: GlobalCapabilities) -> int {
    field16(gcap@, 8, 0xf) as int
}

/// Number of output streams that the capabilities name.
pub open spec fn spec_out_streams(gcap: GlobalCapabilities) -> int {
    field16(gcap@, 12, 0xf) as int
}

/// The register block of input stream `index`.
pub fn in_stream(gcap: &GlobalCapabilities, index: usize) -> (r: StreamRegisterSet)
    requires
        index < spec_in_streams(*gcap),
    ensures
        r == StreamRegisterSet::spec_new(index as u32),
        r.wf(),
{
    let _ = gcap.in_streams();
    StreamRegisterSet::new(index as u32)
}

/// The register block of output stream `index`: the output streams follow
/// the input streams.
pub fn out_stream(gcap: &GlobalCapabilities, index: usize) -> (r: StreamRegisterSet)
    requires
        index < spec_out_streams(*gcap),
    ensures
        r == StreamRegisterSet::spec_new((spec_in_streams(*gcap) + index) as u32),
        r.wf(),
{
    let inputs = gcap.in_streams();
    let _ = gcap.out_streams();
    StreamRegisterSet::new(inputs as u32 + index as u32)
}

/// What the driver keeps for one codec: its address and the controller's
/// stream counts.
#[derive(Clone, Copy, Debug, PartialEq, Eq, Structural)]
pub struct DeviceContext {
    pub codec: Codec,
    pub in_streams: u32,
    pub out_streams: u32,
}

impl DeviceContext {
    /// Whether the codec address and stream counts are such as a controller can have.
    pub open spec fn wf(&self) -> bool {
        &&& self.codec.0 < CODEC_LIMIT
        &&& self.in_streams <= 15
        &&& 1 <= self.out_streams <= 15
    }
}

/// The context of a codec on a controller with these capabilities. A
/// controller without output streams cannot play, and a codec address beyond
/// 15 names no codec.
pub fn init_context(gcap: &GlobalCapabilities, codec: Codec) -> (r: Result<DeviceContext, HdaError>)
    ensures
        codec.0 >= CODEC_LIMIT ==> r == Err::<DeviceContext, HdaError>(HdaError::InvalidParameter),
        codec.0 < CODEC_LIMIT && spec_out_streams(*gcap) == 0 ==> r == Err::<
            DeviceContext,
            HdaError,
        >(HdaError::Unsupported),
        codec.0 < CODEC_LIMIT && spec_out_streams(*gcap) != 0 ==> (r matches Ok(device)
            && device.wf() && device == (DeviceContext {
            codec,
            in_streams: spec_in_streams(*gcap) as u32,
            out_streams: spec_out_streams(*gcap) as u32,
        })),
{
    if codec.0 >= CODEC_LIMIT {
        return Err(HdaError::InvalidParameter);
    }
    if gcap.out_streams() == 0 {
        return Err(HdaError::Unsupported);
    }
    Ok(
        DeviceContext {
            codec,
            in_streams: gcap.in_streams() as u32,
            out_streams: gcap.out_streams() as u32,
        },
    )
}

/// The register block of the first output stream, which playback uses.
pub fn out_stream_1(device: &DeviceContext) -> (r: StreamRegisterSet)
    requires
        device.wf(),
    ensures
        r == StreamRegisterSet::spec_new(device.in_streams),
        r.wf(),
{
    StreamRegisterSet::new(device.in_streams)
}

/// Takes the interrupt enables of the first `streams` streams away.
pub open spec fn spec_disable_stream_interrupts(streams: int) -> Seq<RegOp> {
    Seq::new(
        streams as nat,
        |i: int|
            RegOp::And {
                reg: StreamRegisterSet::spec_new(i as u32).spec_ctl16(),
                mask: !PCI_SDCTL16_INT_MASK,
            },
    )
}

/// Clears the pending interrupt status of the first `streams` streams.
pub open spec fn spec_clear_stream_status(streams: int) -> Seq<RegOp> {
    Seq::new(
        streams as nat,
        |i: int|
            RegOp::Write {
                reg: StreamRegisterSet::spec_new(i as u32).spec_sts(),
                value: PCI_SDSTS_INT_MASK,
            },
    )
}

/// The register program that clears every pending interrupt status: that of
/// each stream, input streams first, then the codec state changes, the
/// response ring's, and the controller's.
pub open spec fn spec_bus_clear_interrupt(gcap: GlobalCapabilities) -> Seq<RegOp> {
    spec_clear_stream_status(spec_in_streams(gcap) + spec_out_streams(gcap)) + seq![
        RegOp::Write { reg: IoBase::spec_word(PCI_STATESTS), value: PCI_STATESTS_INT_MASK },
        RegOp::Write { reg: IoBase::spec_byte(PCI_RIRBSTS), value: PCI_RIRBSTS_INT_MASK },
        RegOp::Write {
            reg: IoBase::spec_dword(PCI_INTSTS),
            value: PCI_INTSTS_CIS_BIT | PCI_INTSTS_SIS_MASK,
        },
    ]
}

/// The register program that stops the controller: the interrupt enables of
/// every stream go, then the stream, controller and global interrupt
/// enables, and what is pending is cleared. Run on a controller that is
/// stopped it changes nothing.
pub open spec fn spec_bus_stop(gcap: GlobalCapabilities) -> Seq<RegOp> {
    spec_disable_stream_interrupts(spec_in_streams(gcap) + spec_out_streams(gcap)) + seq![
        RegOp::And {
            reg: IoBase::spec_dword(PCI_INTCTL),
            mask: !(PCI_INTCTL_SIE_MASK | PCI_INTCTL_CIE_BIT | PCI_INTCTL_GIE_BIT),
        },
    ] + spec_bus_clear_interrupt(gcap)
}

/// The register program that takes the link through reset: clear the codec
/// state changes, clear the reset bit and wait until it reads clear, set it
/// and wait until it reads set. Each wait is bounded.
pub open spec fn spec_bus_reset_link() -> Seq<RegOp> {
    seq![
        RegOp::Write { reg: IoBase::spec_word(PCI_STATESTS), value: PCI_STATESTS_INT_MASK },
        RegOp::And { reg: IoBase::spec_dword(PCI_GCTL), mask: !PCI_GCTL_RST_BIT },
        RegOp::Wait {
            reg: IoBase::spec_dword(PCI_GCTL),
            timeout: LINK_WAIT,
            mask: PCI_GCTL_RST_BIT,
            value: 0,
        },
        RegOp::Or { reg: IoBase::spec_dword(PCI_GCTL), mask: PCI_GCTL_RST_BIT },
        RegOp::Wait {
            reg: IoBase::spec_dword(PCI_GCTL),
            timeout: LINK_WAIT,
            mask: PCI_GCTL_RST_BIT,
            value: PCI_GCTL_RST_BIT,
        },
    ]
}

/// The register program that finishes the start of the controller once the
/// link is out of reset: clear what is pending, then enable the controller
/// and stream interrupts.
pub open spec fn spec_bus_start(gcap: GlobalCapabilities) -> Seq<RegOp> {
    spec_bus_clear_interrupt(gcap) + seq![
        RegOp::Or {
            reg: IoBase::spec_dword(PCI_INTCTL),
            mask: PCI_INTCTL_CIE_BIT | PCI_INTCTL_SIE_MASK,
        },
    ]
}

fn push_clear_interrupt(gcap: &GlobalCapabilities, ops: &mut Vec<RegOp>)
    ensures
        final(ops)@ == old(ops)@ + spec_bus_clear_interrupt(*gcap),
{
    let ghost before = ops@;
    let streams = (gcap.in_streams() + gcap.out_streams()) as u32;
    let mut i: u32 = 0;
    while i < streams
        invariant
            i <= streams,
            streams == spec_in_streams(*gcap) + spec_out_streams(*gcap),
            streams <= 30,
            ops@ == before + spec_clear_stream_status(i as int),
        decreases streams - i,
    {
        let stream = StreamRegisterSet::new(i);
        ops.push(stream.sts().write(PCI_SDSTS_INT_MASK));
        assert(ops@ =~= before + spec_clear_stream_status(i + 1));
        i += 1;
    }
    ops.push(IoBase::word(PCI_STATESTS).write(PCI_STATESTS_INT_MASK));
    ops.push(IoBase::byte(PCI_RIRBSTS).write(PCI_RIRBSTS_INT_MASK));
    ops.push(IoBase::dword(PCI_INTSTS).write(PCI_INTSTS_CIS_BIT | PCI_INTSTS_SIS_MASK));
    assert(ops@ =~= before + spec_bus_clear_interrupt(*gcap));
}

/// The register program that clears every pending interrupt status of a
/// controller with these capabilities.
pub fn bus_clear_interrupt(gcap: &GlobalCapabilities) -> (ops: Vec<RegOp>)
    ensures
        ops@ == spec_bus_clear_interrupt(*gcap),
{
    let mut ops: Vec<RegOp> = Vec::new();
    push_clear_interrupt(gcap, &mut ops);
    assert(ops@ =~= spec_bus_clear_interrupt(*gcap));
    ops
}

/// The register program that stops a controller with these capabilities.
pub fn bus_stop(gcap: &GlobalCapabilities) -> (ops: Vec<RegOp>)
    ensures
        ops@ == spec_bus_stop(*gcap),
{
    let mut ops: Vec<RegOp> = Vec::new();
    let streams = (gcap.in_streams() + gcap.out_streams()) as u32;
    let mut i: u32 = 0;
    while i < streams
        invariant
            i <= streams,
            streams == spec_in_streams(*gcap) + spec_out_streams(*gcap),
            streams <= 30,
            ops@ == spec_disable_stream_interrupts(i as int),
        decreases streams - i,
    {
        let stream = StreamRegisterSet::new(i);
        ops.push(stream.ctl16().and(!PCI_SDCTL16_INT_MASK));
        assert(ops@ =~= spec_disable_stream_interrupts(i + 1));
        i += 1;
    }
    ops.push(
        IoBase::dword(PCI_INTCTL).and(
            !(PCI_INTCTL_SIE_MASK | PCI_INTCTL_CIE_BIT | PCI_INTCTL_GIE_BIT),
        ),
    );
    push_clear_interrupt(gcap, &mut ops);
    assert(ops@ =~= spec_bus_stop(*gcap));
    ops
}

/// The register program that takes the link through reset. Once it has
/// run, the caller reads the global control register and hands it to
/// `bus_link_state`, with the codec state changes.
pub fn bus_reset_link() -> (ops: Vec<RegOp>)
    ensures
        ops@ == spec_bus_reset_link(),
{
    let mut ops: Vec<RegOp> = Vec::new();
    ops.push(IoBase::word(PCI_STATESTS).write(PCI_STATESTS_INT_MASK));
    ops.push(IoBase::dword(PCI_GCTL).and(!PCI_GCTL_RST_BIT));
    ops.push(IoBase::dword(PCI_GCTL).wait(LINK_WAIT, PCI_GCTL_RST_BIT, 0));
    ops.push(IoBase::dword(PCI_GCTL).or(PCI_GCTL_RST_BIT));
    ops.push(IoBase::dword(PCI_GCTL).wait(LINK_WAIT, PCI_GCTL_RST_BIT, PCI_GCTL_RST_BIT));
    assert(ops@ =~= spec_bus_reset_link());
    ops
}

/// The register program that resets a controller up to the point where the
/// link's state is read: stop it, then take the link through reset.
pub fn bus_reset(gcap: &GlobalCapabilities) -> (ops: Vec<RegOp>)
    ensures
        ops@ == spec_bus_stop(*gcap) + spec_bus_reset_link(),
{
    let mut ops = bus_stop(gcap);
    let ghost head = ops@;
    ops.push(IoBase::word(PCI_STATESTS).write(PCI_STATESTS_INT_MASK));
    ops.push(IoBase::dword(PCI_GCTL).and(!PCI_GCTL_RST_BIT));
    ops.push(IoBase::dword(PCI_GCTL).wait(LINK_WAIT, PCI_GCTL_RST_BIT, 0));
    ops.push(IoBase::dword(PCI_GCTL).or(PCI_GCTL_RST_BIT));
    ops.push(IoBase::dword(PCI_GCTL).wait(LINK_WAIT, PCI_GCTL_RST_BIT, PCI_GCTL_RST_BIT));
    assert(ops@ =~= head + spec_bus_reset_link());
    ops
}

/// Judges the link after its reset from the global control register, read
/// once more because the reset bit sticks: a register that reads zero says
/// that the link never left reset. A link that is up gives the codec mask,
/// one bit for each codec that announced itself, which is the value of the
/// state change register.
pub fn bus_link_state(gctl: u32, statests: u16) -> (r: Result<u16, HdaError>)
    ensures
        gctl == 0 ==> r == Err::<u16, HdaError>(HdaError::NotReady),
        gctl != 0 ==> r == Ok::<u16, HdaError>(statests),
{
    if gctl == 0 {
        return Err(HdaError::NotReady);
    }
    Ok(statests)
}

/// The register program that finishes the start of a controller with these
/// capabilities, once the link is up.
pub fn bus_start(gcap: &GlobalCapabilities) -> (ops: Vec<RegOp>)
    ensures
        ops@ == spec_bus_start(*gcap),
{
    let mut ops: Vec<RegOp> = Vec::new();
    push_clear_interrupt(gcap, &mut ops);
    ops.push(IoBase::dword(PCI_INTCTL).or(PCI_INTCTL_CIE_BIT | PCI_INTCTL_SIE_MASK));
    assert(ops@ =~= spec_bus_start(*gcap));
    ops
}

/// The codec addresses that a codec mask names, in rising order.
pub open spec fn spec_codec_addresses(codec_mask: u16, upto: int) -> Seq<u32>
    decreases upto,
{
    if upto <= 0 {
        Seq::empty()
    } else {
        let rest = spec_codec_addresses(codec_mask, upto - 1);
        if codec_mask & (1u16 << ((upto - 1) as u16)) != 0 {
            rest.push((upto - 1) as u32)
        } else {
            rest
        }
    }
}

/// The addresses of the codecs to probe: those whose bit is set in the
/// codec mask, lowest first.
pub fn bus_probe_codecs(codec_mask: u16) -> (codecs: Vec<u32>)
    ensures
        codecs@ == spec_codec_addresses(codec_mask, CODEC_LIMIT as int),
{
    let mut codecs: Vec<u32> = Vec::new();
    let mut n: u16 = 0;
    while n < 16
        invariant
            n <= 16,
            codecs@ == spec_codec_addresses(codec_mask, n as int),
        decreases 16 - n,
    {
        if (codec_mask & (1u16 << n)) != 0 {
            codecs.push(n as u32);
        }
        n += 1;
    }
    codecs
}

/// The codecs that are there: those of `candidates` whose probe, at the
/// same place in `answers`, was answered. One that was not answered is taken
/// to be absent.
pub open spec fn spec_detected_codecs(
    candidates: Seq<u32>,
    answers: Seq<Result<u32, HdaError>>,
    upto: int,
) -> Seq<u32>
    decreases upto,
{
    if upto <= 0 {
        Seq::empty()
    } else {
        let rest = spec_detected_codecs(candidates, answers, upto - 1);
        if upto <= answers.len() && answers[upto - 1] is Ok {
            rest.push(candidates[upto - 1])
        } else {
            rest
        }
    }
}

/// Tells which codecs are there from the outcomes of their probes: a codec
/// that answered the probe command is there, whatever it answered; one
/// whose probe failed, or was not made, is not, and the failure goes no
/// further.
pub fn bus_detected_codecs(candidates: &[u32], answers: &[Result<u32, HdaError>]) -> (codecs: Vec<
    u32,
>)
    ensures
        codecs@ == spec_detected_codecs(candidates@, answers@, candidates@.len() as int),
{
    let mut codecs: Vec<u32> = Vec::new();
    let mut i: usize = 0;
    while i < candidates.len()
        invariant
            i <= candidates.len(),
            codecs@ == spec_detected_codecs(candidates@, answers@, i as int),
        decreases candidates.len() - i,
    {
        if i < answers.len() {
            match answers[i] {
                Ok(_) => {
                    codecs.push(candidates[i]);
                },
                Err(_) => {},
            }
        }
        i += 1;
    }
    codecs
}

/// The register program that clears a stream: run and interrupt enable bits
/// off, pending status cleared, stripe control zero.
pub open spec fn spec_stream_clear(stream: StreamRegisterSet) -> Seq<RegOp> {
    seq![
        RegOp::And {
            reg: stream.spec_ctl16(),
            mask: !(PCI_SDCTL16_RUN_BIT | PCI_SDCTL16_INT_MASK),
        },
        RegOp::Write { reg: stream.spec_sts(), value: PCI_SDSTS_INT_MASK },
        RegOp::And { reg: stream.spec_ctl8(), mask: !PCI_SDCTL8_STRIPE_MASK },
    ]
}

/// The register program that leaves a stream in a known state: descriptor
/// list address zero, reserved control bits clear, upper control byte zero.
pub open spec fn spec_stream_cleanup(stream: StreamRegisterSet) -> Seq<RegOp> {
    seq![
        RegOp::Write { reg: stream.spec_bdpl(), value: 0 },
        RegOp::Write { reg: stream.spec_bdpu(), value: 0 },
        RegOp::And { reg: stream.spec_ctl16(), mask: !PCI_SDCTL16_RSVDP_MASK },
        RegOp::Write { reg: stream.spec_ctl8(), value: 0 },
    ]
}

/// The register program that resets a stream: clear it, set the reset bit
/// and wait until it reads set, clear it and wait until it reads clear.
pub open spec fn spec_stream_reset(stream: StreamRegisterSet) -> Seq<RegOp> {
    spec_stream_clear(stream) + seq![
        RegOp::Or { reg: stream.spec_ctl16(), mask: PCI_SDCTL16_SRST_BIT },
        RegOp::Wait {
            reg: stream.spec_ctl16(),
            timeout: STREAM_WAIT,
            mask: PCI_SDCTL16_SRST_BIT,
            value: PCI_SDCTL16_SRST_BIT,
        },
        RegOp::And { reg: stream.spec_ctl16(), mask: !PCI_SDCTL16_SRST_BIT },
        RegOp::Wait {
            reg: stream.spec_ctl16(),
            timeout: STREAM_WAIT,
            mask: PCI_SDCTL16_SRST_BIT,
            value: 0,
        },
    ]
}

/// The register program that starts a stream: enable its bit in the
/// interrupt control register, clear the stripe bits, set the run bit, and
/// wait until the FIFO is primed.
pub open spec fn spec_stream_start(stream: StreamRegisterSet) -> Seq<RegOp> {
    seq![
        RegOp::Or { reg: IoBase::spec_dword(PCI_INTCTL), mask: stream.spec_intctl_mask() },
        RegOp::And { reg: stream.spec_ctl8(), mask: !PCI_SDCTL8_STRIPE_MASK },
        RegOp::Or { reg: stream.spec_ctl16(), mask: PCI_SDCTL16_RUN_BIT | PCI_SDCTL16_INT_MASK },
        RegOp::Wait {
            reg: stream.spec_sts(),
            timeout: STREAM_WAIT,
            mask: PCI_SDSTS_READY_BIT,
            value: PCI_SDSTS_READY_BIT,
        },
    ]
}

/// The register program that stops a stream: clear it, take its bit out of
/// the interrupt control register, and wait until the run bit reads clear.
pub open spec fn spec_stream_stop(stream: StreamRegisterSet) -> Seq<RegOp> {
    spec_stream_clear(stream) + seq![
        RegOp::And { reg: IoBase::spec_dword(PCI_INTCTL), mask: !stream.spec_intctl_mask() },
        RegOp::Wait {
            reg: stream.spec_ctl16(),
            timeout: STREAM_WAIT,
            mask: PCI_SDCTL16_RUN_BIT,
            value: 0,
        },
    ]
}

/// The register program that configures a stream for a descriptor list at
/// `device_address` with `loop_buffers` buffers of `loop_samples` samples in
/// all: stream tag, cyclic buffer length in bytes, format, last valid
/// index, the list's address in two halves, and the interrupt enables.
pub open spec fn spec_stream_setup(
    stream: StreamRegisterSet,
    device_address: u64,
    loop_buffers: u32,
    loop_samples: u32,
    format: u16,
) -> Seq<RegOp> {
    seq![
        RegOp::Write { reg: stream.spec_ctl8(), value: PCI_SDCTL8_STREAM_1_MASK },
        RegOp::Write { reg: stream.spec_cbl(), value: (loop_samples * 2) as u32 },
        RegOp::Update { reg: stream.spec_fmt(), value: format as u32, mask: !PCI_SDFMT_RSVDP_MASK },
        RegOp::Update {
            reg: stream.spec_lvi(),
            value: (loop_buffers - 1) as u32,
            mask: !PCI_SDLVI_RSVDP_MASK,
        },
        RegOp::Write { reg: stream.spec_bdpl(), value: address_low(device_address) },
        RegOp::Write { reg: stream.spec_bdpu(), value: address_high(device_address) },
        RegOp::Or { reg: stream.spec_ctl16(), mask: PCI_SDCTL16_INT_MASK },
    ]
}

/// Whether a stream can be configured with these values: the list is
/// 128-byte aligned, has between one and 256 buffers, and the cyclic buffer's
/// length in bytes fits its register.
pub open spec fn stream_setup_valid(
    device_address: u64,
    loop_buffers: u32,
    loop_samples: u32,
) -> bool {
    &&& device_address & BDL_ALIGN_MASK == 0
    &&& 1 <= loop_buffers <= DESCRIPTOR_LIMIT
    &&& loop_samples * 2 <= u32::MAX
}

fn push_stream_clear(stream: &StreamRegisterSet, ops: &mut Vec<RegOp>)
    requires
        stream.wf(),
    ensures
        final(ops)@ == old(ops)@ + spec_stream_clear(*stream),
{
    let ghost before = ops@;
    ops.push(stream.ctl16().and(!(PCI_SDCTL16_RUN_BIT | PCI_SDCTL16_INT_MASK)));
    ops.push(stream.sts().write(PCI_SDSTS_INT_MASK));
    ops.push(stream.ctl8().and(!PCI_SDCTL8_STRIPE_MASK));
    assert(ops@ =~= before + spec_stream_clear(*stream));
}

/// The register program that clears a stream.
pub fn stream_clear(stream: &StreamRegisterSet) -> (ops: Vec<RegOp>)
    requires
        stream.wf(),
    ensures
        ops@ == spec_stream_clear(*stream),
{
    let mut ops: Vec<RegOp> = Vec::new();
    push_stream_clear(stream, &mut ops);
    assert(ops@ =~= spec_stream_clear(*stream));
    ops
}

/// The register program that leaves a stream in a known state, to run
/// before the descriptor list is unmapped.
pub fn stream_cleanup(stream: &StreamRegisterSet) -> (ops: Vec<RegOp>)
    requires
        stream.wf(),
    ensures
        ops@ == spec_stream_cleanup(*stream),
{
    let mut ops: Vec<RegOp> = Vec::new();
    ops.push(stream.bdpl().write(0));
    ops.push(stream.bdpu().write(0));
    ops.push(stream.ctl16().and(!PCI_SDCTL16_RSVDP_MASK));
    ops.push(stream.ctl8().write(0));
    assert(ops@ =~= spec_stream_cleanup(*stream));
    ops
}

/// The register program that resets a stream.
pub fn stream_reset(stream: &StreamRegisterSet) -> (ops: Vec<RegOp>)
    requires
        stream.wf(),
    ensures
        ops@ == spec_stream_reset(*stream),
{
    let mut ops: Vec<RegOp> = Vec::new();
    push_stream_clear(stream, &mut ops);
    ops.push(stream.ctl16().or(PCI_SDCTL16_SRST_BIT));
    ops.push(stream.ctl16().wait(STREAM_WAIT, PCI_SDCTL16_SRST_BIT, PCI_SDCTL16_SRST_BIT));
    ops.push(stream.ctl16().and(!PCI_SDCTL16_SRST_BIT));
    ops.push(stream.ctl16().wait(STREAM_WAIT, PCI_SDCTL16_SRST_BIT, 0));
    assert(ops@ =~= spec_stream_reset(*stream));
    ops
}

/// The register program that configures a stream, or `InvalidParameter`
/// for values that no stream can be configured with.
pub fn stream_setup(
    stream: &StreamRegisterSet,
    device_address: u64,
    loop_buffers: u32,
    loop_samples: u32,
    format: u16,
) -> (r: Result<Vec<RegOp>, HdaError>)
    requires
        stream.wf(),
    ensures
        !stream_setup_valid(device_address, loop_buffers, loop_samples) ==> r matches Err(
            HdaError::InvalidParameter,
        ),
        stream_setup_valid(device_address, loop_buffers, loop_samples) ==> (r matches Ok(ops)
            && ops@ == spec_stream_setup(
            *stream,
            device_address,
            loop_buffers,
            loop_samples,
            format,
        )),
{
    if (device_address & BDL_ALIGN_MASK) != 0 {
        return Err(HdaError::InvalidParameter);
    }
    if loop_buffers == 0 || loop_buffers > DESCRIPTOR_LIMIT {
        return Err(HdaError::InvalidParameter);
    }
    if loop_samples > u32::MAX / 2 {
        return Err(HdaError::InvalidParameter);
    }
    let (low, high) = split_address(device_address);
    let mut ops: Vec<RegOp> = Vec::new();
    ops.push(stream.ctl8().write(PCI_SDCTL8_STREAM_1_MASK));
    ops.push(stream.cbl().write(loop_samples * 2));
    ops.push(stream.fmt().update(format as u32, !PCI_SDFMT_RSVDP_MASK));
    ops.push(stream.lvi().update(loop_buffers - 1, !PCI_SDLVI_RSVDP_MASK));
    ops.push(stream.bdpl().write(low));
    ops.push(stream.bdpu().write(high));
    ops.push(stream.ctl16().or(PCI_SDCTL16_INT_MASK));
    assert(ops@ =~= spec_stream_setup(
        *stream,
        device_address,
        loop_buffers,
        loop_samples,
        format,
    ));
    Ok(ops)
}

/// The register program that starts a stream.
pub fn stream_start(stream: &StreamRegisterSet) -> (ops: Vec<RegOp>)
    requires
        stream.wf(),
    ensures
        ops@ == spec_stream_start(*stream),
{
    let mask = stream.intctl_mask();
    let mut ops: Vec<RegOp> = Vec::new();
    ops.push(IoBase::dword(PCI_INTCTL).or(mask));
    ops.push(stream.ctl8().and(!PCI_SDCTL8_STRIPE_MASK));
    ops.push(stream.ctl16().or(PCI_SDCTL16_RUN_BIT | PCI_SDCTL16_INT_MASK));
    ops.push(stream.sts().wait(STREAM_WAIT, PCI_SDSTS_READY_BIT, PCI_SDSTS_READY_BIT));
    assert(ops@ =~= spec_stream_start(*stream));
    ops
}

/// The register program that stops a stream.
pub fn stream_stop(stream: &StreamRegisterSet) -> (ops: Vec<RegOp>)
    requires
        stream.wf(),
    ensures
        ops@ == spec_stream_stop(*stream),
{
    let mask = stream.intctl_mask();
    let mut ops: Vec<RegOp> = Vec::new();
    push_stream_clear(stream, &mut ops);
    ops.push(IoBase::dword(PCI_INTCTL).and(!mask));
    ops.push(stream.ctl16().wait(STREAM_WAIT, PCI_SDCTL16_RUN_BIT, 0));
    assert(ops@ =~= spec_stream_stop(*stream));
    ops
}

/// The register program that ends a playback, whether it ran to its end or
/// failed on the way: stop the stream, clear it, and leave it in a known
/// state. Only after it may the descriptor list be unmapped.
pub fn stream_shutdown(stream: &StreamRegisterSet) -> (ops: Vec<RegOp>)
    requires
        stream.wf(),
    ensures
        ops@ == spec_stream_stop(*stream) + spec_stream_clear(*stream) + spec_stream_cleanup(
            *stream,
        ),
{
    let mask = stream.intctl_mask();
    let mut ops: Vec<RegOp> = Vec::new();
    push_stream_clear(stream, &mut ops);
    ops.push(IoBase::dword(PCI_INTCTL).and(!mask));
    ops.push(stream.ctl16().wait(STREAM_WAIT, PCI_SDCTL16_RUN_BIT, 0));
    push_stream_clear(stream, &mut ops);
    ops.push(stream.bdpl().write(0));
    ops.push(stream.bdpu().write(0));
    ops.push(stream.ctl16().and(!PCI_SDCTL16_RSVDP_MASK));
    ops.push(stream.ctl8().write(0));
    assert(ops@ =~= spec_stream_stop(*stream) + spec_stream_clear(*stream) + spec_stream_cleanup(
        *stream,
    ));
    ops
}

} // verus!
