//! The stream engine: the descriptor list and its buffers, the cyclic fill
//! from a source of samples, and the refill loop that follows the device's
//! play position.

use vstd::prelude::*;
use crate::error::HdaError;
use crate::window::{store_u16, store_u32, store_u64, stored};

verus! {

/// Number of samples in one buffer of the cyclic buffer.
pub const BUFFER_SIZE: usize = 2048;

/// Number of buffers, and of descriptors, in the cyclic buffer.
pub const BUFFER_COUNT: usize = 8;

/// Number of bytes in one sample.
pub const SAMPLE_BYTES: usize = 2;

/// Number of bytes that the descriptors take at the start of the list: 16 for each.
pub const DESCRIPTORS_BYTES: u64 = 128;

/// Number of bytes in one buffer.
pub const BUFFER_BYTES: u32 = 4096;

/// Number of bytes of the descriptor list together with its buffers.
pub const BDL_BYTES: u64 = 32896;

/// Bits of a descriptor list's device address that must be clear: the list
/// is 128-byte aligned.
pub const BDL_ALIGN_MASK: u64 = 0x7f;

/// How the sizes of the descriptor list and its buffers hang together.
pub proof fn lemma_layout()
    ensures
        BUFFER_BYTES == BUFFER_SIZE * SAMPLE_BYTES,
        DESCRIPTORS_BYTES == BUFFER_COUNT * DESCRIPTOR_BYTES,
        BDL_BYTES == DESCRIPTORS_BYTES + BUFFER_COUNT * BUFFER_BYTES,
        CYCLIC_SAMPLES == BUFFER_COUNT * BUFFER_SIZE,
        CYCLIC_BYTES == CYCLIC_SAMPLES * SAMPLE_BYTES,
        DESCRIPTORS_BYTES % 128 == 0,
        BUFFER_BYTES % 128 == 0,
{
}

/// One entry of the buffer descriptor list.
#[derive(Clone, Copy, Debug, PartialEq, Eq, Structural)]
pub struct Descriptor {
    /// Device address of the buffer.
    pub address: u64,
    /// Number of bytes of the buffer that hold samples; 0 for a buffer not filled yet.
    pub length: u32,
    /// Bit 0 asks for an interrupt when the buffer has been played.
    pub control: u32,
}

/// One buffer of the cyclic buffer.
#[derive(Debug)]
pub struct SampleBuffer {
    pub samples: Vec<i16>,
}

/// The buffer descriptor list and the buffers it describes, which lie in
/// one piece of memory that the device sees: the descriptors first, the
/// buffers after them.
#[derive(Debug)]
pub struct BufferDescriptorListWithBuffers {
    pub descriptors: Vec<Descriptor>,
    pub buffers: Vec<SampleBuffer>,
}

/// What one fill of a buffer moved on.
#[derive(Clone, Copy, Debug, PartialEq, Eq, Structural)]
pub struct CopyResult {
    pub loop_buffers: usize,
    pub loop_samples: usize,
}

/// Offset of buffer `index` from the start of the descriptor list.
pub open spec fn buffer_offset(index: int) -> int {
    DESCRIPTORS_BYTES + index * BUFFER_BYTES
}

/// The sample that lies `ahead` samples after position `start` of a source
/// that is played round and round.
pub open spec fn cyclic_sample(samples: Seq<i16>, start: int, ahead: int) -> i16 {
    samples[(start + ahead) % (samples.len() as int)]
}

/// The content of a buffer filled from position `start` of a cyclic source.
pub open spec fn cyclic_fill(samples: Seq<i16>, start: int) -> Seq<i16> {
    Seq::new(BUFFER_SIZE as nat, |j: int| cyclic_sample(samples, start, j))
}

impl SampleBuffer {
    /// Whether the buffer holds as many samples as a buffer has.
    pub open spec fn wf(&self) -> bool {
        self.samples.len() == BUFFER_SIZE
    }

    /// A buffer of silence.
    pub fn new() -> (r: SampleBuffer)
        ensures
            r.wf(),
            r.samples@ == Seq::new(BUFFER_SIZE as nat, |j: int| 0i16),
    {
        let mut samples: Vec<i16> = Vec::new();
        let mut i: usize = 0;
        while i < BUFFER_SIZE
            invariant
                i <= BUFFER_SIZE,
                samples@ == Seq::new(i as nat, |j: int| 0i16),
            decreases BUFFER_SIZE - i,
        {
            samples.push(0);
            i += 1;
        }
        SampleBuffer { samples }
    }
}

impl BufferDescriptorListWithBuffers {
    /// Whether the list has all its descriptors and buffers, and every
    /// descriptor's length is zero or that of a whole buffer.
    pub open spec fn wf(&self) -> bool {
        &&& self.descriptors.len() == BUFFER_COUNT
        &&& self.buffers.len() == BUFFER_COUNT
        &&& forall|i: int| 0 <= i < BUFFER_COUNT ==> (#[trigger] self.buffers[i]).wf()
        &&& forall|i: int|
            0 <= i < BUFFER_COUNT ==> (#[trigger] self.descriptors[i]).length == 0
                || self.descriptors[i].length == BUFFER_BYTES
    }

    /// Whether the descriptors point at the buffers of a list mapped at `device_address`.
    pub open spec fn mapped_at(&self, device_address: u64) -> bool {
        forall|i: int|
            0 <= i < BUFFER_COUNT ==> (#[trigger] self.descriptors[i]).address == device_address
                + buffer_offset(i)
    }

    /// A list of empty descriptors and silent buffers.
    pub fn new() -> (r: BufferDescriptorListWithBuffers)
        ensures
            r.wf(),
            forall|i: int|
                0 <= i < BUFFER_COUNT ==> #[trigger] r.descriptors[i] == (Descriptor {
                    address: 0,
                    length: 0,
                    control: 0,
                }),
            forall|i: int|
                0 <= i < BUFFER_COUNT ==> (#[trigger] r.buffers[i]).samples@ == Seq::new(
                    BUFFER_SIZE as nat,
                    |j: int| 0i16,
                ),
    {
        let mut descriptors: Vec<Descriptor> = Vec::new();
        let mut buffers: Vec<SampleBuffer> = Vec::new();
        let mut i: usize = 0;
        while i < BUFFER_COUNT
            invariant
                i <= BUFFER_COUNT,
                descriptors.len() == i,
                buffers.len() == i,
                forall|k: int|
                    0 <= k < i ==> #[trigger] descriptors[k] == (Descriptor {
                        address: 0,
                        length: 0,
                        control: 0,
                    }),
                forall|k: int|
                    0 <= k < i ==> (#[trigger] buffers[k]).wf() && buffers[k].samples@ == Seq::new(
                        BUFFER_SIZE as nat,
                        |j: int| 0i16,
                    ),
            decreases BUFFER_COUNT - i,
        {
            descriptors.push(Descriptor { address: 0, length: 0, control: 0 });
            buffers.push(SampleBuffer::new());
            i += 1;
        }
        BufferDescriptorListWithBuffers { descriptors, buffers }
    }
}

/// Points every descriptor at its buffer, for a list that the device sees at
/// `device_address`, and marks every buffer as not filled yet. Each buffer's
/// device address is the list's plus the buffer's offset within the list. A
/// list that would not fit below the end of the address space is refused and
/// left as it was.
pub fn init_bdl(device_address: u64, bdl: &mut BufferDescriptorListWithBuffers) -> (r: Result<
    (),
    HdaError,
>)
    requires
        old(bdl).wf(),
    ensures
        device_address + BDL_BYTES > u64::MAX ==> r == Err::<(), HdaError>(
            HdaError::InvalidParameter,
        ) && *final(bdl) == *old(bdl),
        device_address + BDL_BYTES <= u64::MAX ==> r == Ok::<(), HdaError>(()) && final(bdl).wf()
            && final(bdl).mapped_at(device_address) && final(bdl).buffers == old(bdl).buffers
            && forall|i: int|
            0 <= i < BUFFER_COUNT ==> (#[trigger] final(bdl).descriptors[i]).length == 0
                && final(bdl).descriptors[i].control == 0,
{
    if device_address > u64::MAX - BDL_BYTES {
        return Err(HdaError::InvalidParameter);
    }
    let mut i: usize = 0;
    while i < BUFFER_COUNT
        invariant
            i <= BUFFER_COUNT,
            device_address + BDL_BYTES <= u64::MAX,
            bdl.descriptors.len() == BUFFER_COUNT,
            bdl.buffers == old(bdl).buffers,
            old(bdl).wf(),
            forall|k: int|
                0 <= k < i ==> #[trigger] bdl.descriptors[k] == (Descriptor {
                    address: (device_address + buffer_offset(k)) as u64,
                    length: 0,
                    control: 0,
                }),
        decreases BUFFER_COUNT - i,
    {
        assert(i * BUFFER_BYTES <= 7 * 4096) by (nonlinear_arith)
            requires
                i <= 7,
                BUFFER_BYTES == 4096,
        ;
        let offset = DESCRIPTORS_BYTES + (i as u64) * (BUFFER_BYTES as u64);
        bdl.descriptors[i] = Descriptor { address: device_address + offset, length: 0, control: 0 };
        i += 1;
    }
    Ok(())
}

/// Fills `buffer` from position `samples_position` of the cyclic source and
/// gives the position that the next fill starts from.
fn fill_from(
    buffer: &mut SampleBuffer,
    descriptor: &mut Descriptor,
    samples_position: usize,
    samples: &[i16],
) -> (next: usize)
    requires
        old(buffer).wf(),
        samples.len() > 0,
        samples_position < samples.len(),
    ensures
        final(buffer).wf(),
        final(buffer).samples@ == cyclic_fill(samples@, samples_position as int),
        *final(descriptor) == (Descriptor {
            address: old(descriptor).address,
            length: BUFFER_BYTES,
            control: 0,
        }),
        next == (samples_position + BUFFER_SIZE) % (samples.len() as int),
{
    let mut position = samples_position;
    let mut bdl_pos: usize = 0;
    proof {
        vstd::arithmetic::div_mod::lemma_small_mod(samples_position as nat, samples.len() as nat);
    }
    while bdl_pos < BUFFER_SIZE
        invariant
            bdl_pos <= BUFFER_SIZE,
            buffer.samples.len() == BUFFER_SIZE,
            samples.len() > 0,
            position < samples.len(),
            position == (samples_position + bdl_pos) % (samples.len() as int),
            forall|j: int|
                0 <= j < bdl_pos ==> buffer.samples[j] == cyclic_sample(
                    samples@,
                    samples_position as int,
                    j,
                ),
        decreases BUFFER_SIZE - bdl_pos,
    {
        buffer.samples[bdl_pos] = samples[position];
        proof {
            lemma_step_mod((samples_position + bdl_pos) as int, samples.len() as int);
        }
        position = if position + 1 == samples.len() {
            0
        } else {
            position + 1
        };
        bdl_pos += 1;
    }
    descriptor.length = BUFFER_BYTES;
    descriptor.control = 0;
    assert(buffer.samples@ =~= cyclic_fill(samples@, samples_position as int));
    position
}

/// Fills `buffer` with the samples that follow position `samples_position`
/// of the source, which starts again from its beginning whenever its end is
/// reached, and marks the descriptor as holding a whole buffer.
pub fn fill_bde(
    buffer: &mut SampleBuffer,
    descriptor: &mut Descriptor,
    samples_position: usize,
    samples: &[i16],
) -> (r: CopyResult)
    requires
        old(buffer).wf(),
        samples.len() > 0,
        samples_position < samples.len(),
    ensures
        final(buffer).wf(),
        final(buffer).samples@ == cyclic_fill(samples@, samples_position as int),
        *final(descriptor) == (Descriptor {
            address: old(descriptor).address,
            length: BUFFER_BYTES,
            control: 0,
        }),
        r == (CopyResult { loop_buffers: 1, loop_samples: BUFFER_SIZE }),
{
    let _ = fill_from(buffer, descriptor, samples_position, samples);
    CopyResult { loop_buffers: 1, loop_samples: BUFFER_SIZE }
}

/// One step forward on a ring: the remainder goes up by one, or back to zero.
pub(crate) proof fn lemma_step_mod(x: int, n: int)
    requires
        0 <= x,
        0 < n,
    ensures
        (x + 1) % n == if x % n + 1 == n {
            0
        } else {
            x % n + 1
        },
{
    vstd::arithmetic::div_mod::lemma_fundamental_div_mod(x, n);
    vstd::arithmetic::div_mod::lemma_mod_bound(x, n);
    let q = x / n;
    let r = x % n;
    vstd::arithmetic::mul::lemma_mul_is_commutative(n, q);
    if r + 1 == n {
        assert(x + 1 == (q + 1) * n + 0) by (nonlinear_arith)
            requires
                x == q * n + r,
                r + 1 == n,
        ;
        vstd::arithmetic::div_mod::lemma_fundamental_div_mod_converse(x + 1, n, q + 1, 0);
    } else {
        vstd::arithmetic::div_mod::lemma_fundamental_div_mod_converse(x + 1, n, q, r + 1);
    }
}

impl BufferDescriptorListWithBuffers {
    /// What the buffers hold, buffer by buffer.
    pub open spec fn contents(&self) -> Seq<Seq<i16>> {
        Seq::new(self.buffers.len() as nat, |i: int| self.buffers[i].samples@)
    }
}

/// What the buffers hold after the fills numbered `first` to `first + fills - 1`:
/// the fill with number `f` puts the samples from `f * BUFFER_SIZE` on, of the
/// cyclic source, into buffer `f % BUFFER_COUNT`.
pub open spec fn filled(contents: Seq<Seq<i16>>, samples: Seq<i16>, first: nat, fills: nat) -> Seq<
    Seq<i16>,
>
    decreases fills,
{
    if fills == 0 {
        contents
    } else {
        let last = first + fills - 1;
        filled(contents, samples, first, (fills - 1) as nat).update(
            last % (BUFFER_COUNT as int),
            cyclic_fill(samples, last * BUFFER_SIZE),
        )
    }
}

/// Whether one of the fills numbered `first` to `first + fills - 1` goes into buffer `index`.
pub open spec fn hit(first: nat, fills: nat, index: int) -> bool {
    exists|f: int| first <= f < first + fills && #[trigger] (f % (BUFFER_COUNT as int)) == index
}

/// Where a cyclic source and the cyclic buffer stand: the buffer to fill
/// next and the source position to fill it from.
pub struct Loop {
    bdl_position: usize,
    samples_position: usize,
    fills: Ghost<nat>,
}

impl Loop {
    /// Index of the buffer that the next fill goes into.
    pub closed spec fn bdl_position(&self) -> usize {
        self.bdl_position
    }

    /// Position in the source that the next fill starts from.
    pub closed spec fn samples_position(&self) -> usize {
        self.samples_position
    }

    /// Number of buffers filled so far.
    pub closed spec fn fills(&self) -> nat {
        self.fills@
    }

    /// Number of samples handed to the device so far.
    pub open spec fn transferred(&self) -> nat {
        self.fills() * (BUFFER_SIZE as nat)
    }

    /// Whether the positions are those reached after `fills()` fills from a
    /// source of `length` samples: the source position is the number of
    /// samples transferred, modulo the length of the source, and the buffer
    /// is the number of fills, modulo the number of buffers.
    pub open spec fn wf(&self, length: nat) -> bool {
        &&& length > 0
        &&& self.bdl_position() == self.fills() % (BUFFER_COUNT as nat)
        &&& self.samples_position() == self.transferred() % length
    }

    /// The state before the first fill.
    pub fn new() -> (r: Loop)
        ensures
            r.fills() == 0,
            r.bdl_position() == 0,
            r.samples_position() == 0,
            forall|length: nat| length > 0 ==> r.wf(length),
    {
        let r = Loop { bdl_position: 0, samples_position: 0, fills: Ghost(0) };
        assert forall|length: nat| length > 0 implies r.wf(length) by {
            assert(r.transferred() == 0);
        }
        r
    }

    /// Index of the buffer that the next fill goes into.
    pub fn buffer(&self) -> (r: usize)
        ensures
            r == self.bdl_position(),
    {
        self.bdl_position
    }

    /// Position in the source that the next fill starts from.
    pub fn position(&self) -> (r: usize)
        ensures
            r == self.samples_position(),
    {
        self.samples_position
    }

    /// Hands the device the next `count` samples of the cyclic source, as
    /// far as they make up whole buffers: `count / BUFFER_SIZE` buffers are
    /// filled, one after the other round the cyclic buffer, and the result
    /// is the number of samples in them.
    pub fn transfer(
        &mut self,
        bdl: &mut BufferDescriptorListWithBuffers,
        samples: &[i16],
        count: usize,
    ) -> (total: usize)
        requires
            old(self).wf(samples@.len()),
            old(bdl).wf(),
        ensures
            final(self).wf(samples@.len()),
            final(self).fills() == old(self).fills() + count / BUFFER_SIZE,
            total == (count / BUFFER_SIZE) * BUFFER_SIZE,
            total == count - count % BUFFER_SIZE,
            total % BUFFER_SIZE == 0,
            final(bdl).wf(),
            forall|device_address: u64|
                old(bdl).mapped_at(device_address) ==> final(bdl).mapped_at(device_address),
            final(bdl).contents() == filled(
                old(bdl).contents(),
                samples@,
                old(self).fills(),
                (count / BUFFER_SIZE) as nat,
            ),
            forall|i: int|
                0 <= i < BUFFER_COUNT ==> #[trigger] final(bdl).descriptors[i] == if hit(
                    old(self).fills(),
                    (count / BUFFER_SIZE) as nat,
                    i,
                ) {
                    Descriptor {
                        address: old(bdl).descriptors[i].address,
                        length: BUFFER_BYTES,
                        control: 0,
                    }
                } else {
                    old(bdl).descriptors[i]
                },
    {
        let fills = count / BUFFER_SIZE;
        let ghost first = self.fills@;
        let ghost length = samples@.len();
        let ghost before = bdl.contents();
        proof {
            vstd::arithmetic::div_mod::lemma_fundamental_div_mod(
                count as int,
                BUFFER_SIZE as int,
            );
            assert(bdl.contents() =~= filled(before, samples@, first, 0));
            vstd::arithmetic::div_mod::lemma_mod_multiples_basic(fills as int, BUFFER_SIZE as int);
        }
        let mut k: usize = 0;
        while k < fills
            invariant
                k <= fills,
                fills == count / BUFFER_SIZE,
                length == samples@.len(),
                self.wf(length),
                first == old(self).fills(),
                self.fills() == first + k,
                bdl.wf(),
                old(bdl).wf(),
                bdl.contents() == filled(before, samples@, first, k as nat),
                forall|i: int|
                    0 <= i < BUFFER_COUNT ==> #[trigger] bdl.descriptors[i] == if hit(
                        first,
                        k as nat,
                        i,
                    ) {
                        Descriptor {
                            address: old(bdl).descriptors[i].address,
                            length: BUFFER_BYTES,
                            control: 0,
                        }
                    } else {
                        old(bdl).descriptors[i]
                    },
            decreases fills - k,
        {
            let position = self.bdl_position;
            let ghost number = self.fills@;
            let ghost contents = bdl.contents();
            proof {
                vstd::arithmetic::div_mod::lemma_mod_bound(number as int, BUFFER_COUNT as int);
                vstd::arithmetic::div_mod::lemma_mod_bound(
                    (number * BUFFER_SIZE) as int,
                    length as int,
                );
            }
            let next = fill_from(
                &mut bdl.buffers[position],
                &mut bdl.descriptors[position],
                self.samples_position,
                samples,
            );
            self.samples_position = next;
            self.bdl_position = if position + 1 == BUFFER_COUNT {
                0
            } else {
                position + 1
            };
            proof {
                self.fills@ = number + 1;
                lemma_step_mod(number as int, BUFFER_COUNT as int);
                assert((number + 1) * BUFFER_SIZE == number * BUFFER_SIZE + BUFFER_SIZE)
                    by (nonlinear_arith);
                vstd::arithmetic::div_mod::lemma_add_mod_noop(
                    (number * BUFFER_SIZE) as int,
                    BUFFER_SIZE as int,
                    length as int,
                );
                vstd::arithmetic::div_mod::lemma_add_mod_noop_right(
                    (number * BUFFER_SIZE) % (length as int),
                    BUFFER_SIZE as int,
                    length as int,
                );
                lemma_cyclic_fill_mod(samples@, (number * BUFFER_SIZE) as int);
                assert(bdl.contents() =~= contents.update(
                    position as int,
                    cyclic_fill(samples@, (number * BUFFER_SIZE) as int),
                ));
                assert forall|i: int| 0 <= i < BUFFER_COUNT implies (hit(first, (k + 1) as nat, i)
                    <==> hit(first, k as nat, i) || i == position) by {
                    if hit(first, (k + 1) as nat, i) {
                        let f = choose|f: int|
                            first <= f < first + k + 1 && #[trigger] (f % (BUFFER_COUNT as int))
                                == i;
                        if f < first + k {
                            assert(hit(first, k as nat, i));
                        }
                    }
                    if hit(first, k as nat, i) {
                        let f = choose|f: int|
                            first <= f < first + k && #[trigger] (f % (BUFFER_COUNT as int)) == i;
                        assert(first <= f < first + k + 1);
                    }
                    if i == position {
                        assert((number as int) % (BUFFER_COUNT as int) == i);
                    }
                }
            }
            k += 1;
        }
        proof {
            assert(fills * BUFFER_SIZE <= count) by (nonlinear_arith)
                requires
                    count == BUFFER_SIZE * fills + count % BUFFER_SIZE,
                    count % BUFFER_SIZE >= 0,
            ;
            assert(fills * BUFFER_SIZE == BUFFER_SIZE * fills) by (nonlinear_arith);
        }
        fills * BUFFER_SIZE
    }
}

/// A fill reads the source round and round: where it starts counts only
/// modulo the length of the source.
pub proof fn lemma_cyclic_fill_mod(samples: Seq<i16>, start: int)
    requires
        samples.len() > 0,
        0 <= start,
    ensures
        cyclic_fill(samples, start % (samples.len() as int)) == cyclic_fill(samples, start),
{
    let n = samples.len() as int;
    assert forall|j: int| 0 <= j < BUFFER_SIZE implies cyclic_sample(samples, start % n, j)
        == cyclic_sample(samples, start, j) by {
        vstd::arithmetic::div_mod::lemma_add_mod_noop_right(j, start, n);
        assert((start % n + j) % n == (j + start % n) % n);
        assert((start + j) % n == (j + start) % n);
    }
    assert(cyclic_fill(samples, start % n) =~= cyclic_fill(samples, start));
}

/// The samples handed to the device always make up whole buffers, and the
/// source position is their number modulo the length of the source: the
/// source wraps round exactly.
pub proof fn lemma_transferred(control: Loop, length: nat)
    requires
        control.wf(length),
    ensures
        control.transferred() % (BUFFER_SIZE as nat) == 0,
        control.samples_position() == control.transferred() % length,
        control.bdl_position() == (control.transferred() / (BUFFER_SIZE as nat)) % (
        BUFFER_COUNT as nat),
{
    vstd::arithmetic::div_mod::lemma_mod_multiples_basic(
        control.fills() as int,
        BUFFER_SIZE as int,
    );
    vstd::arithmetic::div_mod::lemma_div_by_multiple(control.fills() as int, BUFFER_SIZE as int);
}

/// Two fills less than a whole round apart go into different buffers.
proof fn lemma_distinct_buffers(f: int, g: int)
    requires
        0 <= f < g < f + BUFFER_COUNT,
    ensures
        f % (BUFFER_COUNT as int) != g % (BUFFER_COUNT as int),
{
    let n = BUFFER_COUNT as int;
    vstd::arithmetic::div_mod::lemma_fundamental_div_mod(f, n);
    vstd::arithmetic::div_mod::lemma_fundamental_div_mod(g, n);
    if f % n == g % n {
        let rounds = g / n - f / n;
        assert(g - f == n * rounds) by (nonlinear_arith)
            requires
                f == n * (f / n) + f % n,
                g == n * (g / n) + g % n,
                f % n == g % n,
                rounds == g / n - f / n,
        ;
        assert(rounds <= 0 ==> n * rounds <= 0) by (nonlinear_arith)
            requires
                n > 0,
        ;
        assert(rounds >= 1 ==> n * rounds >= n) by (nonlinear_arith)
            requires
                n > 0,
        ;
    }
}

/// After a run of fills each buffer holds what the last fill that went into
/// it put there: a fill not more than a whole round before the end of the
/// run is still in place, and a buffer that no fill of the run went into is
/// as it was.
pub proof fn lemma_filled(
    contents: Seq<Seq<i16>>,
    samples: Seq<i16>,
    first: nat,
    fills: nat,
)
    requires
        contents.len() == BUFFER_COUNT,
    ensures
        filled(contents, samples, first, fills).len() == BUFFER_COUNT,
        forall|f: int|
            first <= f < first + fills && first + fills <= f + BUFFER_COUNT ==> filled(
                contents,
                samples,
                first,
                fills,
            )[#[trigger] (f % (BUFFER_COUNT as int))] == cyclic_fill(samples, f * BUFFER_SIZE),
        forall|i: int|
            0 <= i < BUFFER_COUNT && !hit(first, fills, i) ==> #[trigger] filled(
                contents,
                samples,
                first,
                fills,
            )[i] == contents[i],
    decreases fills,
{
    if fills > 0 {
        let n = BUFFER_COUNT as int;
        let last = first + fills - 1;
        let before = filled(contents, samples, first, (fills - 1) as nat);
        let after = filled(contents, samples, first, fills);
        lemma_filled(contents, samples, first, (fills - 1) as nat);
        vstd::arithmetic::div_mod::lemma_mod_bound(last, n);
        assert forall|f: int|
            first <= f < first + fills && first + fills <= f + BUFFER_COUNT
                implies after[#[trigger] (f % n)] == cyclic_fill(samples, f * BUFFER_SIZE) by {
            vstd::arithmetic::div_mod::lemma_mod_bound(f, n);
            if f < last {
                lemma_distinct_buffers(f, last);
            }
        }
        assert forall|i: int|
            0 <= i < BUFFER_COUNT && !hit(first, fills, i) implies #[trigger] after[i]
            == contents[i] by {
            assert(last % n != i);
            if hit(first, (fills - 1) as nat, i) {
                let f = choose|f: int| first <= f < first + fills - 1 && #[trigger] (f % n) == i;
                assert(first <= f < first + fills);
            }
        }
    }
}

/// Number of samples in the cyclic buffer.
pub const CYCLIC_SAMPLES: usize = 16384;

/// Number of bytes in the cyclic buffer.
pub const CYCLIC_BYTES: u32 = 32768;

/// How far the device has played and how much room has built up behind it,
/// as the refill loop keeps it between two ticks.
#[derive(Clone, Copy, Debug, PartialEq, Eq, Structural)]
pub struct Refill {
    start_lpib: u32,
    queue_room: usize,
}

impl Refill {
    /// Link position, in bytes, at which room was last counted.
    pub closed spec fn start_lpib(&self) -> u32 {
        self.start_lpib
    }

    /// Room, in samples, that was left over when buffers were last filled.
    pub closed spec fn queue_room(&self) -> usize {
        self.queue_room
    }

    /// Whether the position lies within the cyclic buffer and the room left
    /// over is less than a buffer.
    pub open spec fn wf(&self) -> bool {
        &&& self.start_lpib() < CYCLIC_BYTES
        &&& self.queue_room() < BUFFER_SIZE
    }

    /// The room, in samples, once the link position reads `actual_lpib`:
    /// the room left over plus what the device has played since, which is
    /// counted round the end of the cyclic buffer where the position has
    /// fallen below the one last seen.
    pub open spec fn spec_room(&self, actual_lpib: u32) -> int {
        if self.start_lpib() <= actual_lpib {
            self.queue_room() + actual_lpib / 2 - self.start_lpib() / 2
        } else {
            self.queue_room() + CYCLIC_SAMPLES + actual_lpib / 2 - self.start_lpib() / 2
        }
    }

    /// Starts to count room from the link position `start_lpib`, read once
    /// the stream runs. A position beyond the cyclic buffer cannot be.
    pub fn new(start_lpib: u32) -> (r: Result<Refill, HdaError>)
        ensures
            start_lpib >= CYCLIC_BYTES ==> r == Err::<Refill, HdaError>(HdaError::DeviceError),
            start_lpib < CYCLIC_BYTES ==> (r matches Ok(refill) && refill.wf()
                && refill.start_lpib() == start_lpib && refill.queue_room() == 0),
    {
        if start_lpib >= CYCLIC_BYTES {
            return Err(HdaError::DeviceError);
        }
        Ok(Refill { start_lpib, queue_room: 0 })
    }

    /// Room, in samples, for a link position within the cyclic buffer.
    pub fn room(&self, actual_lpib: u32) -> (r: usize)
        requires
            self.wf(),
            actual_lpib < CYCLIC_BYTES,
        ensures
            r == self.spec_room(actual_lpib),
            r < BUFFER_SIZE + CYCLIC_SAMPLES,
    {
        let played = (actual_lpib / 2) as usize;
        let seen = (self.start_lpib / 2) as usize;
        if self.start_lpib <= actual_lpib {
            self.queue_room + played - seen
        } else {
            self.queue_room + CYCLIC_SAMPLES + played - seen
        }
    }

    /// One tick of the refill loop, with the link position just read. Once
    /// at least a whole buffer of room has built up, as many whole buffers as
    /// the room holds are filled from the cyclic source, the rest of the
    /// room is kept for the next tick, and room is counted from the new
    /// position; with less room nothing changes. The result is the number
    /// of samples handed over.
    pub fn tick(
        &mut self,
        actual_lpib: u32,
        control: &mut Loop,
        bdl: &mut BufferDescriptorListWithBuffers,
        samples: &[i16],
    ) -> (r: Result<usize, HdaError>)
        requires
            old(self).wf(),
            old(control).wf(samples@.len()),
            old(bdl).wf(),
        ensures
            final(self).wf(),
            final(control).wf(samples@.len()),
            final(bdl).wf(),
            forall|device_address: u64|
                old(bdl).mapped_at(device_address) ==> final(bdl).mapped_at(device_address),
            actual_lpib >= CYCLIC_BYTES ==> r == Err::<usize, HdaError>(HdaError::DeviceError),
            actual_lpib >= CYCLIC_BYTES || old(self).spec_room(actual_lpib) < BUFFER_SIZE
                ==> *final(self) == *old(self) && final(control).fills() == old(control).fills()
                && *final(bdl) == *old(bdl),
            actual_lpib < CYCLIC_BYTES && old(self).spec_room(actual_lpib) < BUFFER_SIZE ==> r
                == Ok::<usize, HdaError>(0),
            actual_lpib < CYCLIC_BYTES && old(self).spec_room(actual_lpib) >= BUFFER_SIZE ==> {
                let room = old(self).spec_room(actual_lpib);
                &&& r == Ok::<usize, HdaError>((room - room % (BUFFER_SIZE as int)) as usize)
                &&& final(self).start_lpib() == actual_lpib
                &&& final(self).queue_room() == room % (BUFFER_SIZE as int)
                &&& final(control).fills() == old(control).fills() + room / (BUFFER_SIZE as int)
                &&& final(bdl).contents() == filled(
                    old(bdl).contents(),
                    samples@,
                    old(control).fills(),
                    (room / (BUFFER_SIZE as int)) as nat,
                )
            },
    {
        if actual_lpib >= CYCLIC_BYTES {
            return Err(HdaError::DeviceError);
        }
        let room = self.room(actual_lpib);
        if room >= BUFFER_SIZE {
            let copied = control.transfer(bdl, samples, room - room % BUFFER_SIZE);
            proof {
                let b = BUFFER_SIZE as int;
                let whole = room as int;
                vstd::arithmetic::div_mod::lemma_fundamental_div_mod(whole, b);
                vstd::arithmetic::div_mod::lemma_mod_bound(whole, b);
                vstd::arithmetic::mul::lemma_mul_is_commutative(b, whole / b);
                vstd::arithmetic::div_mod::lemma_fundamental_div_mod_converse(
                    whole - whole % b,
                    b,
                    whole / b,
                    0,
                );
            }
            self.queue_room = room - copied;
            self.start_lpib = actual_lpib;
            Ok(copied)
        } else {
            Ok(0)
        }
    }
}

/// What the stream loop does once it has waited on its two timers.
#[derive(Clone, Copy, Debug, PartialEq, Eq, Structural)]
pub enum LoopStep {
    /// The playback deadline has passed: stop the stream.
    Stop,
    /// The refill tick has come: read the link position and refill.
    Refill,
    /// Neither timer has fired: wait on.
    Wait,
}

/// Decides the next step from the timers that have fired. The playback
/// deadline is looked at first, so that playback ends, and nothing more is
/// filled, where both have fired.
pub fn loop_step(deadline_fired: bool, tick_fired: bool) -> (r: LoopStep)
    ensures
        deadline_fired ==> r == LoopStep::Stop,
        !deadline_fired && tick_fired ==> r == LoopStep::Refill,
        !deadline_fired && !tick_fired ==> r == LoopStep::Wait,
{
    if deadline_fired {
        LoopStep::Stop
    } else if tick_fired {
        LoopStep::Refill
    } else {
        LoopStep::Wait
    }
}

/// Number of timer units, of 100 ns each, in one millisecond.
pub const TIMER_UNITS_PER_MILLISECOND: u64 = 10000;

/// Number of microseconds in one millisecond.
pub const MICROSECONDS_PER_MILLISECOND: usize = 1000;

/// A time in milliseconds as a timer period, in units of 100 ns; a time too
/// long to count comes out as the longest period there is.
pub fn milliseconds_to_timer_period(msec: u64) -> (r: u64)
    ensures
        msec * TIMER_UNITS_PER_MILLISECOND <= u64::MAX ==> r == msec
            * TIMER_UNITS_PER_MILLISECOND,
        msec * TIMER_UNITS_PER_MILLISECOND > u64::MAX ==> r == u64::MAX,
{
    if msec > u64::MAX / TIMER_UNITS_PER_MILLISECOND {
        u64::MAX
    } else {
        msec * TIMER_UNITS_PER_MILLISECOND
    }
}

/// A time in milliseconds as a stall, in microseconds; a time too long to
/// count comes out as the longest stall there is.
pub fn milliseconds_to_stall(msec: usize) -> (r: usize)
    ensures
        msec * MICROSECONDS_PER_MILLISECOND <= usize::MAX ==> r == msec
            * MICROSECONDS_PER_MILLISECOND,
        msec * MICROSECONDS_PER_MILLISECOND > usize::MAX ==> r == usize::MAX,
{
    if msec > usize::MAX / MICROSECONDS_PER_MILLISECOND {
        usize::MAX
    } else {
        msec * MICROSECONDS_PER_MILLISECOND
    }
}

/// The periods of the two timers of a stream loop.
#[derive(Clone, Copy, Debug, PartialEq, Eq, Structural)]
pub struct LoopTimers {
    /// Period of the one-shot timer that ends playback.
    pub deadline: u64,
    /// Period of the periodic timer that asks for a refill.
    pub tick: u64,
}

/// Number of milliseconds that the cyclic buffer lasts at the given rate.
pub open spec fn cyclic_period(channel_count: u8, sampling_rate: u32) -> int {
    CYCLIC_SAMPLES * 1000 / (channel_count as int) / (sampling_rate as int)
}

/// The timer periods for a playback of `duration` milliseconds: the
/// deadline after the duration, and a tick every time the device has
/// played the cyclic buffer once through. A stream without channels or
/// without a rate is refused.
pub fn stream_timers(channel_count: u8, sampling_rate: u32, duration: u64) -> (r: Result<
    LoopTimers,
    HdaError,
>)
    ensures
        channel_count == 0 || sampling_rate == 0 ==> r == Err::<LoopTimers, HdaError>(
            HdaError::InvalidParameter,
        ),
        channel_count != 0 && sampling_rate != 0 ==> (r matches Ok(timers) && timers.tick
            == cyclic_period(channel_count, sampling_rate) * TIMER_UNITS_PER_MILLISECOND
            && timers.deadline == if duration * TIMER_UNITS_PER_MILLISECOND <= u64::MAX {
            duration * TIMER_UNITS_PER_MILLISECOND
        } else {
            u64::MAX as int
        }),
{
    if channel_count == 0 || sampling_rate == 0 {
        return Err(HdaError::InvalidParameter);
    }
    let period = (CYCLIC_SAMPLES as u64) * 1000 / (channel_count as u64) / (sampling_rate as u64);
    assert(period <= 16384000) by (nonlinear_arith)
        requires
            period == (16384000u64 / (channel_count as u64)) / (sampling_rate as u64),
            channel_count >= 1,
            sampling_rate >= 1,
    ;
    Ok(
        LoopTimers {
            deadline: milliseconds_to_timer_period(duration),
            tick: milliseconds_to_timer_period(period),
        },
    )
}

/// Number of bytes that one descriptor takes.
pub const DESCRIPTOR_BYTES: usize = 16;

/// The memory after a descriptor was written at `offset`: the buffer's
/// address in eight bytes, its length in four and the control word in four,
/// each low byte first.
pub open spec fn stored_descriptor(
    window: Seq<u8>,
    offset: int,
    descriptor: Descriptor,
) -> Seq<u8> {
    stored(
        stored(
            stored(window, offset, vstd::bytes::spec_u64_to_le_bytes(descriptor.address)),
            offset + 8,
            vstd::bytes::spec_u32_to_le_bytes(descriptor.length),
        ),
        offset + 12,
        vstd::bytes::spec_u32_to_le_bytes(descriptor.control),
    )
}

/// The memory after the first `count` of `samples` were written from
/// `offset` on, two bytes a sample, low byte first.
pub open spec fn stored_samples(window: Seq<u8>, offset: int, samples: Seq<i16>, count: int) -> Seq<
    u8,
>
    decreases count,
{
    if count <= 0 {
        window
    } else {
        stored(
            stored_samples(window, offset, samples, count - 1),
            offset + 2 * (count - 1),
            vstd::bytes::spec_u16_to_le_bytes(samples[count - 1] as u16),
        )
    }
}

/// Writing samples leaves the length of the memory as it was.
proof fn lemma_stored_samples_len(window: Seq<u8>, offset: int, samples: Seq<i16>, count: int)
    ensures
        stored_samples(window, offset, samples, count).len() == window.len(),
    decreases count,
{
    if count > 0 {
        lemma_stored_samples_len(window, offset, samples, count - 1);
    }
}

impl BufferDescriptorListWithBuffers {
    /// Writes descriptor `index` to its place in the memory that the device
    /// sees. An index beyond the list, or memory too short to hold the
    /// descriptors, is refused, and the memory stays as it was.
    pub fn store_descriptor(&self, window: &mut [u8], index: usize) -> (r: Result<(), HdaError>)
        requires
            self.wf(),
        ensures
            index >= BUFFER_COUNT || old(window)@.len() < DESCRIPTORS_BYTES ==> r == Err::<
                (),
                HdaError,
            >(HdaError::InvalidParameter) && final(window)@ == old(window)@,
            index < BUFFER_COUNT && old(window)@.len() >= DESCRIPTORS_BYTES ==> r == Ok::<
                (),
                HdaError,
            >(()) && final(window)@ == stored_descriptor(
                old(window)@,
                DESCRIPTOR_BYTES * index,
                self.descriptors[index as int],
            ),
    {
        let len = window.len();
        if index >= BUFFER_COUNT || (len as u64) < DESCRIPTORS_BYTES {
            return Err(HdaError::InvalidParameter);
        }
        let offset = DESCRIPTOR_BYTES * index;
        let descriptor = self.descriptors[index];
        store_u64(window, offset, descriptor.address);
        store_u32(window, offset + 8, descriptor.length);
        store_u32(window, offset + 12, descriptor.control);
        Ok(())
    }

    /// Writes the samples of buffer `index` to the buffer's place in the
    /// memory that the device sees. An index beyond the list, or memory too
    /// short to hold the buffer, is refused, and the memory stays as it was.
    pub fn store_buffer(&self, window: &mut [u8], index: usize) -> (r: Result<(), HdaError>)
        requires
            self.wf(),
        ensures
            index >= BUFFER_COUNT || old(window)@.len() < buffer_offset(index as int)
                + BUFFER_BYTES ==> r == Err::<(), HdaError>(HdaError::InvalidParameter)
                && final(window)@ == old(window)@,
            index < BUFFER_COUNT && old(window)@.len() >= buffer_offset(index as int)
                + BUFFER_BYTES ==> r == Ok::<(), HdaError>(()) && final(window)@ == stored_samples(
                old(window)@,
                buffer_offset(index as int),
                self.buffers[index as int].samples@,
                BUFFER_SIZE as int,
            ),
    {
        let len = window.len();
        if index >= BUFFER_COUNT {
            return Err(HdaError::InvalidParameter);
        }
        assert(index * BUFFER_BYTES <= 7 * 4096) by (nonlinear_arith)
            requires
                index <= 7,
                BUFFER_BYTES == 4096,
        ;
        let offset = DESCRIPTORS_BYTES as usize + index * (BUFFER_BYTES as usize);
        if len < offset + BUFFER_BYTES as usize {
            return Err(HdaError::InvalidParameter);
        }
        let buffer = &self.buffers[index];
        let mut k: usize = 0;
        while k < BUFFER_SIZE
            invariant
                k <= BUFFER_SIZE,
                buffer.wf(),
                offset == buffer_offset(index as int),
                window@.len() == old(window)@.len(),
                len == window@.len(),
                offset + BUFFER_BYTES <= len,
                window@ == stored_samples(old(window)@, offset as int, buffer.samples@, k as int),
            decreases BUFFER_SIZE - k,
        {
            store_u16(window, offset + 2 * k, #[verifier::truncate] (buffer.samples[k] as u16));
            k += 1;
        }
        Ok(())
    }
}

} // verus!
