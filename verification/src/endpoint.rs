//! What the audio output offers: the checks on a request and all that a
//! playback needs before the first register is touched.

use vstd::prelude::*;
use crate::bus::{out_stream_1, spec_stream_setup, stream_setup, DeviceContext};
use crate::error::HdaError;
use crate::format::{
    audio_rates, nearest_rate, stereo_format, stream_select_rate, SimpleAudioMode,
    AUDIO_FORMAT_S16LE, AUDIO_RATE_22050, AUDIO_RATE_44100,
};
use crate::registers::{RegOp, StreamRegisterSet};
use crate::stream::{
    cyclic_period, filled, init_bdl, stream_timers, BufferDescriptorListWithBuffers, Loop,
    LoopTimers, BDL_ALIGN_MASK, BDL_BYTES, BUFFER_COUNT, BUFFER_SIZE, CYCLIC_SAMPLES,
    TIMER_UNITS_PER_MILLISECOND,
};
use crate::tone::{spec_wave_len, spec_wave_sample, wave};

verus! {

/// Number of modes that the output offers.
pub const MAX_MODE: usize = 1;

/// Number of channels of every stream that the output plays.
pub const CHANNEL_COUNT: u8 = 2;

/// The mode with index `index`. The output offers one mode: 16-bit stereo
/// at 22050 samples a second.
pub fn hda_query_mode(index: usize) -> (r: Result<SimpleAudioMode, HdaError>)
    ensures
        index > 0 ==> r == Err::<SimpleAudioMode, HdaError>(HdaError::InvalidParameter),
        index == 0 ==> r == Ok::<SimpleAudioMode, HdaError>(
            SimpleAudioMode {
                sampling_rate: AUDIO_RATE_22050,
                channel_count: CHANNEL_COUNT,
                sample_format: AUDIO_FORMAT_S16LE,
            },
        ),
{
    if index > 0 {
        return Err(HdaError::InvalidParameter);
    }
    Ok(
        SimpleAudioMode {
            sampling_rate: AUDIO_RATE_22050,
            channel_count: CHANNEL_COUNT,
            sample_format: AUDIO_FORMAT_S16LE,
        },
    )
}

/// Number of bytes in one sample, to which the address of samples is aligned.
pub const SAMPLE_ALIGN: usize = 2;

/// Whether a request to play `sample_count` samples that lie at address
/// `samples` is well formed: two channels of signed 16-bit samples at a rate
/// that is not zero, an address that is not null and is aligned to a
/// sample, and a number of samples that is not zero, lies below the largest
/// size of an object, and whose length in milliseconds can be counted.
pub open spec fn write_valid(
    sampling_rate: u32,
    channel_count: u8,
    format: u32,
    samples: usize,
    sample_count: usize,
) -> bool {
    &&& channel_count == CHANNEL_COUNT
    &&& format == AUDIO_FORMAT_S16LE
    &&& sampling_rate != 0
    &&& samples != 0
    &&& samples % SAMPLE_ALIGN == 0
    &&& 0 < sample_count < isize::MAX
    &&& 1000 * sample_count <= u64::MAX
}

/// Number of milliseconds that `sample_count` samples last.
pub open spec fn write_duration(sampling_rate: u32, channel_count: u8, sample_count: usize) -> int {
    1000 * sample_count / (channel_count as int) / (sampling_rate as int)
}

/// Checks a request to play the `sample_count` samples at address
/// `samples` and gives the time, in milliseconds, that the playback lasts.
pub fn hda_write(
    sampling_rate: u32,
    channel_count: u8,
    format: u32,
    samples: usize,
    sample_count: usize,
) -> (r: Result<u64, HdaError>)
    ensures
        !write_valid(sampling_rate, channel_count, format, samples, sample_count) ==> r == Err::<
            u64,
            HdaError,
        >(HdaError::InvalidParameter),
        write_valid(sampling_rate, channel_count, format, samples, sample_count) ==> (
        r matches Ok(duration) && duration == write_duration(
            sampling_rate,
            channel_count,
            sample_count,
        )),
{
    if channel_count != CHANNEL_COUNT {
        return Err(HdaError::InvalidParameter);
    }
    if format != AUDIO_FORMAT_S16LE {
        return Err(HdaError::InvalidParameter);
    }
    if samples == 0 || sample_count == 0 || sample_count >= isize::MAX as usize {
        return Err(HdaError::InvalidParameter);
    }
    if samples % SAMPLE_ALIGN != 0 {
        return Err(HdaError::InvalidParameter);
    }
    if sampling_rate == 0 || sample_count as u64 > u64::MAX / 1000 {
        return Err(HdaError::InvalidParameter);
    }
    let duration_ms = 1000 * sample_count as u64 / channel_count as u64 / sampling_rate as u64;
    Ok(duration_ms)
}

/// The samples of a tone of frequency `freq`: whole periods of a square
/// wave in stereo at 44100 samples a second, as many as fit one buffer. A
/// frequency of which not one period fits, or that lies above the rate, is
/// refused.
pub fn hda_tone(freq: u16) -> (r: Result<Vec<i16>, HdaError>)
    ensures
        spec_wave_len(BUFFER_SIZE as int, CHANNEL_COUNT, AUDIO_RATE_44100, freq) == 0 ==> r
            matches Err(HdaError::InvalidParameter),
        spec_wave_len(BUFFER_SIZE as int, CHANNEL_COUNT, AUDIO_RATE_44100, freq) != 0 ==> (
        r matches Ok(samples) && samples.len() == spec_wave_len(
            BUFFER_SIZE as int,
            CHANNEL_COUNT,
            AUDIO_RATE_44100,
            freq,
        ) && forall|i: int|
            0 <= i < samples.len() ==> samples[i] == spec_wave_sample(
                i,
                CHANNEL_COUNT,
                AUDIO_RATE_44100,
                freq,
            )),
{
    let mut tone_samples: Vec<i16> = Vec::new();
    let mut i: usize = 0;
    while i < BUFFER_SIZE
        invariant
            i <= BUFFER_SIZE,
            tone_samples.len() == i,
        decreases BUFFER_SIZE - i,
    {
        tone_samples.push(0);
        i += 1;
    }
    let sample_count = wave(tone_samples.as_mut_slice(), CHANNEL_COUNT, AUDIO_RATE_44100, freq);
    if sample_count == 0 {
        return Err(HdaError::InvalidParameter);
    }
    tone_samples.truncate(sample_count);
    Ok(tone_samples)
}

/// All that a playback needs before the first register is touched.
pub struct Playback {
    /// Value of the stream format register.
    pub format: u16,
    /// The rate that the device plays at.
    pub closest_rate: u32,
    /// The register block of the stream.
    pub stream: StreamRegisterSet,
    /// The descriptor list and its buffers, filled once round.
    pub bdl: BufferDescriptorListWithBuffers,
    /// Where the source and the cyclic buffer stand after the first round.
    pub control: Loop,
    /// The register program that configures the stream.
    pub setup: Vec<RegOp>,
    /// The periods of the deadline and refill timers.
    pub timers: LoopTimers,
}

/// Whether a playback of `samples` can be prepared for a descriptor list
/// that the device sees at `device_address`.
pub open spec fn playback_valid(
    device_address: u64,
    sample_count: int,
    sampling_rate: u32,
) -> bool {
    &&& device_address + BDL_BYTES <= u64::MAX
    &&& device_address & BDL_ALIGN_MASK == 0
    &&& sampling_rate != 0
    &&& sample_count > 0
}

/// Prepares the playback of `samples`, played round and round for
/// `duration` milliseconds, on the first output stream of `device`: the
/// format for the nearest rate, a descriptor list that points at its
/// buffers at `device_address` with every buffer filled from the start of
/// the source, the register program that configures the stream, and the
/// timer periods. More or fewer than two channels are not supported;
/// samples that are none, a rate of zero and a list address that is
/// misaligned or too high are invalid.
pub fn stream_play_loop(
    device: &DeviceContext,
    device_address: u64,
    duration: u64,
    samples: &[i16],
    sampling_rate: u32,
    channel_count: u8,
) -> (r: Result<Playback, HdaError>)
    requires
        device.wf(),
    ensures
        channel_count != CHANNEL_COUNT ==> r matches Err(HdaError::Unsupported),
        channel_count == CHANNEL_COUNT && !playback_valid(
            device_address,
            samples@.len() as int,
            sampling_rate,
        ) ==> r matches Err(HdaError::InvalidParameter),
        channel_count == CHANNEL_COUNT && playback_valid(
            device_address,
            samples@.len() as int,
            sampling_rate,
        ) ==> (r matches Ok(playback) && {
            &&& exists|index: int|
                nearest_rate(index, sampling_rate) && playback.closest_rate
                    == #[trigger] audio_rates()[index] && playback.format == stereo_format(index)
            &&& playback.stream == StreamRegisterSet::spec_new(device.in_streams)
            &&& playback.stream.wf()
            &&& playback.bdl.wf()
            &&& playback.bdl.mapped_at(device_address)
            &&& playback.bdl.contents() == filled(
                Seq::new(BUFFER_COUNT as nat, |i: int| Seq::new(BUFFER_SIZE as nat, |j: int| 0i16)),
                samples@,
                0,
                BUFFER_COUNT as nat,
            )
            &&& playback.control.wf(samples@.len())
            &&& playback.control.fills() == BUFFER_COUNT
            &&& playback.setup@ == spec_stream_setup(
                playback.stream,
                device_address,
                BUFFER_COUNT as u32,
                CYCLIC_SAMPLES as u32,
                playback.format,
            )
            &&& playback.timers.tick == cyclic_period(channel_count, sampling_rate)
                * TIMER_UNITS_PER_MILLISECOND
            &&& playback.timers.deadline == if duration * TIMER_UNITS_PER_MILLISECOND
                <= u64::MAX {
                duration * TIMER_UNITS_PER_MILLISECOND
            } else {
                u64::MAX as int
            }
        }),
{
    let (format, closest_rate) = match stream_select_rate(sampling_rate, channel_count) {
        Ok(chosen) => chosen,
        Err(e) => {
            return Err(e);
        },
    };
    if samples.len() == 0 {
        return Err(HdaError::InvalidParameter);
    }
    let mut bdl = BufferDescriptorListWithBuffers::new();
    let ghost silent = bdl.contents();
    assert(silent =~= Seq::new(
        BUFFER_COUNT as nat,
        |i: int| Seq::new(BUFFER_SIZE as nat, |j: int| 0i16),
    ));
    match init_bdl(device_address, &mut bdl) {
        Ok(_) => {},
        Err(e) => {
            return Err(e);
        },
    }
    assert(bdl.contents() =~= silent);
    let stream = out_stream_1(device);
    let setup = match stream_setup(
        &stream,
        device_address,
        BUFFER_COUNT as u32,
        CYCLIC_SAMPLES as u32,
        format,
    ) {
        Ok(ops) => ops,
        Err(e) => {
            return Err(e);
        },
    };
    let timers = match stream_timers(channel_count, sampling_rate, duration) {
        Ok(timers) => timers,
        Err(e) => {
            return Err(e);
        },
    };
    let mut control = Loop::new();
    let _ = control.transfer(&mut bdl, samples, CYCLIC_SAMPLES);
    Ok(Playback { format, closest_rate, stream, bdl, control, setup, timers })
}

/// The outcome of a playback from how it went and how the clean-up after
/// it went: a failure of the playback is handed on whatever the clean-up
/// did, so that a failure to clean up never hides what went wrong first; a
/// playback that went well is only as good as its clean-up.
pub fn playback_outcome(played: Result<(), HdaError>, cleaned: Result<(), HdaError>) -> (r: Result<
    (),
    HdaError,
>)
    ensures
        played is Err ==> r == played,
        played is Ok ==> r == cleaned,
{
    match played {
        Err(error) => Err(error),
        Ok(_) => cleaned,
    }
}

} // verus!
