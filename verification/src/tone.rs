//! Square wave tones.

use vstd::prelude::*;

verus! {

/// The sample of a square wave with a period of `period` frames at frame
/// `phase`: the highest value in the first half of each period, the lowest
/// in the second.
pub open spec fn spec_square(phase: int, period: int) -> i16 {
    if (phase % period) * 2 < period {
        i16::MAX
    } else {
        i16::MIN
    }
}

/// One sample of a square wave.
pub fn square(phase: usize, period: usize) -> (r: i16)
    requires
        period > 0,
    ensures
        r == spec_square(phase as int, period as int),
{
    let within = phase % period;
    if within < period - within {
        i16::MAX
    } else {
        i16::MIN
    }
}

/// Number of samples in one period of a tone: the samples of all channels
/// in the frames that one period lasts.
pub open spec fn samples_per_period(channels: u8, sampling_rate: u32, freq: u16) -> int {
    channels * sampling_rate / (freq as int)
}

/// Whether a tone of this frequency can be made at this rate.
pub open spec fn tone_possible(channels: u8, sampling_rate: u32, freq: u16) -> bool {
    freq != 0 && channels != 0 && sampling_rate >= freq
}

/// Number of samples that `wave` writes into a buffer of `len` samples: as
/// many whole periods as fit.
pub open spec fn spec_wave_len(len: int, channels: u8, sampling_rate: u32, freq: u16) -> int {
    if tone_possible(channels, sampling_rate, freq) {
        (len / samples_per_period(channels, sampling_rate, freq)) * samples_per_period(
            channels,
            sampling_rate,
            freq,
        )
    } else {
        0
    }
}

/// The sample at `index` of a tone: every channel of a frame carries the
/// square wave's sample for the frame's place within its period.
pub open spec fn spec_wave_sample(index: int, channels: u8, sampling_rate: u32, freq: u16) -> i16 {
    let period = samples_per_period(channels, sampling_rate, freq);
    spec_square((index % period) / (channels as int), period / (channels as int))
}

/// Fills the start of `buffer` with whole periods of a square wave of
/// frequency `freq`, for a stream of `channels` channels at `sampling_rate`
/// frames a second, and gives the number of samples written. Nothing is
/// written where the frequency or the channel count is zero or the
/// frequency lies above the rate. What lies beyond the samples written
/// stays as it was.
pub fn wave(buffer: &mut [i16], channels: u8, sampling_rate: u32, freq: u16) -> (count: usize)
    ensures
        count == spec_wave_len(old(buffer).len() as int, channels, sampling_rate, freq),
        count <= old(buffer).len(),
        final(buffer).len() == old(buffer).len(),
        forall|i: int|
            0 <= i < count ==> final(buffer)[i] == spec_wave_sample(
                i,
                channels,
                sampling_rate,
                freq,
            ),
        forall|i: int| count <= i < old(buffer).len() ==> final(buffer)[i] == old(buffer)[i],
{
    if freq == 0 || channels == 0 || sampling_rate < freq as u32 {
        return 0;
    }
    assert(channels as int * sampling_rate as int <= 0xff * 0xffff_ffff) by (nonlinear_arith)
        requires
            channels <= 0xff,
            sampling_rate <= 0xffff_ffff,
    ;
    let per_period: u64 = channels as u64 * sampling_rate as u64 / freq as u64;
    assert(per_period == samples_per_period(channels, sampling_rate, freq));
    assert(per_period >= channels) by (nonlinear_arith)
        requires
            per_period == (channels as int * sampling_rate as int) / (freq as int),
            sampling_rate >= freq,
            freq > 0,
            channels > 0,
    ;
    let len = buffer.len();
    if per_period > len as u64 {
        proof {
            vstd::arithmetic::div_mod::lemma_basic_div(len as int, per_period as int);
        }
        return 0;
    }
    let period_samples = per_period as usize;
    let periods = len / period_samples;
    let frames_per_period = period_samples / channels as usize;
    assert(frames_per_period > 0) by (nonlinear_arith)
        requires
            frames_per_period == period_samples as int / channels as int,
            period_samples >= channels,
            channels > 0,
    ;
    proof {
        vstd::arithmetic::div_mod::lemma_fundamental_div_mod(len as int, period_samples as int);
        vstd::arithmetic::mul::lemma_mul_is_commutative(
            period_samples as int,
            periods as int,
        );
        assert(periods * period_samples <= len) by (nonlinear_arith)
            requires
                len == periods * period_samples + len % period_samples,
                len % period_samples >= 0,
        ;
    }
    let total = periods * period_samples;
    let mut count: usize = 0;
    let mut index: usize = 0;
    while count < total
        invariant
            count <= total <= len,
            buffer.len() == len,
            len == old(buffer).len(),
            period_samples > 0,
            channels > 0,
            frames_per_period == period_samples / channels as usize,
            frames_per_period > 0,
            period_samples == samples_per_period(channels, sampling_rate, freq),
            index < period_samples,
            index == count % period_samples,
            forall|i: int|
                0 <= i < count ==> buffer[i] == spec_wave_sample(i, channels, sampling_rate, freq),
            forall|i: int| count <= i < len ==> buffer[i] == old(buffer)[i],
        decreases total - count,
    {
        let frame_index = index / channels as usize;
        buffer[count] = square(frame_index, frames_per_period);
        proof {
            crate::stream::lemma_step_mod(count as int, period_samples as int);
        }
        index = if index + 1 == period_samples {
            0
        } else {
            index + 1
        };
        count += 1;
    }
    count
}

} // verus!
