//! Sample rates and the stream format register.

use vstd::prelude::*;
use crate::error::HdaError;

verus! {

// Capabilities of an audio output.
pub const AUDIO_CAP_RESET: u32 = 0x1;
pub const AUDIO_CAP_WRITE: u32 = 0x2;
pub const AUDIO_CAP_TONE: u32 = 0x4;
pub const AUDIO_CAP_MODE: u32 = 0x8;

// Sampling rates, in samples per second and channel.
pub const AUDIO_RATE_8000: u32 = 8000;
pub const AUDIO_RATE_11025: u32 = 11025;
pub const AUDIO_RATE_16000: u32 = 16000;
pub const AUDIO_RATE_22050: u32 = 22050;
pub const AUDIO_RATE_32000: u32 = 32000;
pub const AUDIO_RATE_44100: u32 = 44100;
pub const AUDIO_RATE_48000: u32 = 48000;

/// Signed 16-bit little-endian samples.
pub const AUDIO_FORMAT_S16LE: u32 = 0x0;

/// Number of sampling rates that the driver knows.
pub const AUDIO_RATES: usize = 7;

// Fields of the stream format register.
pub const PCM_FMT_44K_BIT: u16 = 0x4000;
pub const PCM_FMT_DIV_1_MASK: u16 = 0x0000;
pub const PCM_FMT_DIV_2_MASK: u16 = 0x0100;
pub const PCM_FMT_DIV_3_MASK: u16 = 0x0200;
pub const PCM_FMT_DIV_4_MASK: u16 = 0x0300;
pub const PCM_FMT_DIV_5_MASK: u16 = 0x0400;
pub const PCM_FMT_DIV_6_MASK: u16 = 0x0500;
pub const PCM_FMT_DIV_7_MASK: u16 = 0x0600;
pub const PCM_FMT_DIV_8_MASK: u16 = 0x0700;
pub const PCM_FMT_MUL_1_MASK: u16 = 0x0000;
pub const PCM_FMT_MUL_2_MASK: u16 = 0x0800;
pub const PCM_FMT_MUL_3_MASK: u16 = 0x1000;
pub const PCM_FMT_MUL_4_MASK: u16 = 0x1800;
pub const PCM_FMT_PACK_8_MASK: u16 = 0x0000;
pub const PCM_FMT_PACK_16_MASK: u16 = 0x0010;
pub const PCM_FMT_PACK_20_MASK: u16 = 0x0020;
pub const PCM_FMT_PACK_24_MASK: u16 = 0x0030;
pub const PCM_FMT_PACK_32_MASK: u16 = 0x0040;
pub const PCM_FMT_CHAN_MASK: u16 = 0x000f;
pub const PCM_FMT_CHAN_1_MASK: u16 = 0x0000;
pub const PCM_FMT_CHAN_2_MASK: u16 = 0x0001;

// The rate fields of the stream format register, rate by rate.
pub const PCM_FMT_8000_MASK: u16 = 0x0500;
pub const PCM_FMT_11025_MASK: u16 = 0x4300;
pub const PCM_FMT_16000_MASK: u16 = 0x0200;
pub const PCM_FMT_22050_MASK: u16 = 0x4100;
pub const PCM_FMT_32000_MASK: u16 = 0x0a00;
pub const PCM_FMT_44100_MASK: u16 = 0x4000;
pub const PCM_FMT_48000_MASK: u16 = 0x0000;
pub const PCM_FMT_88200_MASK: u16 = 0x4800;
pub const PCM_FMT_96000_MASK: u16 = 0x0800;

/// The rate fields are made of a base rate, a multiplier and a divisor: 44.1
/// or 48 thousand samples a second, times one to four, divided by one to
/// eight.
pub proof fn lemma_rate_masks()
    ensures
        PCM_FMT_8000_MASK == PCM_FMT_MUL_1_MASK | PCM_FMT_DIV_6_MASK,
        PCM_FMT_11025_MASK == PCM_FMT_MUL_1_MASK | PCM_FMT_DIV_4_MASK | PCM_FMT_44K_BIT,
        PCM_FMT_16000_MASK == PCM_FMT_MUL_1_MASK | PCM_FMT_DIV_3_MASK,
        PCM_FMT_22050_MASK == PCM_FMT_MUL_1_MASK | PCM_FMT_DIV_2_MASK | PCM_FMT_44K_BIT,
        PCM_FMT_32000_MASK == PCM_FMT_MUL_2_MASK | PCM_FMT_DIV_3_MASK,
        PCM_FMT_44100_MASK == PCM_FMT_MUL_1_MASK | PCM_FMT_DIV_1_MASK | PCM_FMT_44K_BIT,
        PCM_FMT_48000_MASK == PCM_FMT_MUL_1_MASK | PCM_FMT_DIV_1_MASK,
        PCM_FMT_88200_MASK == PCM_FMT_MUL_2_MASK | PCM_FMT_DIV_1_MASK | PCM_FMT_44K_BIT,
        PCM_FMT_96000_MASK == PCM_FMT_MUL_2_MASK | PCM_FMT_DIV_1_MASK,
        PCM_FMT_22050_MASK | PCM_FMT_CHAN_2_MASK | PCM_FMT_PACK_16_MASK == 0x4111,
{
    assert(0x0500u16 == 0x0000u16 | 0x0500u16 && 0x4300u16 == 0x0000u16 | 0x0300u16 | 0x4000u16
        && 0x0200u16 == 0x0000u16 | 0x0200u16 && 0x4100u16 == 0x0000u16 | 0x0100u16 | 0x4000u16
        && 0x0a00u16 == 0x0800u16 | 0x0200u16 && 0x4000u16 == 0x0000u16 | 0x0000u16 | 0x4000u16
        && 0x0000u16 == 0x0000u16 | 0x0000u16 && 0x4800u16 == 0x0800u16 | 0x0000u16 | 0x4000u16
        && 0x0800u16 == 0x0800u16 | 0x0000u16 && 0x4100u16 | 0x0001u16 | 0x0010u16 == 0x4111u16)
        by (bit_vector);
}

/// A mode that an audio output offers.
#[derive(Clone, Copy, Debug, PartialEq, Eq, Structural)]
pub struct SimpleAudioMode {
    pub sampling_rate: u32,
    pub channel_count: u8,
    pub sample_format: u32,
}

/// The sampling rates that the driver knows, in rising order.
pub open spec fn audio_rates() -> Seq<u32> {
    seq![
        AUDIO_RATE_8000,
        AUDIO_RATE_11025,
        AUDIO_RATE_16000,
        AUDIO_RATE_22050,
        AUDIO_RATE_32000,
        AUDIO_RATE_44100,
        AUDIO_RATE_48000,
    ]
}

/// The rate fields of the stream format register for the rates of
/// `audio_rates`, in the same order.
pub open spec fn rate_masks() -> Seq<u16> {
    seq![
        PCM_FMT_8000_MASK,
        PCM_FMT_11025_MASK,
        PCM_FMT_16000_MASK,
        PCM_FMT_22050_MASK,
        PCM_FMT_32000_MASK,
        PCM_FMT_44100_MASK,
        PCM_FMT_48000_MASK,
    ]
}

/// How far two rates lie apart.
pub open spec fn rate_distance(a: u32, b: u32) -> int {
    if a < b {
        b - a
    } else {
        a - b
    }
}

/// Whether the rate at `index` of `audio_rates` is the one nearest to
/// `sampling_rate`: none lies nearer, and none before it lies as near.
pub open spec fn nearest_rate(index: int, sampling_rate: u32) -> bool {
    &&& 0 <= index < audio_rates().len()
    &&& forall|j: int|
        0 <= j < audio_rates().len() ==> rate_distance(audio_rates()[index], sampling_rate)
            <= rate_distance(#[trigger] audio_rates()[j], sampling_rate)
    &&& forall|j: int|
        0 <= j < index ==> rate_distance(audio_rates()[index], sampling_rate) < rate_distance(
            #[trigger] audio_rates()[j],
            sampling_rate,
        )
}

/// The stream format for 16-bit stereo at the rate at `index` of `audio_rates`.
pub open spec fn stereo_format(index: int) -> u16 {
    PCM_FMT_CHAN_2_MASK | PCM_FMT_PACK_16_MASK | rate_masks()[index]
}

fn rate_at(index: usize) -> (r: (u32, u16))
    requires
        index < AUDIO_RATES,
    ensures
        r.0 == audio_rates()[index as int],
        r.1 == rate_masks()[index as int],
{
    if index == 0 {
        (AUDIO_RATE_8000, PCM_FMT_8000_MASK)
    } else if index == 1 {
        (AUDIO_RATE_11025, PCM_FMT_11025_MASK)
    } else if index == 2 {
        (AUDIO_RATE_16000, PCM_FMT_16000_MASK)
    } else if index == 3 {
        (AUDIO_RATE_22050, PCM_FMT_22050_MASK)
    } else if index == 4 {
        (AUDIO_RATE_32000, PCM_FMT_32000_MASK)
    } else if index == 5 {
        (AUDIO_RATE_44100, PCM_FMT_44100_MASK)
    } else {
        (AUDIO_RATE_48000, PCM_FMT_48000_MASK)
    }
}

fn abs_diff(a: u32, b: u32) -> (r: u32)
    ensures
        r == rate_distance(a, b),
{
    if a < b {
        b - a
    } else {
        a - b
    }
}

/// Chooses the stream format for a request: the known rate nearest to
/// `sampling_rate`, the lower one where two lie as near, as 16-bit stereo.
/// The result is the format register value and the rate chosen. Only two
/// channels are supported.
pub fn stream_select_rate(sampling_rate: u32, channel_count: u8) -> (r: Result<
    (u16, u32),
    HdaError,
>)
    ensures
        channel_count != 2 ==> r == Err::<(u16, u32), HdaError>(HdaError::Unsupported),
        channel_count == 2 ==> (r matches Ok((format, rate)) && exists|index: int|
            nearest_rate(index, sampling_rate) && rate == #[trigger] audio_rates()[index] && format
                == stereo_format(index)),
{
    let mut best: usize = 0;
    let mut i: usize = 1;
    while i < AUDIO_RATES
        invariant
            1 <= i <= AUDIO_RATES,
            best < i,
            forall|j: int|
                0 <= j < i ==> rate_distance(audio_rates()[best as int], sampling_rate)
                    <= rate_distance(#[trigger] audio_rates()[j], sampling_rate),
            forall|j: int|
                0 <= j < best ==> rate_distance(audio_rates()[best as int], sampling_rate)
                    < rate_distance(#[trigger] audio_rates()[j], sampling_rate),
        decreases AUDIO_RATES - i,
    {
        if abs_diff(rate_at(i).0, sampling_rate) < abs_diff(rate_at(best).0, sampling_rate) {
            best = i;
        }
        i += 1;
    }
    if channel_count != 2 {
        return Err(HdaError::Unsupported);
    }
    let (closest_rate, mask) = rate_at(best);
    let format = PCM_FMT_CHAN_2_MASK | PCM_FMT_PACK_16_MASK | mask;
    assert(nearest_rate(best as int, sampling_rate));
    Ok((format, closest_rate))
}

/// Among the known rates, exactly one is the nearest to a given rate.
pub proof fn lemma_nearest_rate_unique(a: int, b: int, sampling_rate: u32)
    requires
        nearest_rate(a, sampling_rate),
        nearest_rate(b, sampling_rate),
    ensures
        a == b,
{
    if a < b {
        assert(rate_distance(audio_rates()[b], sampling_rate) < rate_distance(
            audio_rates()[a],
            sampling_rate,
        ));
    } else if b < a {
        assert(rate_distance(audio_rates()[a], sampling_rate) < rate_distance(
            audio_rates()[b],
            sampling_rate,
        ));
    }
}

} // verus!
