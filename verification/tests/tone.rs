use efi_hda::endpoint::hda_tone;
use efi_hda::error::HdaError;
use efi_hda::tone::{square, wave};

#[test]
fn square_halves() {
    assert_eq!(square(0, 4), i16::MAX);
    assert_eq!(square(1, 4), i16::MAX);
    assert_eq!(square(2, 4), i16::MIN);
    assert_eq!(square(3, 4), i16::MIN);
    assert_eq!(square(4, 4), i16::MAX);
    assert_eq!(square(6, 4), i16::MIN);
    // an odd period: the first half is the shorter
    assert_eq!(square(0, 3), i16::MAX);
    assert_eq!(square(1, 3), i16::MAX);
    assert_eq!(square(2, 3), i16::MIN);
    assert_eq!(square(0, 1), i16::MAX);
    assert_eq!(square(usize::MAX, usize::MAX), i16::MAX);
    assert_eq!(square(usize::MAX - 1, usize::MAX), i16::MIN);
}

#[test]
fn wave_writes_whole_periods() {
    let mut buffer = vec![7i16; 2048];
    // 200 samples in a period: 100 frames of two channels
    assert_eq!(wave(&mut buffer, 2, 44100, 441), 2000);
    for (i, &sample) in buffer.iter().enumerate() {
        if i >= 2000 {
            assert_eq!(sample, 7);
        } else if i % 200 < 100 {
            assert_eq!(sample, i16::MAX);
        } else {
            assert_eq!(sample, i16::MIN);
        }
    }
}

#[test]
fn wave_keeps_channels_of_a_frame_alike() {
    let mut buffer = vec![0i16; 64];
    // a period of three frames of three channels
    assert_eq!(wave(&mut buffer, 3, 30, 10), 63);
    for frame in 0..21 {
        let expected = if frame % 3 < 2 { i16::MAX } else { i16::MIN };
        for channel in 0..3 {
            assert_eq!(buffer[frame * 3 + channel], expected);
        }
    }
    assert_eq!(buffer[63], 0);
}

#[test]
fn wave_refuses_what_it_cannot_play() {
    let mut buffer = vec![5i16; 16];
    assert_eq!(wave(&mut buffer, 2, 44100, 0), 0);
    assert_eq!(wave(&mut buffer, 0, 44100, 440), 0);
    assert_eq!(wave(&mut buffer, 2, 439, 440), 0);
    // a period longer than the buffer
    assert_eq!(wave(&mut buffer, 2, 44100, 440), 0);
    assert_eq!(wave(&mut buffer, 255, u32::MAX, 1), 0);
    assert_eq!(buffer, vec![5i16; 16]);
    assert_eq!(wave(&mut [], 2, 44100, 440), 0);
    // the rate may equal the frequency: one frame in a period
    assert_eq!(wave(&mut buffer, 2, 440, 440), 16);
    assert_eq!(buffer, vec![i16::MAX; 16]);
}

#[test]
fn tone_samples() {
    let samples = hda_tone(441).unwrap();
    assert_eq!(samples.len(), 2000);
    assert_eq!(samples[0], i16::MAX);
    assert_eq!(samples[99], i16::MAX);
    assert_eq!(samples[100], i16::MIN);
    assert_eq!(samples[199], i16::MIN);
    assert_eq!(samples[200], i16::MAX);
    assert_eq!(hda_tone(440).unwrap().len(), 2000);
    // the lowest tone of which one period fits a buffer
    assert_eq!(hda_tone(44).unwrap().len(), 2004);
    assert_eq!(hda_tone(44100).unwrap().len(), 2048);
}

#[test]
fn tone_refuses_frequencies_out_of_range() {
    assert_eq!(hda_tone(0), Err(HdaError::InvalidParameter));
    assert_eq!(hda_tone(43), Err(HdaError::InvalidParameter));
    assert_eq!(hda_tone(44101), Err(HdaError::InvalidParameter));
    assert_eq!(hda_tone(u16::MAX), Err(HdaError::InvalidParameter));
}
