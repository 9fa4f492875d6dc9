use efi_hda::bus::init_context;
use efi_hda::command::Codec;
use efi_hda::endpoint::{hda_query_mode, hda_write, playback_outcome, stream_play_loop};
use efi_hda::error::HdaError;
use efi_hda::format::SimpleAudioMode;
use efi_hda::hda::GlobalCapabilities;
use efi_hda::registers::{IoBase, IoWidth, RegOp, StreamRegisterSet};
use efi_hda::stream::{Descriptor, LoopTimers};

#[test]
fn query_mode_offers_one_mode() {
    assert_eq!(
        hda_query_mode(0),
        Ok(SimpleAudioMode { sampling_rate: 22050, channel_count: 2, sample_format: 0 })
    );
    assert_eq!(hda_query_mode(1), Err(HdaError::InvalidParameter));
    assert_eq!(hda_query_mode(usize::MAX), Err(HdaError::InvalidParameter));
}

#[test]
fn write_gives_the_duration() {
    assert_eq!(hda_write(44100, 2, 0, 0x1000, 88200), Ok(1000));
    assert_eq!(hda_write(22050, 2, 0, 0x1000, 22050), Ok(500));
    assert_eq!(hda_write(48000, 2, 0, 2, 1), Ok(0));
    assert_eq!(hda_write(1, 2, 0, usize::MAX - 1, 3), Ok(1500));
}

#[test]
fn write_refuses_malformed_requests() {
    let valid = 0x1000;
    assert_eq!(hda_write(44100, 1, 0, valid, 100), Err(HdaError::InvalidParameter));
    assert_eq!(hda_write(44100, 0, 0, valid, 100), Err(HdaError::InvalidParameter));
    assert_eq!(hda_write(44100, 2, 1, valid, 100), Err(HdaError::InvalidParameter));
    assert_eq!(hda_write(44100, 2, 0, valid, 0), Err(HdaError::InvalidParameter));
    assert_eq!(hda_write(0, 2, 0, valid, 100), Err(HdaError::InvalidParameter));
    assert_eq!(
        hda_write(44100, 2, 0, valid, isize::MAX as usize),
        Err(HdaError::InvalidParameter)
    );
    assert_eq!(hda_write(44100, 2, 0, valid, usize::MAX), Err(HdaError::InvalidParameter));
    // a null or misaligned address
    assert_eq!(hda_write(44100, 2, 0, 0, 100), Err(HdaError::InvalidParameter));
    assert_eq!(hda_write(44100, 2, 0, 0x1001, 100), Err(HdaError::InvalidParameter));
}

#[test]
fn play_loop_prepares_the_stream() {
    let device = init_context(&GlobalCapabilities::from(0x4401), Codec(0)).unwrap();
    let samples: Vec<i16> = (0..3000).collect();
    let playback = stream_play_loop(&device, 0x0010_0000, 250, &samples, 44000, 2).unwrap();
    assert_eq!(playback.format, 0x4011);
    assert_eq!(playback.closest_rate, 44100);
    assert_eq!(playback.stream, StreamRegisterSet { index: 4, base: 0x100 });
    assert_eq!(playback.timers, LoopTimers { deadline: 2_500_000, tick: 1_860_000 });
    assert_eq!(playback.control.buffer(), 0);
    assert_eq!(playback.control.position(), 16384 % 3000);
    for k in 0..8 {
        assert_eq!(
            playback.bdl.descriptors[k],
            Descriptor { address: 0x0010_0080 + 4096 * k as u64, length: 4096, control: 0 }
        );
        assert_eq!(playback.bdl.buffers[k].samples[5], samples[(k * 2048 + 5) % 3000]);
    }
    assert_eq!(playback.setup.len(), 7);
    assert_eq!(
        playback.setup[1],
        RegOp::Write { reg: IoBase { offset: 0x108, width: IoWidth::Dword }, value: 32768 }
    );
    assert_eq!(
        playback.setup[4],
        RegOp::Write { reg: IoBase { offset: 0x118, width: IoWidth::Dword }, value: 0x0010_0000 }
    );
}

#[test]
fn play_loop_refuses_what_it_cannot_play() {
    let device = init_context(&GlobalCapabilities::from(0x1001), Codec(0)).unwrap();
    let samples = [1i16, 2, 3];
    assert!(matches!(
        stream_play_loop(&device, 0x1000, 10, &samples, 44100, 1),
        Err(HdaError::Unsupported)
    ));
    assert!(matches!(
        stream_play_loop(&device, 0x1000, 10, &[], 44100, 2),
        Err(HdaError::InvalidParameter)
    ));
    assert!(matches!(
        stream_play_loop(&device, 0x1001, 10, &samples, 44100, 2),
        Err(HdaError::InvalidParameter)
    ));
    assert!(matches!(
        stream_play_loop(&device, u64::MAX - 0x7f, 10, &samples, 44100, 2),
        Err(HdaError::InvalidParameter)
    ));
    assert!(matches!(
        stream_play_loop(&device, 0x1000, 10, &samples, 0, 2),
        Err(HdaError::InvalidParameter)
    ));
    assert!(stream_play_loop(&device, 0x1000, 10, &samples, 44100, 2).is_ok());
}

#[test]
fn first_failure_is_handed_on() {
    assert_eq!(playback_outcome(Ok(()), Ok(())), Ok(()));
    assert_eq!(playback_outcome(Ok(()), Err(HdaError::Timeout)), Err(HdaError::Timeout));
    assert_eq!(playback_outcome(Err(HdaError::DeviceError), Ok(())), Err(HdaError::DeviceError));
    assert_eq!(
        playback_outcome(Err(HdaError::DeviceError), Err(HdaError::Timeout)),
        Err(HdaError::DeviceError)
    );
}
