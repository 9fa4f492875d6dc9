use efi_hda::error::HdaError;
use efi_hda::format::stream_select_rate;

#[test]
fn select_rate_exact_rates() {
    assert_eq!(stream_select_rate(8000, 2), Ok((0x0511, 8000)));
    assert_eq!(stream_select_rate(11025, 2), Ok((0x4311, 11025)));
    assert_eq!(stream_select_rate(16000, 2), Ok((0x0211, 16000)));
    assert_eq!(stream_select_rate(22050, 2), Ok((0x4111, 22050)));
    assert_eq!(stream_select_rate(32000, 2), Ok((0x0a11, 32000)));
    assert_eq!(stream_select_rate(44100, 2), Ok((0x4011, 44100)));
    assert_eq!(stream_select_rate(48000, 2), Ok((0x0011, 48000)));
}

#[test]
fn select_rate_stereo_22050_format_bits() {
    assert_eq!(stream_select_rate(22050, 2), Ok((0b100000100010001, 22050)));
}

#[test]
fn select_rate_takes_the_nearest() {
    assert_eq!(stream_select_rate(0, 2), Ok((0x0511, 8000)));
    assert_eq!(stream_select_rate(9512, 2), Ok((0x0511, 8000)));
    assert_eq!(stream_select_rate(9513, 2), Ok((0x4311, 11025)));
    assert_eq!(stream_select_rate(46049, 2), Ok((0x4011, 44100)));
    assert_eq!(stream_select_rate(46051, 2), Ok((0x0011, 48000)));
    assert_eq!(stream_select_rate(96000, 2), Ok((0x0011, 48000)));
    assert_eq!(stream_select_rate(u32::MAX, 2), Ok((0x0011, 48000)));
}

#[test]
fn select_rate_ties_go_to_the_lower_rate() {
    assert_eq!(stream_select_rate(19025, 2), Ok((0x0211, 16000)));
    assert_eq!(stream_select_rate(27025, 2), Ok((0x4111, 22050)));
    assert_eq!(stream_select_rate(38050, 2), Ok((0x0a11, 32000)));
    assert_eq!(stream_select_rate(46050, 2), Ok((0x4011, 44100)));
}

#[test]
fn select_rate_needs_two_channels() {
    for channels in [0u8, 1, 3, 6, 255] {
        assert_eq!(stream_select_rate(44100, channels), Err(HdaError::Unsupported));
    }
}
