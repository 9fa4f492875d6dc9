//! Decoders for the capability and configuration words of the controller and
//! its codecs. Each keeps the raw word and gives its fields by bit position.

use vstd::prelude::*;

verus! {

/// The bit field of `word` that starts at bit `shift` and is as wide as `mask`.
pub open spec fn field(word: u32, shift: u32, mask: u32) -> u32 {
    (word >> shift) & mask
}

/// The bit field of the 16-bit `word` that starts at bit `shift` and is as wide as `mask`.
pub open spec fn field16(word: u16, shift: u16, mask: u16) -> u16 {
    (word >> shift) & mask
}

fn extract(word: u32, shift: u32, mask: u32) -> (r: u32)
    requires
        shift < 32,
    ensures
        r == field(word, shift, mask),
        r <= mask,
{
    assert((word >> shift) & mask <= mask) by (bit_vector);
    (word >> shift) & mask
}

fn extract16(word: u16, shift: u16, mask: u16) -> (r: u16)
    requires
        shift < 16,
    ensures
        r == field16(word, shift, mask),
        r <= mask,
{
    assert((word >> shift) & mask <= mask) by (bit_vector);
    (word >> shift) & mask
}

/// Volume knob capabilities parameter of a volume knob widget.
#[derive(Clone, Copy, Debug)]
pub struct VolumeKnobCapabilities(u32);

impl View for VolumeKnobCapabilities {
    type V = u32;

    closed spec fn view(&self) -> u32 {
        self.0
    }
}

impl VolumeKnobCapabilities {
    /// The decoder of a raw value read from the device.
    pub fn from(caps: u32) -> (r: VolumeKnobCapabilities)
        ensures
            r@ == caps,
    {
        VolumeKnobCapabilities(caps)
    }

    /// Number of steps of the knob, bits 6:0.
    pub fn num_steps(&self) -> (r: u32)
        ensures
            r == field(self@, 0, 0x7f),
            r <= 0x7f,
    {
        extract(self.0, 0, 0x7f)
    }

    /// Whether software can set the volume directly, bit 7.
    pub fn delta(&self) -> (r: bool)
        ensures
            r == (field(self@, 7, 1) == 1),
    {
        extract(self.0, 7, 1) == 1
    }
}

/// Response of the get-amplifier-gain/mute verb.
#[derive(Clone, Copy, Debug)]
pub struct AmpGain(u32);

impl View for AmpGain {
    type V = u32;

    closed spec fn view(&self) -> u32 {
        self.0
    }
}

impl AmpGain {
    /// The decoder of a raw value read from the device.
    pub fn from(gain: u32) -> (r: AmpGain)
        ensures
            r@ == gain,
    {
        AmpGain(gain)
    }

    /// Gain step, bits 6:0.
    pub fn gain(&self) -> (r: u32)
        ensures
            r == field(self@, 0, 0x7f),
            r <= 0x7f,
    {
        extract(self.0, 0, 0x7f)
    }

    /// Whether the amplifier is muted, bit 7.
    pub fn mute(&self) -> (r: bool)
        ensures
            r == (field(self@, 7, 1) == 1),
    {
        extract(self.0, 7, 1) == 1
    }
}

/// Amplifier capabilities parameter.
#[derive(Clone, Copy, Debug)]
pub struct AmpCapabilities(u32);

impl View for AmpCapabilities {
    type V = u32;

    closed spec fn view(&self) -> u32 {
        self.0
    }
}

impl AmpCapabilities {
    /// The decoder of a raw value read from the device.
    pub fn from(caps: u32) -> (r: AmpCapabilities)
        ensures
            r@ == caps,
    {
        AmpCapabilities(caps)
    }

    /// Gain step that stands for 0 dB, bits 6:0.
    pub fn offset(&self) -> (r: u32)
        ensures
            r == field(self@, 0, 0x7f),
            r <= 0x7f,
    {
        extract(self.0, 0, 0x7f)
    }

    /// Number of gain steps, bits 14:8.
    pub fn num_steps(&self) -> (r: u32)
        ensures
            r == field(self@, 8, 0x7f),
            r <= 0x7f,
    {
        extract(self.0, 8, 0x7f)
    }

    /// Size of one gain step, bits 22:16.
    pub fn step_size(&self) -> (r: u32)
        ensures
            r == field(self@, 16, 0x7f),
            r <= 0x7f,
    {
        extract(self.0, 16, 0x7f)
    }

    /// Whether the amplifier can mute, bit 31.
    pub fn mute(&self) -> (r: bool)
        ensures
            r == (field(self@, 31, 1) == 1),
    {
        extract(self.0, 31, 1) == 1
    }
}

/// Pin capabilities parameter of a pin complex widget.
#[derive(Clone, Copy, Debug)]
pub struct PinCapabilities(u32);

impl View for PinCapabilities {
    type V = u32;

    closed spec fn view(&self) -> u32 {
        self.0
    }
}

impl PinCapabilities {
    /// The decoder of a raw value read from the device.
    pub fn from(caps: u32) -> (r: PinCapabilities)
        ensures
            r@ == caps,
    {
        PinCapabilities(caps)
    }

    /// Whether the pin can sense impedance, bit 0.
    pub fn impedance_sense_capable(&self) -> (r: u32)
        ensures
            r == field(self@, 0, 1),
            r <= 1,
    {
        extract(self.0, 0, 1)
    }

    /// Whether a sense must be triggered before presence is read, bit 1.
    pub fn trigger_required(&self) -> (r: u32)
        ensures
            r == field(self@, 1, 1),
            r <= 1,
    {
        extract(self.0, 1, 1)
    }

    /// Whether the pin can detect that something is plugged in, bit 2.
    pub fn presence_detect_capable(&self) -> (r: u32)
        ensures
            r == field(self@, 2, 1),
            r <= 1,
    {
        extract(self.0, 2, 1)
    }

    /// Whether the pin can drive headphones, bit 3.
    pub fn headphone_drive_capable(&self) -> (r: u32)
        ensures
            r == field(self@, 3, 1),
            r <= 1,
    {
        extract(self.0, 3, 1)
    }

    /// Whether the pin can be an output, bit 4.
    pub fn output_capable(&self) -> (r: u32)
        ensures
            r == field(self@, 4, 1),
            r <= 1,
    {
        extract(self.0, 4, 1)
    }

    /// Whether the pin can be an input, bit 5.
    pub fn input_capable(&self) -> (r: u32)
        ensures
            r == field(self@, 5, 1),
            r <= 1,
    {
        extract(self.0, 5, 1)
    }

    /// Whether the pin has balanced pins, bit 6.
    pub fn balanced_io_pins(&self) -> (r: bool)
        ensures
            r == (field(self@, 6, 1) == 1),
    {
        extract(self.0, 6, 1) == 1
    }

    /// Whether the pin is an HDMI pin, bit 7.
    pub fn hdmi(&self) -> (r: u32)
        ensures
            r == field(self@, 7, 1),
            r <= 1,
    {
        extract(self.0, 7, 1)
    }

    /// Supported reference voltages, bits 15:8.
    pub fn vref_control(&self) -> (r: u32)
        ensures
            r == field(self@, 8, 0xff),
            r <= 0xff,
    {
        extract(self.0, 8, 0xff)
    }

    /// Whether the pin controls an external amplifier, bit 16.
    pub fn eapd_capable(&self) -> (r: bool)
        ensures
            r == (field(self@, 16, 1) == 1),
    {
        extract(self.0, 16, 1) == 1
    }

    /// Whether the pin is a DisplayPort pin, bit 24.
    pub fn display_port(&self) -> (r: u32)
        ensures
            r == field(self@, 24, 1),
            r <= 1,
    {
        extract(self.0, 24, 1)
    }

    /// Whether the pin supports high bit rate audio, bit 27.
    pub fn high_bit_rate(&self) -> (r: u32)
        ensures
            r == field(self@, 27, 1),
            r <= 1,
    {
        extract(self.0, 27, 1)
    }
}

/// Default configuration word of a pin complex widget.
#[derive(Clone, Copy, Debug)]
pub struct PinConfig(u32);

impl View for PinConfig {
    type V = u32;

    closed spec fn view(&self) -> u32 {
        self.0
    }
}

impl PinConfig {
    /// The decoder of a raw value read from the device.
    pub fn from(cfg: u32) -> (r: PinConfig)
        ensures
            r@ == cfg,
    {
        PinConfig(cfg)
    }

    /// Order of the pin within its association, bits 3:0.
    pub fn sequence(&self) -> (r: u32)
        ensures
            r == field(self@, 0, 0xf),
            r <= 0xf,
    {
        extract(self.0, 0, 0xf)
    }

    /// Group of pins that belong together, bits 7:4.
    pub fn association(&self) -> (r: u32)
        ensures
            r == field(self@, 4, 0xf),
            r <= 0xf,
    {
        extract(self.0, 4, 0xf)
    }

    /// Miscellaneous flags, bits 11:8; bit 0 of them overrides jack detection.
    pub fn misc(&self) -> (r: u32)
        ensures
            r == field(self@, 8, 0xf),
            r <= 0xf,
    {
        extract(self.0, 8, 0xf)
    }

    /// Colour of the jack, bits 15:12.
    pub fn color(&self) -> (r: u32)
        ensures
            r == field(self@, 12, 0xf),
            r <= 0xf,
    {
        extract(self.0, 12, 0xf)
    }

    /// Mechanical connection type, bits 19:16.
    pub fn typ(&self) -> (r: u32)
        ensures
            r == field(self@, 16, 0xf),
            r <= 0xf,
    {
        extract(self.0, 16, 0xf)
    }

    /// Intended use of the jack, bits 23:20.
    pub fn device(&self) -> (r: u32)
        ensures
            r == field(self@, 20, 0xf),
            r <= 0xf,
    {
        extract(self.0, 20, 0xf)
    }

    /// Where the jack sits on the machine, bits 29:24.
    pub fn location(&self) -> (r: u32)
        ensures
            r == field(self@, 24, 0x3f),
            r <= 0x3f,
    {
        extract(self.0, 24, 0x3f)
    }

    /// How the pin is wired to the outside, bits 31:30.
    pub fn port_connectivity(&self) -> (r: u32)
        ensures
            r == field(self@, 30, 0x3),
            r <= 0x3,
    {
        extract(self.0, 30, 0x3)
    }
}

/// Audio widget capabilities parameter.
#[derive(Clone, Copy, Debug)]
pub struct WidgetCapabilities(u32);

impl View for WidgetCapabilities {
    type V = u32;

    closed spec fn view(&self) -> u32 {
        self.0
    }
}

impl WidgetCapabilities {
    /// The decoder of a raw value read from the device.
    pub fn from(caps: u32) -> (r: WidgetCapabilities)
        ensures
            r@ == caps,
    {
        WidgetCapabilities(caps)
    }

    /// Number of channels: twice the count extension of bits 15:13 plus one.
    pub fn channels(&self) -> (r: u32)
        ensures
            r == 2 * (field(self@, 13, 0x7) + 1),
            2 <= r <= 16,
    {
        2 * (extract(self.0, 13, 0x7) + 1)
    }

    /// Widget type, bits 23:20.
    pub fn typ(&self) -> (r: u32)
        ensures
            r == field(self@, 20, 0xf),
            r <= 0xf,
    {
        extract(self.0, 20, 0xf)
    }

    /// Whether the widget is stereo, bit 0.
    pub fn stereo(&self) -> (r: u32)
        ensures
            r == field(self@, 0, 1),
            r <= 1,
    {
        extract(self.0, 0, 1)
    }

    /// Whether the widget has an input amplifier, bit 1.
    pub fn in_amp_present(&self) -> (r: u32)
        ensures
            r == field(self@, 1, 1),
            r <= 1,
    {
        extract(self.0, 1, 1)
    }

    /// Whether the widget has an output amplifier, bit 2.
    pub fn out_amp_present(&self) -> (r: u32)
        ensures
            r == field(self@, 2, 1),
            r <= 1,
    {
        extract(self.0, 2, 1)
    }

    /// Whether the widget has amplifier parameters of its own, bit 3.
    pub fn amp_param_override(&self) -> (r: u32)
        ensures
            r == field(self@, 3, 1),
            r <= 1,
    {
        extract(self.0, 3, 1)
    }

    /// Whether the widget has format parameters of its own, bit 4.
    pub fn format_override(&self) -> (r: u32)
        ensures
            r == field(self@, 4, 1),
            r <= 1,
    {
        extract(self.0, 4, 1)
    }

    /// Whether the widget supports striping, bit 5.
    pub fn stripe(&self) -> (r: u32)
        ensures
            r == field(self@, 5, 1),
            r <= 1,
    {
        extract(self.0, 5, 1)
    }

    /// Whether the widget has processing controls, bit 6.
    pub fn proc_widget(&self) -> (r: u32)
        ensures
            r == field(self@, 6, 1),
            r <= 1,
    {
        extract(self.0, 6, 1)
    }

    /// Whether the widget can send unsolicited responses, bit 7.
    pub fn unsol_capable(&self) -> (r: u32)
        ensures
            r == field(self@, 7, 1),
            r <= 1,
    {
        extract(self.0, 7, 1)
    }

    /// Whether the widget has a connection list, bit 8.
    pub fn connection_list(&self) -> (r: u32)
        ensures
            r == field(self@, 8, 1),
            r <= 1,
    {
        extract(self.0, 8, 1)
    }

    /// Whether the widget is digital, bit 9.
    pub fn digital(&self) -> (r: u32)
        ensures
            r == field(self@, 9, 1),
            r <= 1,
    {
        extract(self.0, 9, 1)
    }

    /// Whether the widget supports power control, bit 10.
    pub fn power_ctl(&self) -> (r: u32)
        ensures
            r == field(self@, 10, 1),
            r <= 1,
    {
        extract(self.0, 10, 1)
    }

    /// Whether the widget can swap left and right, bit 11.
    pub fn lr_swap(&self) -> (r: u32)
        ensures
            r == field(self@, 11, 1),
            r <= 1,
    {
        extract(self.0, 11, 1)
    }

    /// Whether the widget supports content protection, bit 12.
    pub fn cp_caps(&self) -> (r: u32)
        ensures
            r == field(self@, 12, 1),
            r <= 1,
    {
        extract(self.0, 12, 1)
    }

    /// Delay through the widget in samples, bits 19:16.
    pub fn delay(&self) -> (r: u32)
        ensures
            r == field(self@, 16, 0xf),
            r <= 0xf,
    {
        extract(self.0, 16, 0xf)
    }
}

/// Global capabilities register of the controller.
#[derive(Clone, Copy, Debug)]
pub struct GlobalCapabilities(u16);

impl View for GlobalCapabilities {
    type V = u16;

    closed spec fn view(&self) -> u16 {
        self.0
    }
}

impl GlobalCapabilities {
    /// The decoder of a raw value read from the device.
    pub fn from(gcap: u16) -> (r: GlobalCapabilities)
        ensures
            r@ == gcap,
    {
        GlobalCapabilities(gcap)
    }

    /// Number of output streams, bits 15:12.
    pub fn out_streams(&self) -> (r: u16)
        ensures
            r == field16(self@, 12, 0xf),
            r <= 0xf,
    {
        extract16(self.0, 12, 0xf)
    }

    /// Number of input streams, bits 11:8.
    pub fn in_streams(&self) -> (r: u16)
        ensures
            r == field16(self@, 8, 0xf),
            r <= 0xf,
    {
        extract16(self.0, 8, 0xf)
    }

    /// Number of bidirectional streams, bits 7:3.
    pub fn bd_streams(&self) -> (r: u16)
        ensures
            r == field16(self@, 3, 0x1f),
            r <= 0x1f,
    {
        extract16(self.0, 3, 0x1f)
    }

    /// Number of serial data out signals, bits 2:1.
    pub fn sdo_signals(&self) -> (r: u16)
        ensures
            r == field16(self@, 1, 0x3),
            r <= 0x3,
    {
        extract16(self.0, 1, 0x3)
    }

    /// Whether the controller takes 64-bit addresses, bit 0.
    pub fn ok_64(&self) -> (r: bool)
        ensures
            r == (field16(self@, 0, 1) == 1),
    {
        extract16(self.0, 0, 1) == 1
    }
}

/// The pin configuration word whose fields are the given values.
pub open spec fn pin_config_word(
    sequence: u32,
    association: u32,
    misc: u32,
    color: u32,
    typ: u32,
    device: u32,
    location: u32,
    port_connectivity: u32,
) -> u32 {
    sequence | (association << 4) | (misc << 8) | (color << 12) | (typ << 16) | (device << 20)
        | (location << 24) | (port_connectivity << 30)
}

/// Every bit of a pin configuration word belongs to one of its eight fields:
/// putting the decoded fields back at their places gives the word again.
pub proof fn lemma_pin_config_round_trip(word: u32)
    ensures
        pin_config_word(
            field(word, 0, 0xf),
            field(word, 4, 0xf),
            field(word, 8, 0xf),
            field(word, 12, 0xf),
            field(word, 16, 0xf),
            field(word, 20, 0xf),
            field(word, 24, 0x3f),
            field(word, 30, 0x3),
        ) == word,
{
    assert(((word >> 0) & 0xf) | (((word >> 4) & 0xf) << 4) | (((word >> 8) & 0xf) << 8)
        | (((word >> 12) & 0xf) << 12) | (((word >> 16) & 0xf) << 16)
        | (((word >> 20) & 0xf) << 20) | (((word >> 24) & 0x3f) << 24)
        | (((word >> 30) & 0x3) << 30) == word) by (bit_vector);
}

/// The bits of a widget capabilities word that belong to a field; bits 31:24 are reserved.
pub const WIDGET_CAPABILITIES_USED: u32 = 0x00ff_ffff;

/// The widget capabilities word, reserved bits clear, whose fields are the
/// given values. `flags` holds the thirteen one-bit fields at bits 12:0 and
/// `channels` is the decoded channel count.
pub open spec fn widget_capabilities_word(flags: u32, channels: u32, delay: u32, typ: u32) -> u32 {
    flags | ((((channels / 2) - 1) as u32) << 13) | (delay << 16) | (typ << 20)
}

/// The thirteen one-bit fields of a widget capabilities word, each put back at its bit.
pub open spec fn widget_capabilities_flags(word: u32) -> u32 {
    field(word, 0, 1) | (field(word, 1, 1) << 1) | (field(word, 2, 1) << 2)
        | (field(word, 3, 1) << 3) | (field(word, 4, 1) << 4) | (field(word, 5, 1) << 5)
        | (field(word, 6, 1) << 6) | (field(word, 7, 1) << 7) | (field(word, 8, 1) << 8)
        | (field(word, 9, 1) << 9) | (field(word, 10, 1) << 10) | (field(word, 11, 1) << 11)
        | (field(word, 12, 1) << 12)
}

/// Putting the decoded fields of a widget capabilities word back at their
/// places gives the word again, but for its reserved bits, which come out clear.
pub proof fn lemma_widget_capabilities_round_trip(word: u32)
    ensures
        widget_capabilities_word(
            widget_capabilities_flags(word),
            (2 * (field(word, 13, 0x7) + 1)) as u32,
            field(word, 16, 0xf),
            field(word, 20, 0xf),
        ) == word & WIDGET_CAPABILITIES_USED,
{
    let count = field(word, 13, 0x7);
    assert(count <= 7) by (bit_vector)
        requires
            count == (word >> 13) & 0x7,
    ;
    let channels = (2 * (count + 1)) as u32;
    assert((((channels / 2) - 1) as u32) == count);
    let flags = widget_capabilities_flags(word);
    assert(flags == word & 0x1fff) by (bit_vector)
        requires
            flags == ((word >> 0) & 1) | (((word >> 1) & 1) << 1) | (((word >> 2) & 1) << 2)
                | (((word >> 3) & 1) << 3) | (((word >> 4) & 1) << 4) | (((word >> 5) & 1) << 5)
                | (((word >> 6) & 1) << 6) | (((word >> 7) & 1) << 7) | (((word >> 8) & 1) << 8)
                | (((word >> 9) & 1) << 9) | (((word >> 10) & 1) << 10)
                | (((word >> 11) & 1) << 11) | (((word >> 12) & 1) << 12),
    ;
    assert(((word & 0x1fff) | (((word >> 13) & 0x7) << 13) | (((word >> 16) & 0xf) << 16)
        | (((word >> 20) & 0xf) << 20)) == word & 0x00ff_ffff) by (bit_vector);
}

} // verus!
