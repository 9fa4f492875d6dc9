use efi_hda::hda::{
    AmpCapabilities, AmpGain, GlobalCapabilities, PinCapabilities, PinConfig,
    VolumeKnobCapabilities, WidgetCapabilities,
};

#[test]
fn global_capabilities_decode() {
    let gcap = GlobalCapabilities::from(0x2101);
    assert_eq!(gcap.out_streams(), 2);
    assert_eq!(gcap.in_streams(), 1);
    assert_eq!(gcap.bd_streams(), 0);
    assert_eq!(gcap.sdo_signals(), 0);
    assert!(gcap.ok_64());
}

#[test]
fn global_capabilities_all_fields() {
    // out 4, in 4, bidirectional 3, two SDO signals (field value 1), no 64-bit
    let gcap = GlobalCapabilities::from(0x4400 | (3 << 3) | (1 << 1));
    assert_eq!(gcap.out_streams(), 4);
    assert_eq!(gcap.in_streams(), 4);
    assert_eq!(gcap.bd_streams(), 3);
    assert_eq!(gcap.sdo_signals(), 1);
    assert!(!gcap.ok_64());
    let all = GlobalCapabilities::from(0xffff);
    assert_eq!(all.out_streams(), 15);
    assert_eq!(all.in_streams(), 15);
    assert_eq!(all.bd_streams(), 31);
    assert_eq!(all.sdo_signals(), 3);
    assert!(all.ok_64());
}

#[test]
fn volume_knob_fields() {
    let knob = VolumeKnobCapabilities::from(0x0000_00ff);
    assert_eq!(knob.num_steps(), 0x7f);
    assert!(knob.delta());
    let knob = VolumeKnobCapabilities::from(0xffff_ff25);
    assert_eq!(knob.num_steps(), 0x25);
    assert!(!knob.delta());
}

#[test]
fn amp_gain_fields() {
    let gain = AmpGain::from(0x80 | 0x1f);
    assert_eq!(gain.gain(), 0x1f);
    assert!(gain.mute());
    let gain = AmpGain::from(0x7f);
    assert_eq!(gain.gain(), 0x7f);
    assert!(!gain.mute());
}

#[test]
fn amp_capabilities_fields() {
    let caps = AmpCapabilities::from(0x8005_1f4a);
    assert_eq!(caps.offset(), 0x4a);
    assert_eq!(caps.num_steps(), 0x1f);
    assert_eq!(caps.step_size(), 0x05);
    assert!(caps.mute());
    let caps = AmpCapabilities::from(0x7fff_ffff);
    assert_eq!(caps.offset(), 0x7f);
    assert_eq!(caps.num_steps(), 0x7f);
    assert_eq!(caps.step_size(), 0x7f);
    assert!(!caps.mute());
}

#[test]
fn pin_capabilities_fields() {
    let caps = PinCapabilities::from(0x0901_ab5f);
    assert_eq!(caps.impedance_sense_capable(), 1);
    assert_eq!(caps.trigger_required(), 1);
    assert_eq!(caps.presence_detect_capable(), 1);
    assert_eq!(caps.headphone_drive_capable(), 1);
    assert_eq!(caps.output_capable(), 1);
    assert_eq!(caps.input_capable(), 0);
    assert!(caps.balanced_io_pins());
    assert_eq!(caps.hdmi(), 0);
    assert_eq!(caps.vref_control(), 0xab);
    assert!(caps.eapd_capable());
    assert_eq!(caps.display_port(), 1);
    assert_eq!(caps.high_bit_rate(), 1);
    let none = PinCapabilities::from(0);
    assert_eq!(none.presence_detect_capable(), 0);
    assert!(!none.eapd_capable());
    assert!(!none.balanced_io_pins());
}

#[test]
fn pin_config_fields() {
    // a green headphone jack at the front: port 0, location 2, device 2 (HP out),
    // type 1, colour 4, misc 0, association 1, sequence 15
    let cfg = PinConfig::from(0x0221_401f);
    assert_eq!(cfg.port_connectivity(), 0);
    assert_eq!(cfg.location(), 0x02);
    assert_eq!(cfg.device(), 0x2);
    assert_eq!(cfg.typ(), 0x1);
    assert_eq!(cfg.color(), 0x4);
    assert_eq!(cfg.misc(), 0x0);
    assert_eq!(cfg.association(), 0x1);
    assert_eq!(cfg.sequence(), 0xf);
    let cfg = PinConfig::from(0xffff_ffff);
    assert_eq!(cfg.port_connectivity(), 3);
    assert_eq!(cfg.location(), 0x3f);
}

fn pin_config_word(cfg: &PinConfig) -> u32 {
    cfg.sequence()
        | (cfg.association() << 4)
        | (cfg.misc() << 8)
        | (cfg.color() << 12)
        | (cfg.typ() << 16)
        | (cfg.device() << 20)
        | (cfg.location() << 24)
        | (cfg.port_connectivity() << 30)
}

#[test]
fn pin_config_round_trip() {
    for word in [0u32, 1, 0x0221_401f, 0x9017_0110, 0xdead_beef, 0x8000_0000, 0xffff_ffff] {
        assert_eq!(pin_config_word(&PinConfig::from(word)), word);
    }
}

fn widget_word(caps: &WidgetCapabilities) -> u32 {
    caps.stereo()
        | (caps.in_amp_present() << 1)
        | (caps.out_amp_present() << 2)
        | (caps.amp_param_override() << 3)
        | (caps.format_override() << 4)
        | (caps.stripe() << 5)
        | (caps.proc_widget() << 6)
        | (caps.unsol_capable() << 7)
        | (caps.connection_list() << 8)
        | (caps.digital() << 9)
        | (caps.power_ctl() << 10)
        | (caps.lr_swap() << 11)
        | (caps.cp_caps() << 12)
        | ((caps.channels() / 2 - 1) << 13)
        | (caps.delay() << 16)
        | (caps.typ() << 20)
}

#[test]
fn widget_capabilities_round_trip() {
    for word in [0u32, 0x0040_058d, 0x0010_0711, 0xdead_beef, 0xffff_ffff, 0x00ff_ffff] {
        assert_eq!(widget_word(&WidgetCapabilities::from(word)), word & 0x00ff_ffff);
    }
}

#[test]
fn widget_capabilities_fields() {
    let caps = WidgetCapabilities::from(0x0040_058d);
    assert_eq!(caps.typ(), 4);
    assert_eq!(caps.channels(), 2);
    assert_eq!(caps.stereo(), 1);
    assert_eq!(caps.in_amp_present(), 0);
    assert_eq!(caps.out_amp_present(), 1);
    assert_eq!(caps.amp_param_override(), 1);
    assert_eq!(caps.format_override(), 0);
    assert_eq!(caps.stripe(), 0);
    assert_eq!(caps.proc_widget(), 0);
    assert_eq!(caps.unsol_capable(), 1);
    assert_eq!(caps.connection_list(), 1);
    assert_eq!(caps.digital(), 0);
    assert_eq!(caps.power_ctl(), 1);
    assert_eq!(caps.lr_swap(), 0);
    assert_eq!(caps.cp_caps(), 0);
    assert_eq!(caps.delay(), 0);
    let wide = WidgetCapabilities::from(0x000f_e000);
    assert_eq!(wide.channels(), 16);
    assert_eq!(wide.delay(), 0xf);
}
