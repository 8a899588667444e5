use dabctl::cli_args::{iq2pcm_gain_mode, scan_gain_mode, AacBackend, GainMode, Iq2pcmArgs, ScanArgs};

fn scan_args(gain: Option<i16>, hardware_agc: bool) -> ScanArgs {
    ScanArgs {
        channel: "6C".to_string(),
        gain,
        hardware_agc,
        ppm: 0,
        sync_time: 5,
        detect_time: 10,
        device_index: 0,
        silent: false,
    }
}

fn iq2pcm_args(gain: Option<i16>, hardware_agc: bool, driver_agc: bool, software_agc: bool) -> Iq2pcmArgs {
    Iq2pcmArgs {
        channel: "6C".to_string(),
        gain,
        hardware_agc,
        driver_agc,
        software_agc,
        ppm: 0,
        sync_time: 5,
        detect_time: 10,
        sid: "0xF2F8".to_string(),
        label: None,
        disable_dyn_fic: false,
        no_silence_fill: false,
        slide_dir: None,
        slide_base64: false,
        silent: false,
        trace_ofdm: false,
        device_index: 0,
        offset_tuning: false,
        no_iq_correction: false,
        aac_decoder: AacBackend::Faad2,
    }
}

#[test]
fn scan_gain_mode_prefers_hardware_agc_then_manual_gain() {
    assert_eq!(scan_gain_mode(&scan_args(None, true)), GainMode::Hardware);
    assert_eq!(scan_gain_mode(&scan_args(Some(30), false)), GainMode::Manual(30));
    assert_eq!(scan_gain_mode(&scan_args(None, false)), GainMode::Software);
}

#[test]
fn iq2pcm_gain_mode_follows_flag_priority() {
    assert_eq!(iq2pcm_gain_mode(&iq2pcm_args(None, true, false, false)), GainMode::Hardware);
    assert_eq!(iq2pcm_gain_mode(&iq2pcm_args(None, false, true, false)), GainMode::Driver);
    assert_eq!(iq2pcm_gain_mode(&iq2pcm_args(Some(45), false, false, false)), GainMode::Manual(45));
    assert_eq!(iq2pcm_gain_mode(&iq2pcm_args(None, false, false, true)), GainMode::Software);
    assert_eq!(iq2pcm_gain_mode(&iq2pcm_args(None, false, false, false)), GainMode::Software);
}
