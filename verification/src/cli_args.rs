//! Command-line settings of the two receiver commands, and the tuner gain
//! mode that they select.

use vstd::prelude::*;

verus! {

/// AAC decoder backend.
#[derive(Debug, Clone, Copy, PartialEq, Eq, Structural)]
pub enum AacBackend {
    Faad2,
    FdkAac,
}

/// Settings of the channel scan.
#[derive(Debug, Clone)]
pub struct ScanArgs {
    /// DAB channel to scan (e.g. 5A, 6C, 11C, 12C).
    pub channel: String,
    /// Gain in percent (0..100); software AGC when absent.
    pub gain: Option<i16>,
    /// Use the tuner's built-in hardware AGC.
    pub hardware_agc: bool,
    /// Frequency correction in ppm.
    pub ppm: i32,
    /// Time sync timeout in seconds.
    pub sync_time: i16,
    /// Ensemble detection timeout in seconds.
    pub detect_time: i16,
    /// Device index.
    pub device_index: u32,
    /// No log output.
    pub silent: bool,
}

/// Settings of the DAB+ to PCM decoder.
#[derive(Debug, Clone)]
pub struct Iq2pcmArgs {
    /// DAB channel (e.g. 5A, 6C, 11C, 12C).
    pub channel: String,
    /// Gain in percent (0..100); software AGC when absent.
    pub gain: Option<i16>,
    /// Use the tuner's built-in hardware AGC.
    pub hardware_agc: bool,
    /// Use the driver's AGC mode.
    pub driver_agc: bool,
    /// Use the software AGC loop explicitly.
    pub software_agc: bool,
    /// Frequency correction in ppm.
    pub ppm: i32,
    /// Time sync timeout in seconds.
    pub sync_time: i16,
    /// Ensemble detection timeout in seconds.
    pub detect_time: i16,
    /// Service id to play (hex, e.g. 0xF2F8).
    pub sid: String,
    /// Service label to play (matched by name).
    pub label: Option<String>,
    /// No dynamic FIC messages on stderr.
    pub disable_dyn_fic: bool,
    /// Emit nothing instead of silence during radio fades.
    pub no_silence_fill: bool,
    /// Directory for slideshow images.
    pub slide_dir: Option<String>,
    /// Slideshow payloads as base64 on the metadata channel.
    pub slide_base64: bool,
    /// No log output.
    pub silent: bool,
    /// OFDM trace logs.
    pub trace_ofdm: bool,
    /// Device index.
    pub device_index: u32,
    /// Tune above the channel and rotate back digitally.
    pub offset_tuning: bool,
    /// No IQ imbalance correction.
    pub no_iq_correction: bool,
    /// AAC decoder backend.
    pub aac_decoder: AacBackend,
}

/// How the tuner gain is controlled.
#[derive(Debug, Clone, Copy, PartialEq, Eq, Structural)]
pub enum GainMode {
    /// The tuner chip's own AGC.
    Hardware,
    /// The driver's AGC.
    Driver,
    /// A fixed gain, in percent of the gain table.
    Manual(i16),
    /// The receiver's software AGC loop.
    Software,
}

/// Gain mode of the decoder: hardware AGC, else driver AGC, else the given
/// gain, else software AGC.
pub fn iq2pcm_gain_mode(args: &Iq2pcmArgs) -> (m: GainMode)
    ensures
        m == (if args.hardware_agc { GainMode::Hardware }
            else if args.driver_agc { GainMode::Driver }
            else if args.gain is Some { GainMode::Manual(args.gain->0) }
            else { GainMode::Software }),
{
    if args.hardware_agc {
        GainMode::Hardware
    } else if args.driver_agc {
        GainMode::Driver
    } else if let Some(pct) = args.gain {
        GainMode::Manual(pct)
    } else {
        GainMode::Software
    }
}

/// Gain mode of the scan: hardware AGC, else the given gain, else
/// software AGC.
pub fn scan_gain_mode(args: &ScanArgs) -> (m: GainMode)
    ensures
        m == (if args.hardware_agc { GainMode::Hardware }
            else if args.gain is Some { GainMode::Manual(args.gain->0) }
            else { GainMode::Software }),
{
    if args.hardware_agc {
        GainMode::Hardware
    } else if let Some(pct) = args.gain {
        GainMode::Manual(pct)
    } else {
        GainMode::Software
    }
}

} // verus!
