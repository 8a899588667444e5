//! Basic DAB types: transmission modes, bands, channels, synchronisation
//! states, protection levels, service types and the receiver configuration.

use vstd::prelude::*;
use vstd::string::StrSliceExecFns;
use crate::dab_params::mode_table;

verus! {

/// DAB transmission modes (Mode I is the common one).
#[derive(Debug, Clone, Copy, PartialEq, Eq, Structural, Hash)]
pub enum DabMode {
    /// Mode I: standard DAB.
    ModeI,
    /// Mode II: reduced FFT.
    ModeII,
    /// Mode III: L band.
    ModeIII,
    /// Mode IV: L band, reduced FFT.
    ModeIV,
}

impl DabMode {
    /// The mode's number in the standard (1 to 4).
    pub open spec fn number(self) -> i16 {
        match self {
            DabMode::ModeI => 1,
            DabMode::ModeII => 2,
            DabMode::ModeIII => 3,
            DabMode::ModeIV => 4,
        }
    }

    /// FFT size of the mode (the useful symbol length T_u of Table 38).
    pub fn fft_size(&self) -> (n: u16)
        ensures
            n as int == mode_table(self.number()).5,
    {
        match self {
            DabMode::ModeI => 2048,
            DabMode::ModeII => 512,
            DabMode::ModeIII => 256,
            DabMode::ModeIV => 1024,
        }
    }

    /// Cyclic prefix length of the mode (the guard interval T_g).
    pub fn cyclic_prefix_len(&self) -> (n: u16)
        ensures
            n as int == mode_table(self.number()).6,
    {
        match self {
            DabMode::ModeI => 504,
            DabMode::ModeII => 126,
            DabMode::ModeIII => 63,
            DabMode::ModeIV => 252,
        }
    }

    /// OFDM symbols per frame (L, the null symbol not counted).
    pub fn symbols_per_frame(&self) -> (n: u16)
        ensures
            n as int == mode_table(self.number()).0,
    {
        match self {
            DabMode::ModeIII => 153,
            DabMode::ModeI | DabMode::ModeII | DabMode::ModeIV => 76,
        }
    }

    /// Human-readable name ("Mode I" … "Mode IV").
    pub fn label(&self) -> (s: &'static str)
        ensures
            *self == DabMode::ModeI ==> s@ == "Mode I"@,
            *self == DabMode::ModeII ==> s@ == "Mode II"@,
            *self == DabMode::ModeIII ==> s@ == "Mode III"@,
            *self == DabMode::ModeIV ==> s@ == "Mode IV"@,
    {
        match self {
            DabMode::ModeI => "Mode I",
            DabMode::ModeII => "Mode II",
            DabMode::ModeIII => "Mode III",
            DabMode::ModeIV => "Mode IV",
        }
    }
}

/// DAB frequency bands.
#[derive(Debug, Clone, Copy, PartialEq, Eq, Structural, Hash)]
pub enum DabBand {
    /// Band III (174–240 MHz).
    BandIII,
    /// L band (1452–1492 MHz).
    BandL,
}

impl DabBand {
    /// Human-readable name.
    pub fn label(&self) -> (s: &'static str)
        ensures
            *self == DabBand::BandIII ==> s@ == "Band III"@,
            *self == DabBand::BandL ==> s@ == "Band L"@,
    {
        match self {
            DabBand::BandIII => "Band III",
            DabBand::BandL => "Band L",
        }
    }
}

/// A DAB channel and its frequency.
#[derive(Debug, Clone, PartialEq, Eq, Hash)]
pub struct DabChannel {
    pub name: String,
    pub band: DabBand,
    pub frequency_hz: u32,
}

/// Channel names are taken as given; they are never rejected.
#[derive(Debug, Clone, Copy, PartialEq, Eq, Structural)]
pub struct ChannelParseError;

impl DabChannel {
    pub fn new(name: String, band: DabBand, frequency_hz: u32) -> (c: Self)
        ensures c.name@ == name@, c.band == band, c.frequency_hz == frequency_hz,
    {
        DabChannel { name, band, frequency_hz }
    }

    /// The channel name as given, with frequency 0 (resolved later from the
    /// band table).
    pub fn from_string(s: &str) -> (r: Result<(String, u32), ChannelParseError>)
        ensures r matches Ok(v) && v.0@ == s@ && v.1 == 0,
    {
        Ok((s.to_owned(), 0))
    }
}

/// OFDM synchronisation states.
#[derive(Debug, Clone, Copy, PartialEq, Eq, Structural)]
pub enum SyncState {
    /// Not synchronised, searching.
    Searching,
    /// Frequency locked, searching the phase.
    FreqSync,
    /// Fully synchronised.
    Synced,
    /// Synchronisation lost.
    Lost,
}

impl SyncState {
    /// Name of the state.
    pub fn label(&self) -> (s: &'static str)
        ensures
            *self == SyncState::Searching ==> s@ == "Searching"@,
            *self == SyncState::FreqSync ==> s@ == "FreqSync"@,
            *self == SyncState::Synced ==> s@ == "Synced"@,
            *self == SyncState::Lost ==> s@ == "Lost"@,
    {
        match self {
            SyncState::Searching => "Searching",
            SyncState::FreqSync => "FreqSync",
            SyncState::Synced => "Synced",
            SyncState::Lost => "Lost",
        }
    }
}

/// Protection of a sub-channel: unequal or equal, with its level.
#[derive(Debug, Clone, Copy, PartialEq, Eq, Structural)]
pub enum ProtectionLevel {
    Uep(u8),
    Eep(u8),
}

/// Kind of service.
#[derive(Debug, Clone, Copy, PartialEq, Eq, Structural)]
pub enum ServiceType {
    Audio,
    Data,
    Other,
}

/// Receiver configuration.
#[derive(Debug, Clone)]
pub struct DabConfig {
    pub mode: DabMode,
    pub band: DabBand,
    /// Channel to receive.
    pub channel: String,
    /// Gain, 0–100 %.
    pub gain_percent: u32,
    /// Frequency correction in ppm.
    pub ppm_correction: i32,
    pub autogain: bool,
    pub device_index: u32,
    pub silent: bool,
}

impl Default for DabConfig {
    /// Mode I, Band III, channel 11C, 50 % gain, no correction.
    fn default() -> (c: Self)
        ensures
            c.mode == DabMode::ModeI,
            c.band == DabBand::BandIII,
            c.channel@ == "11C"@,
            c.gain_percent == 50,
            c.ppm_correction == 0,
            !c.autogain,
            c.device_index == 0,
            !c.silent,
    {
        DabConfig {
            mode: DabMode::ModeI,
            band: DabBand::BandIII,
            channel: "11C".to_owned(),
            gain_percent: 50,
            ppm_correction: 0,
            autogain: false,
            device_index: 0,
            silent: false,
        }
    }
}

/// FFT sizes in use.
#[derive(Debug, Clone, Copy, PartialEq, Eq, Structural)]
pub enum FftSize {
    Size256,
    Size512,
    Size1024,
    Size2048,
}

impl FftSize {
    /// Number of points.
    pub fn as_usize(&self) -> (n: usize)
        ensures n == (match *self { FftSize::Size256 => 256usize, FftSize::Size512 => 512, FftSize::Size1024 => 1024, FftSize::Size2048 => 2048 }),
    {
        match self {
            FftSize::Size256 => 256,
            FftSize::Size512 => 512,
            FftSize::Size1024 => 1024,
            FftSize::Size2048 => 2048,
        }
    }
}

/// Whether two strings hold the same characters.
pub fn str_equal(a: &str, b: &str) -> (r: bool)
    ensures r == (a@ == b@),
{
    let n = a.unicode_len();
    if n != b.unicode_len() {
        return false;
    }
    let mut i: usize = 0;
    while i < n
        invariant
            i <= n,
            n == a@.len(),
            n == b@.len(),
            forall|t: int| 0 <= t < i ==> a@[t] == b@[t],
        decreases n - i,
    {
        if a.get_char(i) != b.get_char(i) {
            return false;
        }
        i = i + 1;
    }
    assert(a@ =~= b@);
    true
}

} // verus!
