//! Immutable description of a sound device: sample format, nominal
//! sampling rate and requested period size.

use vstd::prelude::*;

verus! {

broadcast use vstd::string::group_string_axioms;

/// Sample format of the device: 16-, 24- or 32-bit integer frames.
#[derive(Debug, Clone, Copy, PartialEq, Eq, Structural)]
pub enum Format {
    B16,
    B24,
    B32,
}

impl Format {
    /// Number of bytes one sample of this format occupies.
    pub open spec fn spec_bytes(self) -> usize {
        match self {
            Format::B16 => 2,
            Format::B24 => 3,
            Format::B32 => 4,
        }
    }

    pub fn get_bytes(&self) -> (r: usize)
        ensures
            r == self.spec_bytes(),
    {
        match self {
            Format::B16 => 2,
            Format::B24 => 3,
            Format::B32 => 4,
        }
    }
}

/// The nominal sampling rates the pipeline supports. Keeping the rate an
/// enumerated value (never an arbitrary integer) keeps the frequency-domain
/// arithmetic exact for the common audio rates.
#[derive(Debug, Clone, Copy, PartialEq, Eq, Structural)]
pub enum SamplingRate {
    Hz44100,
    Hz48000,
    Hz96000,
    Hz192000,
}

pub const SAMPLING_RATE_44100: usize = 44100;

pub const SAMPLING_RATE_48000: usize = 48000;

pub const SAMPLING_RATE_96000: usize = 96000;

pub const SAMPLING_RATE_192000: usize = 192000;

impl SamplingRate {
    /// The rate in frames per second.
    pub open spec fn spec_value(self) -> usize {
        match self {
            SamplingRate::Hz44100 => 44100,
            SamplingRate::Hz48000 => 48000,
            SamplingRate::Hz96000 => 96000,
            SamplingRate::Hz192000 => 192000,
        }
    }

    pub fn value(&self) -> (r: usize)
        ensures
            r == self.spec_value(),
    {
        match self {
            SamplingRate::Hz48000 => SAMPLING_RATE_48000,
            SamplingRate::Hz96000 => SAMPLING_RATE_96000,
            SamplingRate::Hz192000 => SAMPLING_RATE_192000,
            SamplingRate::Hz44100 => SAMPLING_RATE_44100,
        }
    }

    /// The rate as a measurement scalar, for use in frequency-domain
    /// arithmetic.
    pub fn sample_value(&self) -> (r: u64)
        ensures
            r == self.spec_value(),
    {
        self.value() as u64
    }

    /// The rate whose nominal value is `value`; an unrecognized value falls
    /// back to the lowest supported rate.
    pub fn label(value: usize) -> (r: Self)
        ensures
            value == 48000 ==> r == SamplingRate::Hz48000,
            value == 96000 ==> r == SamplingRate::Hz96000,
            value == 192000 ==> r == SamplingRate::Hz192000,
            value != 48000 && value != 96000 && value != 192000 ==> r == SamplingRate::Hz44100,
    {
        if value == SAMPLING_RATE_48000 {
            SamplingRate::Hz48000
        } else if value == SAMPLING_RATE_96000 {
            SamplingRate::Hz96000
        } else if value == SAMPLING_RATE_192000 {
            SamplingRate::Hz192000
        } else {
            SamplingRate::Hz44100
        }
    }
}

/// Immutable description of a physical device. Cloned per session; never
/// mutated after construction.
#[derive(Debug, Clone)]
pub struct SoundCardConfig {
    pub device_id: String,
    pub format: Format,
    pub sampling_rate: SamplingRate,
    pub period_size: usize,
}

impl SoundCardConfig {
    /// The configuration invariant: a period holds at least one frame.
    pub open spec fn well_formed(self) -> bool {
        self.period_size > 0
    }

    pub fn new(device_id: &str, format: Format, sampling_rate: SamplingRate, period_size: usize) -> (r: Self)
        requires
            period_size > 0,
        ensures
            r.device_id@ == device_id@,
            r.format == format,
            r.sampling_rate == sampling_rate,
            r.period_size == period_size,
            r.well_formed(),
    {
        Self { device_id: device_id.to_string(), format, sampling_rate, period_size }
    }
}

} // verus!
