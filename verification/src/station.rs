//! Known transmitter stations and the mapping of their nominal
//! frequencies onto spectrum bins.

use vstd::prelude::*;

verus! {

broadcast use vstd::string::group_string_axioms;

/// The bin nearest to frequency `f` for bins spaced `s` apart, with
/// round-half-up tie-breaking: a remainder of exactly half a bin width
/// rounds to the next bin, never down. `f` and `s` are in the same unit.
pub open spec fn spec_bin(f: int, s: int) -> int {
    f / s + if 2 * (f % s) >= s {
        1int
    } else {
        0int
    }
}

/// A known station being monitored: callsign, display tag and nominal
/// frequency. Static for a whole monitoring run.
#[derive(Debug, Clone)]
pub struct StationConfig {
    pub callsign: String,
    pub color: char,
    pub frequency: usize,
}

impl StationConfig {
    pub fn new(callsign: &str, color: char, frequency: usize) -> (r: Self)
        ensures
            r.callsign@ == callsign@,
            r.color == color,
            r.frequency == frequency,
    {
        Self { callsign: callsign.to_string(), color, frequency }
    }

    /// Index of the spectrum bin nearest this station's frequency, given
    /// the spacing between adjacent bins (in the same unit as the
    /// frequency). A pure function of (frequency, spacing).
    pub fn get_bin(&self, freq_per_step: usize) -> (bin: usize)
        requires
            freq_per_step > 0,
        ensures
            bin == spec_bin(self.frequency as int, freq_per_step as int),
    {
        let q = self.frequency / freq_per_step;
        let rem = self.frequency % freq_per_step;
        if rem >= freq_per_step - rem {
            proof {
                vstd::arithmetic::div_mod::lemma_div_is_ordered_by_denominator(
                    self.frequency as int,
                    2,
                    freq_per_step as int,
                );
            }
            q + 1
        } else {
            q
        }
    }
}

/// Bin mapping is monotonic: a station at a higher frequency never maps
/// to a lower bin.
pub proof fn lemma_bin_monotonic(f1: int, f2: int, s: int)
    requires
        0 <= f1 <= f2,
        0 < s,
    ensures
        spec_bin(f1, s) <= spec_bin(f2, s),
{
    vstd::arithmetic::div_mod::lemma_div_is_ordered(f1, f2, s);
    vstd::arithmetic::div_mod::lemma_fundamental_div_mod(f1, s);
    vstd::arithmetic::div_mod::lemma_fundamental_div_mod(f2, s);
    vstd::arithmetic::div_mod::lemma_mod_bound(f1, s);
    vstd::arithmetic::div_mod::lemma_mod_bound(f2, s);
}

/// Bin mapping is exact on the bin lattice: a frequency lying exactly on
/// bin `k` maps to bin `k`, so mapping a bin's own frequency is
/// idempotent.
pub proof fn lemma_bin_exact_on_lattice(k: int, s: int)
    requires
        0 <= k,
        0 < s,
    ensures
        spec_bin(k * s, s) == k,
{
    assert(k * s == s * k) by (nonlinear_arith);
    vstd::arithmetic::div_mod::lemma_div_multiples_vanish(k, s);
    assert((k * s) / s == k);
    vstd::arithmetic::div_mod::lemma_mod_multiples_vanish(k, 0, s);
    vstd::arithmetic::div_mod::lemma_small_mod(0nat, s as nat);
    assert((k * s) % s == 0);
}

/// One measurement pass of the monitor: the raw capture, the spectrum of
/// each channel, and the samples picked out at the known stations' bins.
pub struct SuperSid {
    pub raw_data: Vec<crate::sound_card::ChannelData>,
    pub spectrum: Vec<crate::spectral_density::SpectralDensity>,
    pub station_data: Vec<crate::spectral_density::SpectralDensitySample>,
}

/// Cross-reference a spectrum against the known stations: for each
/// station, the spectrum sample at the bin nearest its frequency, or
/// `None` where the spectrum does not reach that far. Station frequencies
/// must be in the same unit as the spectrum's `freq_step`.
pub fn station_samples(
    spectrum: &crate::spectral_density::SpectralDensity,
    stations: &Vec<StationConfig>,
) -> (r: Vec<Option<crate::spectral_density::SpectralDensitySample>>)
    requires
        0 < spectrum.freq_step <= usize::MAX,
    ensures
        r@.len() == stations@.len(),
        forall|i: int|
            0 <= i < stations@.len() ==> (#[trigger] r@[i]) == {
                let bin = spec_bin(stations@[i].frequency as int, spectrum.freq_step as int);
                if bin < spectrum.data@.len() {
                    Some(spectrum.data@[bin])
                } else {
                    None
                }
            },
{
    let mut r: Vec<Option<crate::spectral_density::SpectralDensitySample>> = Vec::new();
    let step = spectrum.freq_step as usize;
    let mut i: usize = 0;
    while i < stations.len()
        invariant
            0 < spectrum.freq_step <= usize::MAX,
            step == spectrum.freq_step,
            i <= stations@.len(),
            r@.len() == i,
            forall|j: int|
                0 <= j < i ==> (#[trigger] r@[j]) == {
                    let bin = spec_bin(stations@[j].frequency as int, spectrum.freq_step as int);
                    if bin < spectrum.data@.len() {
                        Some(spectrum.data@[bin])
                    } else {
                        None
                    }
                },
        decreases stations@.len() - i,
    {
        let bin = stations[i].get_bin(step);
        if bin < spectrum.data.len() {
            r.push(Some(spectrum.data[bin]));
        } else {
            r.push(None);
        }
        i = i + 1;
    }
    r
}

/// Number of segments to average so that the frequency resolution of the
/// Welch estimate stays constant across the supported sampling rates:
/// 1024 at or below 48 kHz, scaling linearly above that.
#[allow(non_snake_case)]
pub fn get_N(audio_sampling_rate: u64) -> (r: usize)
    requires
        audio_sampling_rate <= 192000,
    ensures
        r == if audio_sampling_rate <= 48000 {
            1024int
        } else {
            1024 * audio_sampling_rate / 48000
        },
{
    if audio_sampling_rate <= 48000 {
        1024
    } else {
        proof {
            vstd::arithmetic::div_mod::lemma_div_is_ordered(
                1024 * audio_sampling_rate as int,
                1024int * 192000,
                48000,
            );
        }
        ((1024 * audio_sampling_rate) / 48000) as usize
    }
}

} // verus!
