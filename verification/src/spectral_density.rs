//! Statistics derived from a power-spectral-density estimate.
//!
//! The external Welch estimator turns one channel's raw samples into an
//! ordered sequence of (frequency, power) pairs; everything here works on
//! that sequence, carried as fixed-point integers in caller-chosen units.
//! One pass over the pairs yields the peak sample (maximum power,
//! first-seen wins on ties), the noise floor (arithmetic mean power, in
//! linear power, not decibel), the frequency step between adjacent bins,
//! and two data-quality flags: `all_match` (flat spectrum: every power
//! equal to the first) and `seems_off` (the peak sits on the very first
//! bin or the spectrum is flat, judged only when at least two segments
//! were averaged).

use vstd::prelude::*;

verus! {

/// One spectrum bin: a frequency and the power density measured there.
#[derive(Debug, Clone, Copy, PartialEq, Eq, Structural)]
pub struct SpectralDensitySample {
    pub frequency: u64,
    pub spectral_density: u64,
}

impl SpectralDensitySample {
    pub fn new(freq: u64, sd: u64) -> (r: Self)
        ensures
            r == (SpectralDensitySample { frequency: freq, spectral_density: sd }),
    {
        Self { frequency: freq, spectral_density: sd }
    }

    pub fn frequency(&self) -> (r: u64)
        ensures
            r == self.frequency,
    {
        self.frequency
    }

    pub fn spectral_density(&self) -> (r: u64)
        ensures
            r == self.spectral_density,
    {
        self.spectral_density
    }
}

/// Sum of the power values of an estimator output sequence.
pub open spec fn spec_power_sum(s: Seq<(u64, u64)>) -> int
    decreases s.len(),
{
    if s.len() == 0 {
        0
    } else {
        spec_power_sum(s.drop_last()) + s.last().1
    }
}

/// Index of the peak: the first position holding the maximum power.
pub open spec fn spec_peak_idx(s: Seq<(u64, u64)>) -> int
    decreases s.len(),
{
    if s.len() <= 1 {
        0
    } else {
        let rest = spec_peak_idx(s.drop_last());
        if s.last().1 > s[rest].1 {
            s.len() - 1
        } else {
            rest
        }
    }
}

/// A flat spectrum: every power value equals the first one.
pub open spec fn spec_all_match(s: Seq<(u64, u64)>) -> bool {
    forall|i: int| 0 <= i < s.len() ==> (#[trigger] s[i].1) == s[0].1
}

/// Frequencies come out of the estimator in ascending order.
pub open spec fn sorted_by_frequency(s: Seq<(u64, u64)>) -> bool {
    forall|i: int, j: int| 0 <= i <= j < s.len() ==> (#[trigger] s[i].0) <= (#[trigger] s[j].0)
}

/// The degeneracy heuristic: with at least two averaged segments, a
/// spectrum whose peak coincides with the very first bin, or whose power
/// values are all identical, probably carries no real signal.
pub open spec fn spec_seems_off(s: Seq<(u64, u64)>, n: usize) -> bool {
    n >= 2 && (s[spec_peak_idx(s)].0 == s[0].0 || spec_all_match(s))
}

/// The peak index lies in the sequence; its power dominates every sample,
/// strictly dominating everything before it (first-seen wins on ties).
pub proof fn lemma_peak_is_max(s: Seq<(u64, u64)>)
    requires
        s.len() > 0,
    ensures
        0 <= spec_peak_idx(s) < s.len(),
        forall|j: int| 0 <= j < s.len() ==> (#[trigger] s[j].1) <= s[spec_peak_idx(s)].1,
        forall|j: int| 0 <= j < spec_peak_idx(s) ==> (#[trigger] s[j].1) < s[spec_peak_idx(s)].1,
    decreases s.len(),
{
    if s.len() > 1 {
        lemma_peak_is_max(s.drop_last());
        assert(forall|j: int| 0 <= j < s.len() - 1 ==> (#[trigger] s[j].1) == s.drop_last()[j].1);
    }
}

/// A sum of powers each bounded by `b` is bounded by `len * b`.
pub proof fn lemma_power_sum_bound(s: Seq<(u64, u64)>, b: int)
    requires
        forall|i: int| 0 <= i < s.len() ==> (#[trigger] s[i].1) <= b,
    ensures
        0 <= spec_power_sum(s) <= s.len() * b,
    decreases s.len(),
{
    if s.len() == 0 {
    } else {
        assert(forall|i: int| 0 <= i < s.len() - 1 ==> (#[trigger] s.drop_last()[i].1) == s[i].1);
        lemma_power_sum_bound(s.drop_last(), b);
        assert((s.len() - 1) * b + b == s.len() * b) by (nonlinear_arith);
    }
}

/// A power-spectral-density estimate of one channel, with derived
/// statistics. Created once per channel; immutable afterwards.
#[allow(non_snake_case)]
#[derive(Debug, Clone)]
pub struct SpectralDensity {
    /// The sample with the maximum power; first-seen wins on ties.
    pub peak: Option<SpectralDensitySample>,
    /// Arithmetic mean power over all bins (linear power, floor division).
    pub noise_floor: u64,
    pub audio_sampling_rate: u64,
    /// Spacing between adjacent bins; 0 if fewer than 2 samples.
    pub freq_step: u64,
    /// Number of averaged segments the estimate was built from.
    pub N: usize,
    pub seems_off: bool,
    pub all_match: bool,
    pub data: Vec<SpectralDensitySample>,
}

impl SpectralDensity {
    /// Derive all statistics from the estimator's (frequency, power)
    /// pairs in a single pass.
    #[allow(non_snake_case)]
    pub fn new(data: &Vec<(u64, u64)>, audio_sampling_rate: u64, N: usize) -> (r: Self)
        requires
            data@.len() > 0,
            N >= 1,
            sorted_by_frequency(data@),
        ensures
            r.data@.len() == data@.len(),
            forall|i: int|
                0 <= i < data@.len() ==> (#[trigger] r.data@[i]) == (SpectralDensitySample {
                    frequency: data@[i].0,
                    spectral_density: data@[i].1,
                }),
            r.peak == Some(
                SpectralDensitySample {
                    frequency: data@[spec_peak_idx(data@)].0,
                    spectral_density: data@[spec_peak_idx(data@)].1,
                },
            ),
            r.noise_floor == spec_power_sum(data@) / data@.len() as int,
            r.freq_step == if data@.len() >= 2 {
                data@[1].0 - data@[0].0
            } else {
                0int
            },
            r.N == N,
            r.audio_sampling_rate == audio_sampling_rate,
            r.all_match == spec_all_match(data@),
            r.seems_off == spec_seems_off(data@, N),
    {
        let count = data.len();
        let mut samples: Vec<SpectralDensitySample> = Vec::new();
        let mut sum: u128 = 0;
        let mut pk: usize = 0;
        let mut am: bool = true;
        let mut i: usize = 0;
        while i < count
            invariant
                count == data@.len(),
                0 < count,
                i <= count,
                sorted_by_frequency(data@),
                samples@.len() == i,
                forall|k: int|
                    0 <= k < i ==> (#[trigger] samples@[k]) == (SpectralDensitySample {
                        frequency: data@[k].0,
                        spectral_density: data@[k].1,
                    }),
                sum == spec_power_sum(data@.subrange(0, i as int)),
                sum <= i * (u64::MAX as int),
                am == (forall|k: int| 0 <= k < i ==> (#[trigger] data@[k].1) == data@[0].1),
                pk < count,
                i == 0 ==> pk == 0,
                i > 0 ==> pk < i && pk == spec_peak_idx(data@.subrange(0, i as int)),
            decreases count - i,
        {
            let pair = data[i];
            proof {
                assert(data@.subrange(0, i + 1).drop_last() =~= data@.subrange(0, i as int));
                assert(data@.subrange(0, i + 1).last() == data@[i as int]);
                assert((i + 1) * (u64::MAX as int) == i * (u64::MAX as int) + u64::MAX) by (nonlinear_arith);
                assert(i * (u64::MAX as int) <= (usize::MAX as int) * (u64::MAX as int)) by (nonlinear_arith)
                    requires i <= usize::MAX as int;
            }
            sum = sum + (pair.1 as u128);
            if pair.1 > data[pk].1 {
                pk = i;
            }
            if pair.1 != data[0].1 {
                am = false;
            }
            samples.push(SpectralDensitySample { frequency: pair.0, spectral_density: pair.1 });
            i = i + 1;
        }
        proof {
            assert(data@.subrange(0, count as int) =~= data@);
        }
        let nf128: u128 = sum / (count as u128);
        proof {
            lemma_peak_is_max(data@);
            let b = data@[spec_peak_idx(data@)].1 as int;
            lemma_power_sum_bound(data@, b);
            vstd::arithmetic::div_mod::lemma_div_is_ordered(
                sum as int,
                count as int * b,
                count as int,
            );
            vstd::arithmetic::div_mod::lemma_div_multiples_vanish(b, count as int);
        }
        let noise_floor = nf128 as u64;
        let freq_step: u64 = if count > 1 {
            data[1].0 - data[0].0
        } else {
            0
        };
        let peak_pair = data[pk];
        let seems_off = N >= 2 && (peak_pair.0 == data[0].0 || am);
        Self {
            peak: Some(SpectralDensitySample { frequency: peak_pair.0, spectral_density: peak_pair.1 }),
            noise_floor,
            audio_sampling_rate,
            freq_step,
            N,
            seems_off,
            all_match: am,
            data: samples,
        }
    }

    /// Number of segments to average so that the frequency resolution
    /// stays constant across the supported sampling rates.
    pub fn get_fft_number(audio_sampling_rate: u64) -> (r: usize)
        requires
            audio_sampling_rate <= 192000,
        ensures
            r == if audio_sampling_rate <= 48000 {
                1024int
            } else {
                1024 * audio_sampling_rate / 48000
            },
    {
        if audio_sampling_rate <= 48000 {
            1024
        } else {
            proof {
                vstd::arithmetic::div_mod::lemma_div_is_ordered(
                    1024 * audio_sampling_rate as int,
                    1024int * 192000,
                    48000,
                );
            }
            ((1024 * audio_sampling_rate) / 48000) as usize
        }
    }

    /// Frequency of the peak sample: maximum power, first-seen wins on
    /// ties; 0 for an empty sequence.
    pub fn get_peak_freq(data: Vec<(u64, u64)>) -> (r: u64)
        ensures
            data@.len() > 0 ==> r == data@[spec_peak_idx(data@)].0,
            data@.len() == 0 ==> r == 0,
    {
        let count = data.len();
        if count == 0 {
            return 0;
        }
        let mut pk: usize = 0;
        let mut i: usize = 1;
        while i < count
            invariant
                count == data@.len(),
                0 < i <= count,
                pk < i,
                pk == spec_peak_idx(data@.subrange(0, i as int)),
            decreases count - i,
        {
            proof {
                assert(data@.subrange(0, i + 1).drop_last() =~= data@.subrange(0, i as int));
                assert(data@.subrange(0, i + 1).last() == data@[i as int]);
            }
            if data[i].1 > data[pk].1 {
                pk = i;
            }
            i = i + 1;
        }
        proof {
            assert(data@.subrange(0, count as int) =~= data@);
        }
        data[pk].0
    }

    /// Arithmetic mean power across all samples (linear power, floor
    /// division).
    pub fn get_noise_floor(data: Vec<(u64, u64)>) -> (r: u64)
        requires
            data@.len() > 0,
        ensures
            r == spec_power_sum(data@) / data@.len() as int,
    {
        let count = data.len();
        let mut sum: u128 = 0;
        let mut i: usize = 0;
        while i < count
            invariant
                count == data@.len(),
                i <= count,
                sum == spec_power_sum(data@.subrange(0, i as int)),
                sum <= i * (u64::MAX as int),
            decreases count - i,
        {
            proof {
                assert(data@.subrange(0, i + 1).drop_last() =~= data@.subrange(0, i as int));
                assert(data@.subrange(0, i + 1).last() == data@[i as int]);
                assert((i + 1) * (u64::MAX as int) == i * (u64::MAX as int) + u64::MAX) by (nonlinear_arith);
                assert(i * (u64::MAX as int) <= (usize::MAX as int) * (u64::MAX as int)) by (nonlinear_arith)
                    requires i <= usize::MAX as int;
            }
            sum = sum + (data[i].1 as u128);
            i = i + 1;
        }
        proof {
            assert(data@.subrange(0, count as int) =~= data@);
            lemma_power_sum_bound(data@, u64::MAX as int);
            vstd::arithmetic::div_mod::lemma_div_is_ordered(
                sum as int,
                count as int * (u64::MAX as int),
                count as int,
            );
            vstd::arithmetic::div_mod::lemma_div_multiples_vanish(u64::MAX as int, count as int);
        }
        (sum / (count as u128)) as u64
    }
}

/// A spectrum of a single sample is its own trivial statistic: the noise
/// floor equals that sample's power and the peak is that sample.
pub proof fn lemma_single_sample_spectrum(s: Seq<(u64, u64)>)
    requires
        s.len() == 1,
    ensures
        spec_power_sum(s) / s.len() as int == s[0].1,
        spec_peak_idx(s) == 0,
{
    assert(spec_power_sum(s) == spec_power_sum(s.drop_last()) + s.last().1);
    assert(spec_power_sum(s.drop_last()) == 0);
    assert(spec_power_sum(s) == s[0].1);
    vstd::arithmetic::div_mod::lemma_div_multiples_vanish(s[0].1 as int, 1);
}

/// A flat spectrum is flat everywhere: when every power equals the first,
/// every pair of powers is equal.
pub proof fn lemma_all_match_flat(s: Seq<(u64, u64)>)
    requires
        spec_all_match(s),
    ensures
        forall|i: int, j: int|
            0 <= i < s.len() && 0 <= j < s.len() ==> (#[trigger] s[i].1) == (#[trigger] s[j].1),
{
}

/// Sum of the power values of a derived sample sequence.
pub open spec fn spec_sample_power_sum(s: Seq<SpectralDensitySample>) -> int
    decreases s.len(),
{
    if s.len() == 0 {
        0
    } else {
        spec_sample_power_sum(s.drop_last()) + s.last().spectral_density
    }
}

/// Re-deriving the noise floor from the returned sample sequence gives
/// back the reported one: the power sum over the derived samples equals
/// the power sum over the estimator pairs they mirror.
pub proof fn lemma_noise_floor_rederivable(pairs: Seq<(u64, u64)>, samples: Seq<SpectralDensitySample>)
    requires
        samples.len() == pairs.len(),
        forall|i: int|
            0 <= i < pairs.len() ==> (#[trigger] samples[i]).spectral_density == pairs[i].1,
    ensures
        spec_sample_power_sum(samples) == spec_power_sum(pairs),
    decreases pairs.len(),
{
    if pairs.len() > 0 {
        assert(forall|i: int|
            0 <= i < pairs.len() - 1 ==> (#[trigger] samples.drop_last()[i]).spectral_density
                == pairs.drop_last()[i].1);
        lemma_noise_floor_rederivable(pairs.drop_last(), samples.drop_last());
    }
}

} // verus!
