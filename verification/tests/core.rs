use supersid::config::Format;
use supersid::config::SamplingRate;
use supersid::config::SoundCardConfig;
use supersid::math::i24;
use supersid::math::u24;
use supersid::sound_card::plan_playback;
use supersid::sound_card::target_frames;
use supersid::sound_card::ChannelData;
use supersid::sound_card::HardwareRequest;
use supersid::sound_card::RecordSession;
use supersid::sound_card::UsageError;
use supersid::spectral_density::SpectralDensity;
use supersid::spectral_density::SpectralDensitySample;
use supersid::station::get_N;
use supersid::station::StationConfig;

#[test]
fn format_byte_widths() {
    assert_eq!(Format::B16.get_bytes(), 2);
    assert_eq!(Format::B24.get_bytes(), 3);
    assert_eq!(Format::B32.get_bytes(), 4);
}

#[test]
fn sampling_rate_values_and_labels() {
    assert_eq!(SamplingRate::Hz44100.value(), 44100);
    assert_eq!(SamplingRate::Hz48000.value(), 48000);
    assert_eq!(SamplingRate::Hz96000.value(), 96000);
    assert_eq!(SamplingRate::Hz192000.value(), 192000);
    assert_eq!(SamplingRate::Hz192000.sample_value(), 192000u64);
    assert_eq!(SamplingRate::label(48000), SamplingRate::Hz48000);
    assert_eq!(SamplingRate::label(96000), SamplingRate::Hz96000);
    assert_eq!(SamplingRate::label(192000), SamplingRate::Hz192000);
    assert_eq!(SamplingRate::label(12345), SamplingRate::Hz44100);
}

#[test]
fn sound_card_config_fields() {
    let c = SoundCardConfig::new("hw:CARD=test,DEV=0", Format::B32, SamplingRate::Hz192000, 1920);
    assert_eq!(c.device_id, "hw:CARD=test,DEV=0");
    assert_eq!(c.format, Format::B32);
    assert_eq!(c.sampling_rate, SamplingRate::Hz192000);
    assert_eq!(c.period_size, 1920);
}

#[test]
fn i24_sign_extension() {
    assert_eq!(i24::new_bytes(0xFF, 0xFF, 0xFF).value_to_i32(), -1);
    assert_eq!(i24::new_bytes(0x80, 0x00, 0x00).value_to_i32(), -8388608);
    assert_eq!(i24::new_bytes(0x7F, 0xFF, 0xFF).value_to_i32(), 8388607);
    assert_eq!(i24::new_bytes(0x00, 0x00, 0x00).value_to_i32(), 0);
    assert_eq!(i24::new_bytes(0x12, 0x34, 0x56).value_to_i32(), 0x123456);
}

#[test]
fn i24_from_i32_keeps_low_bytes() {
    let v = i24::value_from_i32(-1);
    assert_eq!((v.first_byte, v.second_byte, v.third_byte), (0xFF, 0xFF, 0xFF));
    let v = i24::value_from_i32(0x123456);
    assert_eq!((v.first_byte, v.second_byte, v.third_byte), (0x12, 0x34, 0x56));
    let v = i24::value_from_i32(-8388608);
    assert_eq!((v.first_byte, v.second_byte, v.third_byte), (0x80, 0x00, 0x00));
}

#[test]
fn i24_round_trip() {
    for val in [-8388608, -1, 0, 1, 42, 8388607, -424242] {
        assert_eq!(i24::value_from_i32(val).value_to_i32(), val);
    }
}

#[test]
fn i24_from_slice() {
    let v = i24::new(&[0x01, 0x02, 0x03]);
    assert_eq!((v.first_byte, v.second_byte, v.third_byte), (0x01, 0x02, 0x03));
}

#[test]
fn u24_conversions() {
    assert_eq!(u24::new_bytes(0x12, 0x34, 0x56).value_to_u32(), 0x123456);
    assert_eq!(u24::new_bytes(0xFF, 0xFF, 0xFF).value_to_u32(), 0xFFFFFF);
    let v = u24::value_from_u32(0xAB123456);
    assert_eq!((v.first_byte, v.second_byte, v.third_byte), (0x12, 0x34, 0x56));
    for val in [0u32, 1, 0x123456, 0xFFFFFF] {
        assert_eq!(u24::value_from_u32(val).value_to_u32(), val);
    }
}

#[test]
fn defaults_are_zero() {
    assert_eq!(<i24 as Default>::default().value_to_i32(), 0);
    assert_eq!(<u24 as Default>::default().value_to_u32(), 0);
}

// Capture length: `record(duration_ms)` hands back, for every channel,
// exactly floor(rate * duration_ms / 1000) samples, even when the last
// hardware block over-delivers.
#[test]
fn record_length_matches_duration() {
    let rate = 48000;
    let ms = 10;
    let target = target_frames(rate, ms);
    assert_eq!(target, 480);
    let mut session = RecordSession::new(2, target);
    // Interleaved blocks of 128 frames; the last read overshoots the target.
    let block: Vec<i32> = (0..256).map(|i| i as i32).collect();
    while !session.is_complete() {
        session.push_block(&block, 128);
    }
    assert_eq!(session.frames_accumulated(), 512);
    let channels = session.finish();
    assert_eq!(channels.len(), 2);
    for (i, ch) in channels.iter().enumerate() {
        assert_eq!(ch.channel_num, i + 1);
        assert_eq!(ch.channel_data.len(), 480);
    }
}

#[test]
fn target_frames_truncates() {
    assert_eq!(target_frames(44100, 999), 44055);
    assert_eq!(target_frames(192000, 1000), 192000);
    assert_eq!(target_frames(44100, 1), 44);
}

#[test]
fn push_block_deinterleaves() {
    let mut session = RecordSession::new(2, 2);
    session.push_block(&[1, 10, 2, 20], 2);
    let channels = session.finish();
    assert_eq!(channels[0].channel_data, vec![1, 2]);
    assert_eq!(channels[1].channel_data, vec![10, 20]);
}

#[test]
fn playback_interleaves_shortest_common_length() {
    let data = vec![
        ChannelData::new(1, vec![1, 2, 3]),
        ChannelData::new(2, vec![10, 20]),
    ];
    let buf = plan_playback(2, &data).unwrap();
    assert_eq!(buf, vec![1, 10, 2, 20]);
}

// Mismatched channel count: a usage error before anything reaches the
// hardware.
#[test]
fn playback_channel_mismatch_fails_fast() {
    let data = vec![
        ChannelData::new(1, vec![1]),
        ChannelData::new(2, vec![2]),
        ChannelData::new(3, vec![3]),
    ];
    let r = plan_playback(2, &data);
    assert_eq!(r.unwrap_err(), UsageError::ChannelCountMismatch { expected: 2, actual: 3 });

    let empty: Vec<ChannelData> = Vec::new();
    let r = plan_playback(2, &empty);
    assert_eq!(r.unwrap_err(), UsageError::ChannelCountMismatch { expected: 2, actual: 0 });
}

#[test]
fn hardware_request_buffer_is_eight_periods() {
    let c = SoundCardConfig::new("hw:0", Format::B16, SamplingRate::Hz48000, 480);
    let hw = HardwareRequest::from_config(&c, 2);
    assert_eq!(hw.channels, 2);
    assert_eq!(hw.format, Format::B16);
    assert_eq!(hw.rate, 48000);
    assert_eq!(hw.period_size, 480);
    assert_eq!(hw.buffer_size, 8 * 480);
}

#[test]
fn channel_data_fields() {
    let cd = ChannelData::new(7, vec![1, 2, 3]);
    assert_eq!(cd.channel_num, 7);
    assert_eq!(cd.channel_data, vec![1, 2, 3]);
}

// Trivial base case: a one-sample spectrum is its own statistic.
#[test]
fn single_sample_spectrum() {
    let pairs = vec![(0u64, 42u64)];
    let sd = SpectralDensity::new(&pairs, 44100, 1);
    assert_eq!(sd.noise_floor, 42);
    assert_eq!(sd.peak, Some(SpectralDensitySample::new(0, 42)));
    assert_eq!(sd.freq_step, 0);
    assert_eq!(sd.N, 1);
    assert!(!sd.seems_off);
}

#[test]
fn spectrum_statistics() {
    let pairs = vec![(0u64, 5u64), (100, 7), (200, 7), (300, 1)];
    let sd = SpectralDensity::new(&pairs, 44100, 4);
    // Peak: maximum power, first-seen wins on the tie between bins 1 and 2.
    assert_eq!(sd.peak, Some(SpectralDensitySample::new(100, 7)));
    // Noise floor: floor((5 + 7 + 7 + 1) / 4).
    assert_eq!(sd.noise_floor, 5);
    assert_eq!(sd.freq_step, 100);
    assert!(!sd.all_match);
    assert!(!sd.seems_off);
    assert_eq!(sd.data.len(), 4);
    assert_eq!(sd.data[3], SpectralDensitySample::new(300, 1));
    assert_eq!(sd.audio_sampling_rate, 44100);
}

// A flat spectrum sets `all_match`, and only a flat one does.
#[test]
fn all_match_flags_flat_spectrum() {
    let flat = vec![(0u64, 5u64), (100, 5), (200, 5)];
    let sd = SpectralDensity::new(&flat, 44100, 4);
    assert!(sd.all_match);
    for s in sd.data.iter() {
        assert_eq!(s.spectral_density(), sd.data[0].spectral_density());
    }
    assert!(sd.seems_off);

    let not_flat = vec![(0u64, 5u64), (100, 5), (200, 6)];
    let sd = SpectralDensity::new(&not_flat, 44100, 4);
    assert!(!sd.all_match);
}

// A peak sitting on the very first bin is suspicious when at least two
// segments were averaged.
#[test]
fn seems_off_flags_peak_on_first_bin() {
    let pairs = vec![(0u64, 9u64), (100, 7), (200, 1)];
    let sd = SpectralDensity::new(&pairs, 44100, 4);
    assert!(sd.seems_off);
    let sd = SpectralDensity::new(&pairs, 44100, 1);
    assert!(!sd.seems_off);
}

// Re-deriving the noise floor from the returned samples matches the
// reported one exactly.
#[test]
fn noise_floor_rederives_from_samples() {
    let pairs = vec![(0u64, 123u64), (50, 456), (100, 789), (150, 1)];
    let sd = SpectralDensity::new(&pairs, 48000, 8);
    let sum: u64 = sd.data.iter().map(|s| s.spectral_density()).sum();
    assert_eq!(sd.noise_floor, sum / sd.data.len() as u64);
}

#[test]
fn peak_freq_first_seen_wins() {
    assert_eq!(SpectralDensity::get_peak_freq(vec![(0, 5), (100, 9), (200, 9)]), 100);
    assert_eq!(SpectralDensity::get_peak_freq(vec![(0, 5)]), 0);
    assert_eq!(SpectralDensity::get_peak_freq(Vec::new()), 0);
}

#[test]
fn noise_floor_is_mean_power() {
    assert_eq!(SpectralDensity::get_noise_floor(vec![(0, 4), (1, 5)]), 4);
    assert_eq!(SpectralDensity::get_noise_floor(vec![(0, 42)]), 42);
}

#[test]
fn segment_counts_keep_resolution_constant() {
    assert_eq!(SpectralDensity::get_fft_number(44100), 1024);
    assert_eq!(SpectralDensity::get_fft_number(48000), 1024);
    assert_eq!(SpectralDensity::get_fft_number(96000), 2048);
    assert_eq!(SpectralDensity::get_fft_number(192000), 4096);
    assert_eq!(get_N(44100), 1024);
    assert_eq!(get_N(48000), 1024);
    assert_eq!(get_N(96000), 2048);
    assert_eq!(get_N(192000), 4096);
}

#[test]
fn sample_accessors() {
    let s = SpectralDensitySample::new(24000, 77);
    assert_eq!(s.frequency(), 24000);
    assert_eq!(s.spectral_density(), 77);
}

// Station bin mapping: round-half-up tie-breaking, monotonic in the
// frequency.
#[test]
fn station_bin_mapping() {
    assert_eq!(StationConfig::new("NAA", 'r', 24000).get_bin(100), 240);
    assert_eq!(StationConfig::new("NAA", 'r', 24050).get_bin(100), 241);
    assert_eq!(StationConfig::new("NAA", 'r', 24049).get_bin(100), 240);
    let mut last = 0;
    for f in 23900..24100 {
        let bin = StationConfig::new("X", 'r', f).get_bin(100);
        assert!(bin >= last);
        last = bin;
    }
}

#[test]
fn station_samples_pick_bins() {
    let pairs = vec![(0u64, 1u64), (100, 2), (200, 9), (300, 3)];
    let sd = SpectralDensity::new(&pairs, 48000, 4);
    assert_eq!(sd.freq_step, 100);
    let stations = vec![
        StationConfig::new("A", 'r', 210),   // nearest bin 2
        StationConfig::new("B", 'b', 250),   // half-bin tie rounds up to 3
        StationConfig::new("C", 'g', 20000), // beyond the spectrum
    ];
    let samples = supersid::station::station_samples(&sd, &stations);
    assert_eq!(samples.len(), 3);
    assert_eq!(samples[0], Some(sd.data[2]));
    assert_eq!(samples[1], Some(sd.data[3]));
    assert_eq!(samples[2], None);
}

#[test]
fn station_config_fields() {
    let s = StationConfig::new("NLK", 'b', 24800);
    assert_eq!(s.callsign, "NLK");
    assert_eq!(s.color, 'b');
    assert_eq!(s.frequency, 24800);
}
