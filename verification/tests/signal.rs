use musiclight::signal_processing::SignalProcessing;

fn analyzer() -> SignalProcessing {
    SignalProcessing::new(512, 48000)
}

#[test]
fn band_energy_full_range_is_mean_of_all_bins() {
    let mut sp = analyzer();
    // 257 bins; put 1000 in the first five, zero elsewhere
    let mut mags = vec![0u64; 257];
    for i in 0..5 {
        mags[i] = 1000;
    }
    sp.update_fft(&mags).unwrap();
    // mean over all 257 bins, floor division
    assert_eq!(sp.get_energy_in_band(0, 24000), 5000 / 257);
}

#[test]
fn band_energy_bass_band_exact() {
    let mut sp = analyzer();
    let mut mags = vec![0u64; 257];
    for i in 0..5 {
        mags[i] = 1000;
    }
    sp.update_fft(&mags).unwrap();
    // bass covers bins 0..=4 (400 Hz maps to bin 400*512/48000 = 4)
    assert_eq!(sp.get_energy_in_band(0, 400), 1000);
    // mid covers bins 4..=42; only bin 4 is lit
    assert_eq!(sp.get_energy_in_band(400, 4000), 1000 / 39);
}

#[test]
fn band_energy_never_negative_on_empty_spectrum() {
    let sp = analyzer();
    assert_eq!(sp.get_energy_in_band(4000, 12000), 0);
}

#[test]
fn update_fft_rejects_wrong_length() {
    let mut sp = analyzer();
    let mags = vec![0u64; 100];
    assert!(sp.update_fft(&mags).is_err());
}

#[test]
fn update_fft_rejects_oversized_magnitude() {
    let mut sp = analyzer();
    let mut mags = vec![0u64; 257];
    mags[10] = u64::MAX;
    assert!(sp.update_fft(&mags).is_err());
}

#[test]
fn silence_is_exact_zero_sample_sum() {
    let mut sp = analyzer();
    let zeros = vec![0i16; 512];
    sp.import_i16_mono(&zeros).unwrap();
    assert!(sp.is_silent());

    let mut ones = vec![0i16; 512];
    ones[0] = 1;
    sp.import_i16_mono(&ones).unwrap();
    assert!(!sp.is_silent());

    // a block whose samples cancel exactly counts as silent
    let mut cancel = vec![0i16; 512];
    cancel[0] = 123;
    cancel[1] = -123;
    sp.import_i16_mono(&cancel).unwrap();
    assert!(sp.is_silent());
}

#[test]
fn import_rejects_wrong_block_length() {
    let mut sp = analyzer();
    let short = vec![0i16; 100];
    assert!(sp.import_i16_mono(&short).is_err());
    let stereo_short = vec![0i16; 512];
    assert!(sp.import_i16_stereo(&stereo_short).is_err());
    let stereo_ok = vec![0i16; 1024];
    assert!(sp.import_i16_stereo(&stereo_ok).is_ok());
}

#[test]
fn import_from_iter_needs_a_full_block() {
    let mut sp = analyzer();
    let mut q = std::collections::VecDeque::new();
    for _ in 0..511 {
        q.push_back(0i16);
    }
    assert!(sp.import_i16_mono_from_iter(&q).is_err());
    q.push_back(7i16);
    assert!(sp.import_i16_mono_from_iter(&q).is_ok());
    assert!(!sp.is_silent());
}
