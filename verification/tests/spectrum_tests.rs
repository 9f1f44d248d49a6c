use audio_player::{
    AppConfig, PlayerError, ProgressTap, SPECTRUM_BINS, SpectrumAnalyzer, seek_offset_samples,
    zero_bins,
};

#[test]
fn test_spectrum_window_cold_until_filled() {
    let mut analyzer = SpectrumAnalyzer::new(8, 44100);
    assert!(analyzer.spectrum_window().is_none());
    analyzer.add_samples(&[1, 2, 3, 4, 5, 6, 7]);
    assert!(!analyzer.is_filled());
    assert!(analyzer.spectrum_window().is_none());
    analyzer.add_samples(&[8]);
    assert!(analyzer.is_filled());
    let window = analyzer.spectrum_window().expect("the ring is filled");
    assert_eq!(window, vec![1, 2, 3, 4, 5, 6, 7, 8]);
}

#[test]
fn test_spectrum_window_is_oldest_first() {
    let mut analyzer = SpectrumAnalyzer::new(4, 44100);
    analyzer.add_samples(&[1, 2, 3, 4, 5, 6]);
    // The ring now holds 5, 6, 3, 4 with the write index at slot 2.
    let window = analyzer.spectrum_window().expect("the ring is filled");
    assert_eq!(window, vec![3, 4, 5, 6]);
}

#[test]
fn test_spectrum_reset_goes_cold() {
    let mut analyzer = SpectrumAnalyzer::new(4, 44100);
    analyzer.add_samples(&[1, 2, 3, 4]);
    assert!(analyzer.is_filled());
    analyzer.reset();
    assert!(!analyzer.is_filled());
    assert!(analyzer.spectrum_window().is_none());
}

#[test]
fn test_zero_bins_shape() {
    let bins = zero_bins();
    assert_eq!(bins.len(), SPECTRUM_BINS);
    assert_eq!(bins.len(), 64);
    assert!(bins.iter().all(|b| *b == 0));
}

#[test]
fn test_tap_progress_and_throttle() {
    // 10 frames at 2 channels: 20 samples in all.
    let mut tap = ProgressTap::new(10, 2, 0, 44100);
    for _ in 0..10 {
        let _ = tap.note_sample(100);
    }
    // Nothing is due before the refresh interval has passed.
    assert!(tap.poll_emission(50).is_none());
    let emission = tap.poll_emission(100).expect("an emission is due");
    assert_eq!(emission.permille, 500);
    assert_eq!(emission.frames_played, 5);
    // The cache never held a spectrum, so the emission carries none yet.
    assert!(emission.spectrum.is_empty());
    // The next emission is throttled until another interval has passed.
    assert!(tap.poll_emission(150).is_none());
    assert!(tap.poll_emission(200).is_some());
}

#[test]
fn test_tap_progress_clamps_and_rounds() {
    let mut tap = ProgressTap::new(2, 1, 0, 44100);
    let _ = tap.note_sample(0);
    let first = tap.poll_emission(100).unwrap();
    assert_eq!(first.permille, 500);
    let _ = tap.note_sample(0);
    let _ = tap.note_sample(0);
    let over = tap.poll_emission(200).unwrap();
    // Playing past the declared length stays clamped at completion.
    assert_eq!(over.permille, 1000);

    // An unknown track length reports no progress at all.
    let mut unknown = ProgressTap::new(0, 2, 0, 44100);
    let _ = unknown.note_sample(0);
    assert_eq!(unknown.poll_emission(100).unwrap().permille, 0);
}

#[test]
fn test_tap_spectrum_cache_clamps_bins() {
    let mut tap = ProgressTap::new(1000, 1, 0, 44100);
    let mut bins = vec![0u16; SPECTRUM_BINS];
    bins[0] = 2000;
    bins[1] = 5;
    bins[2] = 1000;
    tap.store_spectrum(bins);
    let emission = tap.poll_emission(100).expect("an emission is due");
    assert_eq!(emission.spectrum.len(), SPECTRUM_BINS);
    assert_eq!(emission.spectrum[0], 1000);
    assert_eq!(emission.spectrum[1], 5);
    assert_eq!(emission.spectrum[2], 1000);
    assert!(emission.spectrum.iter().all(|b| *b <= 1000));
}

#[test]
fn test_tap_hands_out_window_once_warm() {
    let mut tap = ProgressTap::new(1_000_000, 1, 0, 44100);
    let mut window = None;
    // 4096 samples fill the analyzer after eight 512-sample batches.
    for sample_index in 0..4096u32 {
        if let Some(w) = tap.note_sample((sample_index % 64) as i16) {
            window = Some(w);
        }
    }
    let window = window.expect("the eighth batch fills the ring");
    assert_eq!(window.len(), 4096);
}

#[test]
fn test_seek_offset_samples() {
    assert_eq!(seek_offset_samples(1000, 44100, 2), 88200);
    assert_eq!(seek_offset_samples(500, 44100, 2), 44100);
    assert_eq!(seek_offset_samples(0, 44100, 2), 0);
    // Rounded to the nearest sample: 1 ms at 44100 Hz mono is 44.1 samples.
    assert_eq!(seek_offset_samples(1, 44100, 1), 44);
    assert_eq!(seek_offset_samples(1, 48000, 1), 48);
}

#[test]
fn test_config_update_library_path() {
    let mut config = AppConfig::default();
    assert_eq!(config.library_path, "/System/Library/Sounds");

    let refused = config.update_library_path("/nowhere".to_string(), false, false);
    assert_eq!(refused.unwrap_err(), PlayerError::LibraryPathMissing);
    assert_eq!(config.library_path, "/System/Library/Sounds");

    let not_dir = config.update_library_path("/a/file".to_string(), true, false);
    assert_eq!(not_dir.unwrap_err(), PlayerError::LibraryPathNotDirectory);

    let taken = config.update_library_path("/music".to_string(), true, true);
    assert!(taken.is_ok());
    assert_eq!(config.library_path, "/music");
}
