use audio_chain::{block_peak, GainRatio, PeakDetect, PeakError, SampleRange};

#[test]
fn peak_detect_finds_the_largest_magnitude() {
    let detector = PeakDetect::new(&[3, -14846, 200, 14000]);
    assert_eq!(detector.peak(), 14846);
    assert_eq!(PeakDetect::new(&[]).peak(), 0);
    assert_eq!(PeakDetect::new(&[i32::MIN]).peak(), 2_147_483_648);
}

#[test]
fn peak_detect_streaming_matches_the_whole_run() {
    let samples = [5, -9, 0, 8, -2, i32::MAX, -100];
    let mut streamed = PeakDetect::new(&[]);
    for (i, sample) in samples.iter().enumerate() {
        streamed.peak_detect(*sample);
        assert_eq!(streamed.peak(), PeakDetect::new(&samples[..=i]).peak());
    }
}

#[test]
fn normalised_gain_maps_peak_to_full_scale_ratio() {
    let detector = PeakDetect::new(&[1000, -14846]);
    let gain = detector.normalised_gain(SampleRange::new(16));
    assert_eq!(gain, Ok(GainRatio { numerator: 32767, denominator: 14846 }));
    let gain = gain.unwrap();
    assert_eq!(((gain.numerator as f64 / gain.denominator as f64) * 14846.0) as i32, 32767);
}

#[test]
fn normalised_gain_of_silence_is_refused() {
    let detector = PeakDetect::new(&[0, 0, 0]);
    assert_eq!(detector.normalised_gain(SampleRange::new(16)), Err(PeakError::ZeroPeak));
}

#[test]
fn block_peak_saturates_the_most_negative_sample() {
    assert_eq!(block_peak(&[]), 0);
    assert_eq!(block_peak(&[0, 0]), 0);
    assert_eq!(block_peak(&[4, -7, 6]), 7);
    assert_eq!(block_peak(&[i32::MIN, 5]), i32::MAX);
}

#[test]
fn block_peak_is_the_stream_peak_clipped() {
    for block in [vec![1, -2, 3], vec![i32::MIN], vec![], vec![-i32::MAX, 17]] {
        let clipped = PeakDetect::new(&block).peak().min(i32::MAX as i64);
        assert_eq!(block_peak(&block) as i64, clipped);
    }
}
