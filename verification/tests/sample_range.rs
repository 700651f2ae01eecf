use audio_chain::SampleRange;

#[test]
fn sample_range_for_16_bit_pcm() {
    let range = SampleRange::new(16);
    assert_eq!(range.max_sample as f64, 32767.0); // i32:max = 32767
    assert_eq!(range.min_sample as f64, -32768.0); // i32:min = -32768
}

#[test]
fn sample_range_for_24_bit_pcm() {
    let range = SampleRange::new(24);
    assert_eq!(range.max_sample, 8_388_607);
    assert_eq!(range.min_sample, -8_388_608);
}

#[test]
fn sample_range_clamps_depth_to_one_and_thirty_two_bits() {
    let low = SampleRange::new(0);
    assert_eq!((low.min_sample, low.max_sample), (-1, 0));
    let one = SampleRange::new(1);
    assert_eq!((one.min_sample, one.max_sample), (-1, 0));
    let high = SampleRange::new(40);
    assert_eq!(high.min_sample, i32::MIN as i64);
    assert_eq!(high.max_sample, i32::MAX as i64);
    assert_eq!(SampleRange::new(u16::MAX), high);
}

#[test]
fn sample_range_is_symmetric_but_for_one() {
    for depth in 0..=40u16 {
        let range = SampleRange::new(depth);
        assert_eq!(range.min_sample, -(range.max_sample + 1));
    }
}
