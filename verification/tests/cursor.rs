use audio_chain::{frame_count, FrameCursor};

#[test]
fn cursor_visits_each_frame_once_per_channel() {
    let mut cursor = FrameCursor::new(2);
    let mut seen = Vec::new();
    for _ in 0..5 {
        seen.push((cursor.current_frame(), cursor.current_channel()));
        cursor.advance_frame_and_channel();
    }
    assert_eq!(seen, vec![(0, 0), (0, 1), (1, 0), (1, 1), (2, 0)]);
}

#[test]
fn cursor_of_one_channel_counts_frames() {
    let mut cursor = FrameCursor::new(1);
    for n in 1..=10u32 {
        cursor.advance_frame_and_channel();
        assert_eq!(cursor.current_frame(), n);
        assert_eq!(cursor.current_channel(), 0);
    }
}

#[test]
fn frame_count_divides_by_channels() {
    assert_eq!(frame_count(10, 2), 5);
    assert_eq!(frame_count(11, 2), 5);
    assert_eq!(frame_count(u32::MAX, 65535), u32::MAX / 65535);
    assert_eq!(frame_count(7, 0), u32::MAX);
    assert_eq!(frame_count(0, 0), 0);
}
