use audio_chain::{block_peak, TailSettings};

fn run_tail(tail: &mut TailSettings, block_frames: usize, peaks: &[i32]) -> Vec<usize> {
    let mut blocks = Vec::new();
    let mut i = 0;
    while let Some(frames) = tail.next_block_frames(block_frames) {
        blocks.push(frames);
        let peak = peaks[i % peaks.len()];
        i += 1;
        if tail.record_block(frames, peak) {
            break;
        }
    }
    blocks
}

#[test]
fn tail_splits_into_blocks_up_to_the_maximum() {
    let mut tail = TailSettings::new(0, 20, 10, 1);
    assert_eq!(run_tail(&mut tail, 4, &[100]), vec![4, 4, 2]);
    assert_eq!(tail.next_block_frames(4), None);
}

#[test]
fn silence_does_not_cut_a_tail_short() {
    let mut tail = TailSettings::new(0, 1, 9, 1);
    assert_eq!(run_tail(&mut tail, 3, &[0]), vec![3, 3, 3]);
}

#[test]
fn record_block_stops_once_complete_and_silent_enough() {
    let mut tail = TailSettings::new(10, 2, 4, 0);
    assert!(!tail.record_block(2, 5));
    assert!(tail.record_block(2, block_peak(&[-3, 10])));

    let mut loud = TailSettings::new(10, 2, 4, 0);
    assert!(!loud.record_block(2, 5));
    assert!(!loud.record_block(2, 11));
    assert_eq!(loud.next_block_frames(1), None);
}

#[test]
fn empty_tail_has_no_blocks() {
    let tail = TailSettings::new(0, 0, 0, 0);
    assert_eq!(tail.next_block_frames(256), None);
}
