use audio_chain::{comb_size_bounds, AllPassLine, ReverbLine};

#[test]
fn reverb_line() {
    // size 3 with no spread always draws a line of 3 samples
    let mut line = ReverbLine::new(3, 0, 0.0f64);
    assert_eq!(line.size(), 3);

    let impulse = [1.0, 0.0, 0.0, 0.0, 0.0, 0.0, 0.0];
    let mut output = Vec::with_capacity(impulse.len());

    for segment in impulse {
        let delayed = line.read();
        output.push(delayed);

        let feedback_sample = segment + delayed * 0.5;
        line.write_and_advance(feedback_sample);
    }

    assert_eq!(output, [0.0, 0.0, 0.0, 1.0, 0.0, 0.0, 0.5]);
}

#[test]
fn comb_size_bounds_saturate_and_stay_ordered() {
    assert_eq!(comb_size_bounds(10, 3), (7, 13));
    assert_eq!(comb_size_bounds(10, 20), (1, 30));
    assert_eq!(comb_size_bounds(0, 0), (1, 1));
    assert_eq!(comb_size_bounds(usize::MAX - 2, 5), (usize::MAX - 7, usize::MAX));
}

#[test]
fn reverb_line_sizes_are_drawn_within_the_spread() {
    let mut seen_other_than_lowest = false;
    for _ in 0..200 {
        let line = ReverbLine::new(20, 5, 0i32);
        assert!(line.size() >= 15 && line.size() <= 25);
        if line.size() != 15 {
            seen_other_than_lowest = true;
        }
    }
    assert!(seen_other_than_lowest);
}

#[test]
fn all_pass_line_delays_by_its_size() {
    let mut line = AllPassLine::new(2, 0i32);
    assert_eq!(line.size(), 2);
    let mut out = Vec::new();
    for x in [5, 6, 7, 8] {
        out.push(line.read());
        line.write_and_advance(x);
    }
    assert_eq!(out, vec![0, 0, 5, 6]);
    assert_eq!(AllPassLine::new(0, 0i32).size(), 0);
}
