use vstd::prelude::*;
use crate::peak_detector::{lemma_magnitude_is_absolute_value, magnitude, max_magnitude};

verus! {

/// The magnitude of a sample as `i32::saturating_abs` gives it: `i32::MIN`
/// maps to `i32::MAX`.
pub open spec fn saturated_magnitude(sample: i32) -> int {
    if sample == i32::MIN { i32::MAX as int } else { magnitude(sample) }
}

/// The largest saturated magnitude in `samples`, 0 for none.
pub open spec fn max_saturated_magnitude(samples: Seq<i32>) -> int
    decreases samples.len(),
{
    if samples.len() == 0 {
        0
    } else {
        let rest = max_saturated_magnitude(samples.drop_last());
        let last = saturated_magnitude(samples.last());
        if rest < last { last } else { rest }
    }
}

/// The peak of a block is the stream peak of the same samples, cut off at
/// `i32::MAX`.
pub proof fn lemma_block_peak_is_clipped_peak(samples: Seq<i32>)
    ensures
        max_saturated_magnitude(samples) == if max_magnitude(samples) > i32::MAX {
            i32::MAX as int
        } else {
            max_magnitude(samples)
        },
        0 <= max_saturated_magnitude(samples) <= i32::MAX,
    decreases samples.len(),
{
    if samples.len() > 0 {
        lemma_block_peak_is_clipped_peak(samples.drop_last());
    }
}

/// The block peak is the largest absolute value of the block, with
/// `i32::MIN` counted as `i32::MAX`: no sample exceeds it, nor does any
/// sample's negation, and it is one of them (0 for an empty block).
pub proof fn lemma_block_peak_is_largest_absolute_value(samples: Seq<i32>)
    ensures
        0 <= max_saturated_magnitude(samples) <= i32::MAX,
        forall|i: int| 0 <= i < samples.len() ==> #[trigger] samples[i] <= max_saturated_magnitude(samples),
        forall|i: int| 0 <= i < samples.len() && samples[i] != i32::MIN ==> -#[trigger] samples[i]
            <= max_saturated_magnitude(samples),
        forall|i: int| 0 <= i < samples.len() && #[trigger] samples[i] == i32::MIN
            ==> max_saturated_magnitude(samples) == i32::MAX,
        samples.len() == 0 ==> max_saturated_magnitude(samples) == 0,
        samples.len() > 0 ==> exists|i: int| 0 <= i < samples.len() && (max_saturated_magnitude(samples)
            == #[trigger] samples[i] || max_saturated_magnitude(samples) == -samples[i]
            || (samples[i] == i32::MIN && max_saturated_magnitude(samples) == i32::MAX)),
    decreases samples.len(),
{
    if samples.len() > 0 {
        let rest = samples.drop_last();
        lemma_block_peak_is_largest_absolute_value(rest);
        lemma_block_peak_is_clipped_peak(rest);
        assert forall|i: int| 0 <= i < samples.len() - 1 implies samples[i] == #[trigger] rest[i] by {}
        let last = samples.last();
        assert(samples[samples.len() - 1] == last);
        lemma_magnitude_is_absolute_value(last);
        let m = max_saturated_magnitude(samples);
        lemma_block_peak_is_clipped_peak(samples);
        assert(m >= max_saturated_magnitude(rest) && m >= saturated_magnitude(last));
        assert forall|i: int| 0 <= i < samples.len() implies #[trigger] samples[i] <= m
            && (samples[i] != i32::MIN ==> -samples[i] <= m) && (samples[i] == i32::MIN ==> m == i32::MAX) by {
            if i < samples.len() - 1 {
                assert(samples[i] == rest[i]);
            }
        }
        if max_saturated_magnitude(rest) < saturated_magnitude(last) || rest.len() == 0 {
        } else {
            let j = choose|j: int| 0 <= j < rest.len() && (max_saturated_magnitude(rest)
                == #[trigger] rest[j] || max_saturated_magnitude(rest) == -rest[j]
                || (rest[j] == i32::MIN && max_saturated_magnitude(rest) == i32::MAX));
            assert(samples[j] == rest[j]);
        }
    }
}

/// The largest magnitude in `buffer`, `i32::MIN` counted as `i32::MAX`, or 0
/// for an empty buffer.
pub fn block_peak(buffer: &[i32]) -> (peak: i32)
    ensures
        peak == max_saturated_magnitude(buffer@),
        peak >= 0,
        forall|i: int| 0 <= i < buffer@.len() ==> #[trigger] buffer@[i] <= peak,
        forall|i: int| 0 <= i < buffer@.len() && buffer@[i] != i32::MIN ==> -#[trigger] buffer@[i] <= peak,
        forall|i: int| 0 <= i < buffer@.len() && #[trigger] buffer@[i] == i32::MIN ==> peak == i32::MAX,
        buffer@.len() == 0 ==> peak == 0,
        buffer@.len() > 0 ==> exists|i: int| 0 <= i < buffer@.len() && (peak == #[trigger] buffer@[i]
            || peak == -buffer@[i] || (buffer@[i] == i32::MIN && peak == i32::MAX)),
{
    let mut peak: i32 = 0;
    let mut i: usize = 0;
    while i < buffer.len()
        invariant
            i <= buffer@.len(),
            peak == max_saturated_magnitude(buffer@.take(i as int)),
        decreases buffer@.len() - i,
    {
        let sample: i32 = buffer[i];
        let magnitude: i32 = if sample == i32::MIN { i32::MAX } else if sample < 0 { -sample } else { sample };
        proof {
            assert(buffer@.take(i as int + 1).drop_last() =~= buffer@.take(i as int));
        }
        if magnitude > peak {
            peak = magnitude;
        }
        i = i + 1;
    }
    proof {
        assert(buffer@.take(i as int) =~= buffer@);
        lemma_block_peak_is_largest_absolute_value(buffer@);
    }
    peak
}

/// The progress of a tail: how much has been rendered, how many blocks in a
/// row were silent, and the limits it runs against.
pub struct TailState {
    pub min_tail_frames: nat,
    pub max_tail_frames: nat,
    pub tail_frame_count: nat,
    pub rendered_frames: nat,
    pub silent_blocks: nat,
    pub silent_blocks_threshold: nat,
    pub silence_level_threshold: int,
}

/// The number of frames of the next tail block, `None` once the tail is
/// complete.
pub open spec fn spec_next_block_frames(state: TailState, block_frames: nat) -> Option<nat> {
    if state.rendered_frames < state.max_tail_frames {
        let remaining = (state.max_tail_frames - state.rendered_frames) as nat;
        Some(if remaining < block_frames { remaining } else { block_frames })
    } else {
        None
    }
}

/// The state after a block of `frames` frames whose peak was `peak`.
pub open spec fn spec_record_block(state: TailState, frames: nat, peak: int) -> TailState {
    TailState {
        rendered_frames: state.rendered_frames + frames,
        silent_blocks: if peak <= state.silence_level_threshold { state.silent_blocks + 1 } else { 0 },
        ..state
    }
}

/// Whether rendering stops after the block that led to `state`: the whole
/// tail is rendered and enough silent blocks were seen in a row.
pub open spec fn spec_tail_done(state: TailState) -> bool {
    state.rendered_frames >= state.max_tail_frames && state.silent_blocks >= state.silent_blocks_threshold
}

/// The state after recording the blocks of `frames`, the `i`-th with peak
/// `peaks[i]`.
pub open spec fn record_run(state: TailState, frames: Seq<nat>, peaks: Seq<int>) -> TailState
    decreases frames.len(),
{
    if frames.len() == 0 || peaks.len() == 0 {
        state
    } else {
        spec_record_block(record_run(state, frames.drop_last(), peaks.drop_last()), frames.last(), peaks.last())
    }
}

/// The silent count counts blocks, not frames: after a run of silent blocks
/// it has grown by the number of blocks, whatever their lengths, while the
/// rendered frames grew by their lengths; a loud last block resets it. So
/// after `n` silent blocks from a fresh tail, rendering stops exactly when
/// the tail is complete and `n` reaches the threshold.
pub proof fn lemma_silent_count_counts_blocks(state: TailState, frames: Seq<nat>, peaks: Seq<int>)
    requires
        frames.len() == peaks.len(),
    ensures
        (forall|i: int| 0 <= i < peaks.len() ==> #[trigger] peaks[i] <= state.silence_level_threshold)
            ==> record_run(state, frames, peaks).silent_blocks == state.silent_blocks + peaks.len(),
        peaks.len() > 0 && peaks.last() > state.silence_level_threshold
            ==> record_run(state, frames, peaks).silent_blocks == 0,
        record_run(state, frames, peaks).max_tail_frames == state.max_tail_frames,
        record_run(state, frames, peaks).silent_blocks_threshold == state.silent_blocks_threshold,
        record_run(state, frames, peaks).silence_level_threshold == state.silence_level_threshold,
        record_run(state, frames, peaks).rendered_frames >= state.rendered_frames,
        (forall|i: int| 0 <= i < peaks.len() ==> #[trigger] peaks[i] <= state.silence_level_threshold)
            && state.silent_blocks == 0 && peaks.len() > 0 ==> (spec_tail_done(record_run(state, frames, peaks))
            <==> record_run(state, frames, peaks).rendered_frames >= state.max_tail_frames
                && peaks.len() >= state.silent_blocks_threshold),
    decreases frames.len(),
{
    if frames.len() > 0 {
        let fr = frames.drop_last();
        let pk = peaks.drop_last();
        lemma_silent_count_counts_blocks(state, fr, pk);
        if forall|i: int| 0 <= i < peaks.len() ==> #[trigger] peaks[i] <= state.silence_level_threshold {
            assert forall|i: int| 0 <= i < pk.len() implies #[trigger] pk[i] <= state.silence_level_threshold by {
                assert(pk[i] == peaks[i]);
            }
            assert(peaks[peaks.len() - 1] <= state.silence_level_threshold);
        }
    }
}

/// Runs the tail loop from `state` in blocks of `block_frames` frames, the
/// `i`-th block having peak `peaks(i)`: ask for the next block, stop when
/// there is none, record it, stop when recording says so. Gives the final
/// state and the number of blocks rendered.
pub open spec fn run_tail(state: TailState, block_frames: nat, peaks: spec_fn(nat) -> int, i: nat) -> (TailState, nat)
    decreases state.max_tail_frames - state.rendered_frames,
{
    match spec_next_block_frames(state, block_frames) {
        Some(frames) => if frames > 0 {
            let recorded = spec_record_block(state, frames, peaks(i));
            if spec_tail_done(recorded) {
                (recorded, 1)
            } else {
                let rest = run_tail(recorded, block_frames, peaks, i + 1);
                (rest.0, rest.1 + 1)
            }
        } else {
            (state, 0)
        },
        None => (state, 0),
    }
}

/// A tail renders exactly up to its maximum length, whatever the peaks of
/// its blocks: it ends with every frame rendered, after as many blocks as
/// whole or partial `block_frames` fit in the frames that were missing.
pub proof fn lemma_tail_renders_exactly_to_max(state: TailState, block_frames: nat, peaks: spec_fn(nat) -> int, i: nat)
    requires
        state.rendered_frames <= state.max_tail_frames,
        block_frames > 0,
    ensures
        run_tail(state, block_frames, peaks, i).0.rendered_frames == state.max_tail_frames,
        run_tail(state, block_frames, peaks, i).1 == (state.max_tail_frames - state.rendered_frames
            + block_frames - 1) / (block_frames as int),
    decreases state.max_tail_frames - state.rendered_frames,
{
    let b = block_frames as int;
    assert((0 + b - 1) / b == 0) by (nonlinear_arith)
        requires 0 < b;
    if state.rendered_frames < state.max_tail_frames {
        let remaining = (state.max_tail_frames - state.rendered_frames) as nat;
        let frames = if remaining < block_frames { remaining } else { block_frames };
        let recorded = spec_record_block(state, frames, peaks(i));
        let r = remaining as int;
        if remaining < block_frames {
            assert((r + b - 1) / b == 1) by (nonlinear_arith)
                requires 0 < r < b;
        } else {
            assert((r + b - 1) / b == 1 + ((r - b) + b - 1) / b) by (nonlinear_arith)
                requires b <= r, 0 < b;
        }
        if !spec_tail_done(recorded) {
            lemma_tail_renders_exactly_to_max(recorded, block_frames, peaks, i + 1);
        }
    }
}

/// The schedule of the silent tail rendered after the source has run out.
pub struct TailSettings {
    min_tail_frames: usize,
    max_tail_frames: usize,
    tail_frame_count: usize,
    rendered_frames: usize,
    silent_frames_count: usize,
    silent_blocks_threshold: usize,
    silence_level_threshold: i32,
}

impl View for TailSettings {
    type V = TailState;

    closed spec fn view(&self) -> TailState {
        TailState {
            min_tail_frames: self.min_tail_frames as nat,
            max_tail_frames: self.max_tail_frames as nat,
            tail_frame_count: self.tail_frame_count as nat,
            rendered_frames: self.rendered_frames as nat,
            silent_blocks: self.silent_frames_count as nat,
            silent_blocks_threshold: self.silent_blocks_threshold as nat,
            silence_level_threshold: self.silence_level_threshold as int,
        }
    }
}

impl TailSettings {
    #[verifier::type_invariant]
    spec fn well_formed(self) -> bool {
        &&& self.rendered_frames <= self.max_tail_frames
        &&& self.silent_frames_count <= self.rendered_frames
    }

    /// A tail of at most `max_tail_frames` frames that has not started yet.
    /// A block counts as silent when its peak is at most
    /// `silence_level_threshold`.
    pub fn new(
        silence_level_threshold: i32,
        silent_blocks_threshold: usize,
        max_tail_frames: usize,
        min_tail_frames: usize,
    ) -> (tail: Self)
        ensures
            tail@ == (TailState {
                min_tail_frames: min_tail_frames as nat,
                max_tail_frames: max_tail_frames as nat,
                tail_frame_count: 0,
                rendered_frames: 0,
                silent_blocks: 0,
                silent_blocks_threshold: silent_blocks_threshold as nat,
                silence_level_threshold: silence_level_threshold as int,
            }),
    {
        TailSettings {
            min_tail_frames,
            max_tail_frames,
            tail_frame_count: 0,
            rendered_frames: 0,
            silent_frames_count: 0,
            silent_blocks_threshold,
            silence_level_threshold,
        }
    }

    /// The frames of the next tail block, at most `block_frames`, or `None`
    /// once the tail has reached its maximum length.
    pub fn next_block_frames(&self, block_frames: usize) -> (frames: Option<usize>)
        requires
            block_frames > 0,
        ensures
            frames matches Some(f) ==> spec_next_block_frames(self@, block_frames as nat) == Some(f as nat),
            frames is None <==> spec_next_block_frames(self@, block_frames as nat) is None,
            frames matches Some(f) ==> 0 < f <= block_frames,
            frames is None <==> self@.rendered_frames >= self@.max_tail_frames,
            frames matches Some(f) ==> f == block_frames
                || f == self@.max_tail_frames - self@.rendered_frames,
            frames matches Some(f) ==> f <= self@.max_tail_frames - self@.rendered_frames,
            frames matches Some(f) ==> (f < block_frames ==> f == self@.max_tail_frames - self@.rendered_frames),
    {
        proof { use_type_invariant(self); }
        if self.rendered_frames < self.max_tail_frames {
            let remaining = self.max_tail_frames - self.rendered_frames;
            Some(if remaining < block_frames { remaining } else { block_frames })
        } else {
            None
        }
    }

    /// Accounts for a rendered block of `frames` frames whose peak was
    /// `peak`; returns whether rendering stops here. It stops only once the
    /// whole tail is rendered, so silence never cuts a tail short.
    pub fn record_block(&mut self, frames: usize, peak: i32) -> (done: bool)
        requires
            0 < frames,
            old(self)@.rendered_frames + frames <= old(self)@.max_tail_frames,
        ensures
            final(self)@ == spec_record_block(old(self)@, frames as nat, peak as int),
            done == spec_tail_done(final(self)@),
            done ==> final(self)@.rendered_frames >= final(self)@.max_tail_frames,
            final(self)@.rendered_frames == old(self)@.rendered_frames + frames,
            peak <= old(self)@.silence_level_threshold ==> final(self)@.silent_blocks == old(self)@.silent_blocks + 1,
            peak > old(self)@.silence_level_threshold ==> final(self)@.silent_blocks == 0,
            final(self)@.max_tail_frames == old(self)@.max_tail_frames,
            final(self)@.min_tail_frames == old(self)@.min_tail_frames,
            final(self)@.tail_frame_count == old(self)@.tail_frame_count,
            final(self)@.silent_blocks_threshold == old(self)@.silent_blocks_threshold,
            final(self)@.silence_level_threshold == old(self)@.silence_level_threshold,
            done == (final(self)@.rendered_frames >= final(self)@.max_tail_frames
                && final(self)@.silent_blocks >= final(self)@.silent_blocks_threshold),
    {
        proof { use_type_invariant(&*self); }
        self.rendered_frames = self.rendered_frames + frames;
        if peak <= self.silence_level_threshold {
            self.silent_frames_count = self.silent_frames_count + 1;
        } else {
            self.silent_frames_count = 0;
        }
        self.rendered_frames >= self.max_tail_frames
            && self.silent_frames_count >= self.silent_blocks_threshold
    }
}

} // verus!
