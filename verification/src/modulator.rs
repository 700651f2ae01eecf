use vstd::prelude::*;

verus! {

/// Where an interleaved stream stands: the frame, and the channel within it.
pub struct CursorState {
    pub channels: nat,
    pub current_frame: nat,
    pub current_channel: nat,
}

/// The position after one more sample: the next channel, or the first
/// channel of the next frame after the last channel.
pub open spec fn spec_advance(state: CursorState) -> CursorState {
    if state.current_channel + 1 == state.channels {
        CursorState { current_channel: 0, current_frame: state.current_frame + 1, ..state }
    } else {
        CursorState { current_channel: state.current_channel + 1, ..state }
    }
}

/// The position after `samples` samples, starting at the beginning.
pub open spec fn cursor_after(channels: nat, samples: nat) -> CursorState
    decreases samples,
{
    if samples == 0 {
        CursorState { channels, current_frame: 0, current_channel: 0 }
    } else {
        spec_advance(cursor_after(channels, (samples - 1) as nat))
    }
}

/// After `samples` interleaved samples of `channels` channels the cursor is
/// in frame `samples / channels` at channel `samples % channels`: every
/// frame is visited once per channel, consecutively.
pub proof fn lemma_cursor_counts_frames(channels: nat, samples: nat)
    requires
        channels > 0,
    ensures
        cursor_after(channels, samples).channels == channels,
        cursor_after(channels, samples).current_frame == samples / channels,
        cursor_after(channels, samples).current_channel == samples % channels,
    decreases samples,
{
    if samples > 0 {
        let n = (samples - 1) as nat;
        lemma_cursor_counts_frames(channels, n);
        let c = channels as int;
        let m = n as int;
        vstd::arithmetic::div_mod::lemma_fundamental_div_mod(m, c);
        let q = m / c;
        let r = m % c;
        if r + 1 == c {
            assert(m + 1 == (q + 1) * c + 0) by (nonlinear_arith)
                requires m == c * q + r, r + 1 == c;
            vstd::arithmetic::div_mod::lemma_fundamental_div_mod_converse(m + 1, c, q + 1, 0);
        } else {
            assert(m + 1 == q * c + (r + 1)) by (nonlinear_arith)
                requires m == c * q + r;
            vstd::arithmetic::div_mod::lemma_fundamental_div_mod_converse(m + 1, c, q, r + 1);
        }
    }
}

/// The frame and channel of the next sample of an interleaved stream.
pub struct FrameCursor {
    channels: u16,
    current_frame: u32,
    current_channel: u16,
}

impl View for FrameCursor {
    type V = CursorState;

    closed spec fn view(&self) -> CursorState {
        CursorState {
            channels: self.channels as nat,
            current_frame: self.current_frame as nat,
            current_channel: self.current_channel as nat,
        }
    }
}

impl FrameCursor {
    #[verifier::type_invariant]
    spec fn well_formed(self) -> bool {
        self.channels == 0 || self.current_channel < self.channels
    }

    /// The start of a stream of `channels` channels.
    pub fn new(channels: u16) -> (cursor: Self)
        ensures
            cursor@ == cursor_after(channels as nat, 0),
    {
        FrameCursor { channels, current_frame: 0, current_channel: 0 }
    }

    /// The frame of the next sample.
    pub fn current_frame(&self) -> (frame: u32)
        ensures
            frame == self@.current_frame,
    {
        self.current_frame
    }

    /// The channel of the next sample.
    pub fn current_channel(&self) -> (channel: u16)
        ensures
            channel == self@.current_channel,
            self@.channels > 0 ==> channel < self@.channels,
    {
        proof { use_type_invariant(self); }
        self.current_channel
    }

    /// Steps past one sample. The counters must not overflow: with no
    /// channels the channel count grows without bound.
    pub fn advance_frame_and_channel(&mut self)
        requires
            old(self)@.current_channel < u16::MAX,
            old(self)@.current_channel + 1 == old(self)@.channels ==> old(self)@.current_frame < u32::MAX,
        ensures
            final(self)@ == spec_advance(old(self)@),
    {
        proof { use_type_invariant(&*self); }
        let next_channel: u16 = self.current_channel + 1;
        if next_channel == self.channels {
            self.current_frame = self.current_frame + 1;
            self.current_channel = 0;
        } else {
            self.current_channel = next_channel;
        }
    }
}

} // verus!
