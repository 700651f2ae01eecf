use vstd::prelude::*;

verus! {

/// The number of whole frames in `total_samples` interleaved samples of
/// `channels` channels. With no channels the count is unbounded and saturates
/// at `u32::MAX`, except for an empty stream, which has none.
pub fn frame_count(total_samples: u32, channels: u16) -> (frames: u32)
    ensures
        channels > 0 ==> frames == total_samples / (channels as u32),
        channels == 0 && total_samples > 0 ==> frames == u32::MAX,
        channels == 0 && total_samples == 0 ==> frames == 0,
{
    if channels == 0 {
        if total_samples == 0 { 0 } else { u32::MAX }
    } else {
        total_samples / (channels as u32)
    }
}

} // verus!
