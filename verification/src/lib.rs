//! Sample-exact building blocks of a small effects chain for PCM audio:
//! bit-depth ranges, peak detection, delay lines, parameter addressing, the
//! frame position of an interleaved stream and the schedule of the silent
//! tail rendered after the source. The floating-point signal processing that
//! runs on top of these lives outside this crate.

pub mod delay;
pub mod distortion;
pub mod modulator;
pub mod parameter;
pub mod peak_detector;
pub mod reverb;
pub mod sample_range;
pub mod wav;
pub mod wav_renderer;

pub use delay::{locate_delay_parameter_read, locate_delay_parameter_write, DelayLine, DelayParameter};
pub use distortion::SoftClipperMode;
pub use modulator::FrameCursor;
pub use parameter::{
    validate_channel_exists, validate_has_channels, ParameterAddress, ParameterError, ParameterId,
    ParameterScope, ParameterTarget,
};
pub use peak_detector::{GainRatio, PeakDetect, PeakError};
pub use reverb::{comb_size_bounds, AllPassLine, ReverbLine};
pub use sample_range::SampleRange;
pub use wav::frame_count;
pub use wav_renderer::{block_peak, TailSettings};
