use vstd::prelude::*;

verus! {

/// The parameters that processors of the chain expose.
#[derive(Debug, Clone, Copy, PartialEq, Eq, Hash, Structural)]
pub enum ParameterId {
    Gain,
    Mix,
    Feedback,
    DelayTime,
    Threshold,
    Ratio,
    Attack,
    Release,
    Decay,
    Size,
    Spread,
    Drive,
    Ceiling,
}

/// Whether a parameter applies to the whole processor or to one channel.
#[derive(Debug, Clone, Copy, PartialEq, Eq, Structural)]
pub enum ParameterScope {
    Global,
    PerChannel,
}

/// What a parameter request is aimed at: the processor as a whole, or one
/// of its channels.
#[derive(Debug, Clone, Copy, PartialEq, Eq, Hash, Structural)]
pub enum ParameterTarget {
    Global,
    Channel(usize),
}

/// A parameter together with the target it is addressed to.
#[derive(Debug, Clone, Copy, PartialEq, Eq, Hash, Structural)]
pub struct ParameterAddress {
    pub id: ParameterId,
    pub target: ParameterTarget,
}

/// Why a parameter request was refused.
///
/// In `OutOfRange` the rejected value and the accepted bounds are carried as
/// the IEEE-754 bit patterns of the `f64` values involved.
#[derive(Debug, Clone, Copy, PartialEq, Eq, Structural)]
pub enum ParameterError {
    InvalidTarget { id: ParameterId, target: ParameterTarget },
    UnknownParameter(ParameterId),
    ChannelOutOfRange { channel: usize, channel_count: usize },
    OutOfRange { id: ParameterId, value_bits: u64, min_bits: u64, max_bits: u64 },
}

/// The channel that an address names; an address aimed at the whole
/// processor is refused with `InvalidTarget`.
pub fn validate_has_channels(address: ParameterAddress) -> (result: Result<usize, ParameterError>)
    ensures
        match address.target {
            ParameterTarget::Channel(channel) => result == Ok::<usize, ParameterError>(channel),
            ParameterTarget::Global => result == Err::<usize, ParameterError>(
                ParameterError::InvalidTarget { id: address.id, target: address.target },
            ),
        },
{
    match address.target {
        ParameterTarget::Channel(channel) => Ok(channel),
        ParameterTarget::Global => Err(
            ParameterError::InvalidTarget { id: address.id, target: address.target },
        ),
    }
}

/// Succeeds exactly when `channel` is one of the `channel_count` channels.
pub fn validate_channel_exists(channel_count: usize, channel: usize) -> (result: Result<(), ParameterError>)
    ensures
        channel < channel_count ==> result == Ok::<(), ParameterError>(()),
        channel >= channel_count ==> result == Err::<(), ParameterError>(
            ParameterError::ChannelOutOfRange { channel, channel_count },
        ),
{
    if channel >= channel_count {
        return Err(ParameterError::ChannelOutOfRange { channel, channel_count: channel_count });
    }
    Ok(())
}

} // verus!
