use audio_chain::{
    validate_channel_exists, validate_has_channels, ParameterAddress, ParameterError, ParameterId,
    ParameterTarget,
};

#[test]
fn validate_has_channels_returns_the_channel() {
    let address = ParameterAddress { id: ParameterId::Mix, target: ParameterTarget::Channel(4) };
    assert_eq!(validate_has_channels(address), Ok(4));
}

#[test]
fn validate_has_channels_refuses_a_global_target() {
    let address = ParameterAddress { id: ParameterId::Gain, target: ParameterTarget::Global };
    assert_eq!(
        validate_has_channels(address),
        Err(ParameterError::InvalidTarget { id: ParameterId::Gain, target: ParameterTarget::Global })
    );
}

#[test]
fn validate_channel_exists_bounds_the_channel() {
    assert_eq!(validate_channel_exists(2, 1), Ok(()));
    assert_eq!(validate_channel_exists(2, 0), Ok(()));
    assert_eq!(
        validate_channel_exists(2, 2),
        Err(ParameterError::ChannelOutOfRange { channel: 2, channel_count: 2 })
    );
    assert_eq!(
        validate_channel_exists(0, 0),
        Err(ParameterError::ChannelOutOfRange { channel: 0, channel_count: 0 })
    );
}
