use audio_chain::{
    locate_delay_parameter_read, locate_delay_parameter_write, DelayLine, DelayParameter,
    ParameterAddress, ParameterError, ParameterId, ParameterTarget,
};

fn channel(id: ParameterId, channel: usize) -> ParameterAddress {
    ParameterAddress { id, target: ParameterTarget::Channel(channel) }
}

fn global(id: ParameterId) -> ParameterAddress {
    ParameterAddress { id, target: ParameterTarget::Global }
}

#[test]
fn delay_line_of_zero_samples_holds_one() {
    let line = DelayLine::new(0, 0i32);
    assert_eq!(line.len(), 1);
    let line = DelayLine::new(5, 0i32);
    assert_eq!(line.len(), 5);
}

#[test]
fn delay_line_returns_each_sample_after_its_length() {
    let mut line = DelayLine::new(4, 0i32);
    let mut out = Vec::new();
    for x in 1..=10 {
        out.push(line.read());
        line.write_and_advance(x);
    }
    assert_eq!(out, vec![0, 0, 0, 0, 1, 2, 3, 4, 5, 6]);
}

#[test]
fn delay_line_of_one_sample_delays_by_one() {
    let mut line = DelayLine::new(1, -1i64);
    assert_eq!(line.read(), -1);
    line.write_and_advance(7);
    assert_eq!(line.read(), 7);
    line.write_and_advance(8);
    assert_eq!(line.read(), 8);
}

#[test]
fn delay_read_of_global_target_is_invalid_target() {
    assert_eq!(
        locate_delay_parameter_read(global(ParameterId::Feedback), 2, 2, 2),
        Err(ParameterError::InvalidTarget { id: ParameterId::Feedback, target: ParameterTarget::Global })
    );
    // the target is checked before the parameter
    assert_eq!(
        locate_delay_parameter_read(global(ParameterId::Gain), 2, 2, 2),
        Err(ParameterError::InvalidTarget { id: ParameterId::Gain, target: ParameterTarget::Global })
    );
}

#[test]
fn delay_read_checks_the_channel_of_each_parameter() {
    assert_eq!(
        locate_delay_parameter_read(channel(ParameterId::DelayTime, 1), 2, 1, 0),
        Ok(Some((DelayParameter::DelayTime, 1)))
    );
    assert_eq!(
        locate_delay_parameter_read(channel(ParameterId::Feedback, 1), 2, 1, 0),
        Err(ParameterError::ChannelOutOfRange { channel: 1, channel_count: 1 })
    );
    assert_eq!(
        locate_delay_parameter_read(channel(ParameterId::Mix, 0), 2, 1, 0),
        Err(ParameterError::ChannelOutOfRange { channel: 0, channel_count: 0 })
    );
    assert_eq!(locate_delay_parameter_read(channel(ParameterId::Drive, 9), 2, 1, 0), Ok(None));
}

#[test]
fn delay_write_routes_supported_parameters() {
    assert_eq!(
        locate_delay_parameter_write(channel(ParameterId::Mix, 3)),
        Ok((DelayParameter::Mix, 3))
    );
    assert_eq!(
        locate_delay_parameter_write(channel(ParameterId::Ratio, 0)),
        Err(ParameterError::UnknownParameter(ParameterId::Ratio))
    );
    assert_eq!(
        locate_delay_parameter_write(global(ParameterId::DelayTime)),
        Err(ParameterError::InvalidTarget { id: ParameterId::DelayTime, target: ParameterTarget::Global })
    );
}
