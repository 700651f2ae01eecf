use vstd::prelude::*;
use crate::parameter::{ParameterAddress, ParameterError, ParameterId, ParameterTarget};
use crate::parameter::{validate_channel_exists, validate_has_channels};

verus! {

/// Index `j` of a ring of `n` slots, for `0 <= j < 2 * n`.
pub open spec fn ring_index(j: int, n: int) -> int {
    if j < n { j } else { j - n }
}

/// The contents of a ring buffer read from `position` onwards: the oldest
/// stored sample first, the most recently written one last.
pub open spec fn ring_history<T>(buffer: Seq<T>, position: int) -> Seq<T> {
    Seq::new(buffer.len(), |i: int| buffer[ring_index(position + i, buffer.len() as int)])
}

/// The slot after `position` in a ring of `n` slots.
pub open spec fn ring_next(position: int, n: int) -> int {
    if position + 1 == n { 0 } else { position + 1 }
}

/// Writing at the read position and stepping forward drops the oldest sample
/// of the history and appends the new one.
pub proof fn lemma_ring_write<T>(buffer: Seq<T>, position: int, sample: T)
    requires
        0 <= position < buffer.len(),
    ensures
        ring_history(buffer.update(position, sample), ring_next(position, buffer.len() as int))
            == ring_history(buffer, position).drop_first().push(sample),
{
    let n = buffer.len() as int;
    let lhs = ring_history(buffer.update(position, sample), ring_next(position, n));
    let rhs = ring_history(buffer, position).drop_first().push(sample);
    assert forall|i: int| 0 <= i < n implies lhs[i] == rhs[i] by {
        if i < n - 1 {
            assert(ring_index(position + i + 1, n) != position);
        }
    }
    assert(lhs =~= rhs);
}

/// What a line holds after `samples` were written into a line holding `history`,
/// one after the other.
pub open spec fn history_after_writes<T>(history: Seq<T>, samples: Seq<T>) -> Seq<T>
    decreases samples.len(),
{
    if samples.len() == 0 {
        history
    } else {
        history_after_writes(history, samples.drop_last()).drop_first().push(samples.last())
    }
}

/// A line keeps the last `history.len()` samples of everything it was fed:
/// after a run of writes its history is the tail, of its own length, of the
/// old history followed by the written samples. In particular a sample comes
/// back out of `read` exactly `history.len()` writes after it went in.
pub proof fn lemma_line_delays_by_its_length<T>(history: Seq<T>, samples: Seq<T>)
    requires
        history.len() > 0,
    ensures
        history_after_writes(history, samples) == (history + samples).skip(samples.len() as int),
        samples.len() >= history.len() ==> history_after_writes(history, samples)[0]
            == samples[samples.len() - history.len()],
    decreases samples.len(),
{
    if samples.len() > 0 {
        lemma_line_delays_by_its_length(history, samples.drop_last());
        let k = samples.len() as int;
        assert((history + samples.drop_last()).skip(k - 1).drop_first().push(samples.last())
            =~= (history + samples).skip(k));
    } else {
        assert((history + samples).skip(0) =~= history);
    }
}

/// A fixed-length delay line: every write pushes out the sample written
/// `len()` writes earlier, which `read` returns just before.
pub struct DelayLine<T> {
    buffer: Vec<T>,
    position: usize,
}

impl<T> View for DelayLine<T> {
    type V = Seq<T>;

    /// The stored samples, oldest first.
    closed spec fn view(&self) -> Seq<T> {
        ring_history(self.buffer@, self.position as int)
    }
}

impl<T> DelayLine<T> {
    #[verifier::type_invariant]
    spec fn well_formed(self) -> bool {
        0 <= self.position < self.buffer@.len()
    }
}

impl<T: Copy> DelayLine<T> {
    /// A line of `delay_samples` samples (at least one), all `silence`.
    pub fn new(delay_samples: usize, silence: T) -> (line: Self)
        ensures
            line@ == Seq::new(if delay_samples < 1 { 1nat } else { delay_samples as nat }, |i: int| silence),
    {
        let size: usize = if delay_samples < 1 { 1 } else { delay_samples };
        let mut buffer: Vec<T> = Vec::new();
        while buffer.len() < size
            invariant
                buffer.len() <= size,
                forall|i: int| 0 <= i < buffer.len() ==> buffer@[i] == silence,
            decreases size - buffer.len(),
        {
            buffer.push(silence);
        }
        let line = DelayLine { buffer, position: 0 };
        assert(line@ =~= Seq::new(size as nat, |i: int| silence));
        line
    }

    /// The oldest stored sample, the one the next write replaces.
    pub fn read(&self) -> (sample: T)
        ensures
            self@.len() > 0,
            sample == self@[0],
    {
        proof { use_type_invariant(self); }
        self.buffer[self.position]
    }

    /// Stores `sample` as the newest entry, dropping the oldest one.
    pub fn write_and_advance(&mut self, sample: T)
        ensures
            final(self)@ == old(self)@.drop_first().push(sample),
    {
        proof { use_type_invariant(&*self); }
        let ghost old_buffer = self.buffer@;
        let position = self.position;
        let size = self.buffer.len();
        self.buffer[position] = sample;
        let next: usize = if position + 1 == size { 0 } else { position + 1 };
        self.position = next;
        proof { lemma_ring_write(old_buffer, position as int, sample); }
    }

    /// The delay of the line in samples.
    pub fn len(&self) -> (n: usize)
        ensures
            n == self@.len(),
            n > 0,
    {
        proof { use_type_invariant(self); }
        self.buffer.len()
    }
}

/// The per-channel parameters of a delay.
#[derive(Debug, Clone, Copy, PartialEq, Eq, Structural)]
pub enum DelayParameter {
    DelayTime,
    Feedback,
    Mix,
}

/// The delay parameter that `id` names, if any.
pub open spec fn spec_delay_parameter(id: ParameterId) -> Option<DelayParameter> {
    match id {
        ParameterId::DelayTime => Some(DelayParameter::DelayTime),
        ParameterId::Feedback => Some(DelayParameter::Feedback),
        ParameterId::Mix => Some(DelayParameter::Mix),
        _ => None,
    }
}

/// How a delay answers a read of `address` when it has `line_count` delay
/// lines, `feedback_count` feedback amounts and `mix_count` mix amounts:
/// the target must name a channel, and that channel must exist for a
/// parameter the delay has; other parameters read as absent.
pub open spec fn spec_delay_read(
    address: ParameterAddress,
    line_count: usize,
    feedback_count: usize,
    mix_count: usize,
) -> Result<Option<(DelayParameter, usize)>, ParameterError> {
    match address.target {
        ParameterTarget::Global => Err(
            ParameterError::InvalidTarget { id: address.id, target: address.target },
        ),
        ParameterTarget::Channel(channel) => match spec_delay_parameter(address.id) {
            None => Ok(None),
            Some(parameter) => {
                let count = match parameter {
                    DelayParameter::DelayTime => line_count,
                    DelayParameter::Feedback => feedback_count,
                    DelayParameter::Mix => mix_count,
                };
                if channel < count {
                    Ok(Some((parameter, channel)))
                } else {
                    Err(ParameterError::ChannelOutOfRange { channel, channel_count: count })
                }
            },
        },
    }
}

/// How a delay answers a write to `address`: the target must name a
/// channel, and the parameter must be one the delay has.
pub open spec fn spec_delay_write(address: ParameterAddress) -> Result<(DelayParameter, usize), ParameterError> {
    match address.target {
        ParameterTarget::Global => Err(
            ParameterError::InvalidTarget { id: address.id, target: address.target },
        ),
        ParameterTarget::Channel(channel) => match spec_delay_parameter(address.id) {
            None => Err(ParameterError::UnknownParameter(address.id)),
            Some(parameter) => Ok((parameter, channel)),
        },
    }
}

/// A delay read reaches the stored value of exactly the parameter and
/// channel asked for: a successful read names the requested parameter and the
/// requested channel, and a read of an existing channel of a delay parameter
/// always succeeds.
pub proof fn lemma_delay_read_names_requested_parameter(
    address: ParameterAddress,
    line_count: usize,
    feedback_count: usize,
    mix_count: usize,
)
    ensures
        spec_delay_read(address, line_count, feedback_count, mix_count) matches Ok(Some((parameter, channel))) ==> {
            &&& address.target == ParameterTarget::Channel(channel)
            &&& (parameter == DelayParameter::DelayTime <==> address.id == ParameterId::DelayTime)
            &&& (parameter == DelayParameter::Feedback <==> address.id == ParameterId::Feedback)
            &&& (parameter == DelayParameter::Mix <==> address.id == ParameterId::Mix)
        },
        forall|channel: usize| #![auto] address.target == ParameterTarget::Channel(channel) && address.id == ParameterId::Feedback
            && channel < feedback_count ==> spec_delay_read(address, line_count, feedback_count, mix_count)
            == Ok::<Option<(DelayParameter, usize)>, ParameterError>(Some((DelayParameter::Feedback, channel))),
        forall|channel: usize| #![auto] address.target == ParameterTarget::Channel(channel) && address.id == ParameterId::DelayTime
            && channel < line_count ==> spec_delay_read(address, line_count, feedback_count, mix_count)
            == Ok::<Option<(DelayParameter, usize)>, ParameterError>(Some((DelayParameter::DelayTime, channel))),
        forall|channel: usize| #![auto] address.target == ParameterTarget::Channel(channel) && address.id == ParameterId::Mix
            && channel < mix_count ==> spec_delay_read(address, line_count, feedback_count, mix_count)
            == Ok::<Option<(DelayParameter, usize)>, ParameterError>(Some((DelayParameter::Mix, channel))),
        forall|channel: usize| #![auto] address.target == ParameterTarget::Channel(channel) && address.id == ParameterId::DelayTime
            && channel >= line_count ==> spec_delay_read(address, line_count, feedback_count, mix_count) == Err::<Option<(DelayParameter, usize)>, ParameterError>(
            ParameterError::ChannelOutOfRange { channel, channel_count: line_count }),
        forall|channel: usize| #![auto] address.target == ParameterTarget::Channel(channel) && address.id == ParameterId::Feedback
            && channel >= feedback_count ==> spec_delay_read(address, line_count, feedback_count, mix_count) == Err::<Option<(DelayParameter, usize)>, ParameterError>(
            ParameterError::ChannelOutOfRange { channel, channel_count: feedback_count }),
        forall|channel: usize| #![auto] address.target == ParameterTarget::Channel(channel) && address.id == ParameterId::Mix
            && channel >= mix_count ==> spec_delay_read(address, line_count, feedback_count, mix_count) == Err::<Option<(DelayParameter, usize)>, ParameterError>(
            ParameterError::ChannelOutOfRange { channel, channel_count: mix_count }),
        address.target == ParameterTarget::Global ==> spec_delay_read(address, line_count, feedback_count, mix_count) == Err::<Option<(DelayParameter, usize)>, ParameterError>(
            ParameterError::InvalidTarget { id: address.id, target: address.target }),
        address.target is Channel && address.id != ParameterId::DelayTime && address.id != ParameterId::Feedback
            && address.id != ParameterId::Mix ==> spec_delay_read(address, line_count, feedback_count, mix_count) == Ok::<Option<(DelayParameter, usize)>, ParameterError>(None),
{
}

/// A delay write goes to exactly the parameter and channel asked for, and a
/// read that succeeds for an address names the same slot a write to that
/// address fills.
pub proof fn lemma_delay_write_names_requested_parameter(
    address: ParameterAddress,
    line_count: usize,
    feedback_count: usize,
    mix_count: usize,
)
    ensures
        spec_delay_write(address) matches Ok((parameter, channel)) ==> {
            &&& address.target == ParameterTarget::Channel(channel)
            &&& (parameter == DelayParameter::DelayTime <==> address.id == ParameterId::DelayTime)
            &&& (parameter == DelayParameter::Feedback <==> address.id == ParameterId::Feedback)
            &&& (parameter == DelayParameter::Mix <==> address.id == ParameterId::Mix)
        },
        forall|channel: usize| #![auto] address.target == ParameterTarget::Channel(channel) && address.id == ParameterId::Feedback
            ==> spec_delay_write(address) == Ok::<(DelayParameter, usize), ParameterError>(
            (DelayParameter::Feedback, channel)),
        spec_delay_read(address, line_count, feedback_count, mix_count) matches Ok(Some(slot))
            ==> spec_delay_write(address) == Ok::<(DelayParameter, usize), ParameterError>(slot),
        address.target == ParameterTarget::Global ==> spec_delay_write(address) == Err::<(DelayParameter, usize), ParameterError>(
            ParameterError::InvalidTarget { id: address.id, target: address.target }),
        address.target is Channel && address.id != ParameterId::DelayTime && address.id != ParameterId::Feedback
            && address.id != ParameterId::Mix ==> spec_delay_write(address) == Err::<(DelayParameter, usize), ParameterError>(
            ParameterError::UnknownParameter(address.id)),
{
}

/// Which stored value a read of a delay parameter refers to: the
/// parameter and the channel, `None` for a parameter the delay does not have.
pub fn locate_delay_parameter_read(
    address: ParameterAddress,
    line_count: usize,
    feedback_count: usize,
    mix_count: usize,
) -> (slot: Result<Option<(DelayParameter, usize)>, ParameterError>)
    ensures
        slot == spec_delay_read(address, line_count, feedback_count, mix_count),
        slot matches Ok(Some((parameter, channel))) ==> {
            &&& address.target == ParameterTarget::Channel(channel)
            &&& (parameter == DelayParameter::DelayTime <==> address.id == ParameterId::DelayTime)
            &&& (parameter == DelayParameter::Feedback <==> address.id == ParameterId::Feedback)
            &&& (parameter == DelayParameter::Mix <==> address.id == ParameterId::Mix)
        },
        forall|channel: usize| #![auto] address.target == ParameterTarget::Channel(channel) && address.id == ParameterId::DelayTime
            && channel < line_count ==> slot == Ok::<Option<(DelayParameter, usize)>, ParameterError>(
            Some((DelayParameter::DelayTime, channel))),
        forall|channel: usize| #![auto] address.target == ParameterTarget::Channel(channel) && address.id == ParameterId::Feedback
            && channel < feedback_count ==> slot == Ok::<Option<(DelayParameter, usize)>, ParameterError>(
            Some((DelayParameter::Feedback, channel))),
        forall|channel: usize| #![auto] address.target == ParameterTarget::Channel(channel) && address.id == ParameterId::Mix
            && channel < mix_count ==> slot == Ok::<Option<(DelayParameter, usize)>, ParameterError>(
            Some((DelayParameter::Mix, channel))),
        forall|channel: usize| #![auto] address.target == ParameterTarget::Channel(channel) && address.id == ParameterId::DelayTime
            && channel >= line_count ==> slot == Err::<Option<(DelayParameter, usize)>, ParameterError>(
            ParameterError::ChannelOutOfRange { channel, channel_count: line_count }),
        forall|channel: usize| #![auto] address.target == ParameterTarget::Channel(channel) && address.id == ParameterId::Feedback
            && channel >= feedback_count ==> slot == Err::<Option<(DelayParameter, usize)>, ParameterError>(
            ParameterError::ChannelOutOfRange { channel, channel_count: feedback_count }),
        forall|channel: usize| #![auto] address.target == ParameterTarget::Channel(channel) && address.id == ParameterId::Mix
            && channel >= mix_count ==> slot == Err::<Option<(DelayParameter, usize)>, ParameterError>(
            ParameterError::ChannelOutOfRange { channel, channel_count: mix_count }),
        address.target == ParameterTarget::Global ==> slot == Err::<Option<(DelayParameter, usize)>, ParameterError>(
            ParameterError::InvalidTarget { id: address.id, target: address.target }),
        address.target is Channel && address.id != ParameterId::DelayTime && address.id != ParameterId::Feedback
            && address.id != ParameterId::Mix ==> slot == Ok::<Option<(DelayParameter, usize)>, ParameterError>(None),
{
    let channel = validate_has_channels(address)?;
    match address.id {
        ParameterId::DelayTime => {
            validate_channel_exists(line_count, channel)?;
            Ok(Some((DelayParameter::DelayTime, channel)))
        },
        ParameterId::Feedback => {
            validate_channel_exists(feedback_count, channel)?;
            Ok(Some((DelayParameter::Feedback, channel)))
        },
        ParameterId::Mix => {
            validate_channel_exists(mix_count, channel)?;
            Ok(Some((DelayParameter::Mix, channel)))
        },
        _ => Ok(None),
    }
}

/// Which stored value a write of a delay parameter goes to. The value itself
/// is checked against the parameter's bounds by the caller.
pub fn locate_delay_parameter_write(address: ParameterAddress) -> (slot: Result<(DelayParameter, usize), ParameterError>)
    ensures
        slot == spec_delay_write(address),
        slot matches Ok((parameter, channel)) ==> {
            &&& address.target == ParameterTarget::Channel(channel)
            &&& (parameter == DelayParameter::DelayTime <==> address.id == ParameterId::DelayTime)
            &&& (parameter == DelayParameter::Feedback <==> address.id == ParameterId::Feedback)
            &&& (parameter == DelayParameter::Mix <==> address.id == ParameterId::Mix)
        },
        forall|channel: usize| #![auto] address.target == ParameterTarget::Channel(channel) && address.id == ParameterId::Feedback
            ==> slot == Ok::<(DelayParameter, usize), ParameterError>((DelayParameter::Feedback, channel)),
        forall|channel: usize| #![auto] address.target == ParameterTarget::Channel(channel) && address.id == ParameterId::DelayTime
            ==> slot == Ok::<(DelayParameter, usize), ParameterError>((DelayParameter::DelayTime, channel)),
        forall|channel: usize| #![auto] address.target == ParameterTarget::Channel(channel) && address.id == ParameterId::Mix
            ==> slot == Ok::<(DelayParameter, usize), ParameterError>((DelayParameter::Mix, channel)),
        address.target == ParameterTarget::Global ==> slot == Err::<(DelayParameter, usize), ParameterError>(
            ParameterError::InvalidTarget { id: address.id, target: address.target }),
        address.target is Channel && address.id != ParameterId::DelayTime && address.id != ParameterId::Feedback
            && address.id != ParameterId::Mix ==> slot == Err::<(DelayParameter, usize), ParameterError>(
            ParameterError::UnknownParameter(address.id)),
{
    let channel = validate_has_channels(address)?;
    match address.id {
        ParameterId::DelayTime => Ok((DelayParameter::DelayTime, channel)),
        ParameterId::Feedback => Ok((DelayParameter::Feedback, channel)),
        ParameterId::Mix => Ok((DelayParameter::Mix, channel)),
        _ => Err(ParameterError::UnknownParameter(address.id)),
    }
}

} // verus!
