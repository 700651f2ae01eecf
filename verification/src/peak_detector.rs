use vstd::prelude::*;
use crate::sample_range::SampleRange;

verus! {

/// The magnitude of a sample, widened so that `i32::MIN` has one.
pub open spec fn magnitude(sample: i32) -> int {
    if sample < 0 { -sample } else { sample as int }
}

/// The largest magnitude among `samples`, 0 for none.
pub open spec fn max_magnitude(samples: Seq<i32>) -> int
    decreases samples.len(),
{
    if samples.len() == 0 {
        0
    } else {
        let rest = max_magnitude(samples.drop_last());
        let last = magnitude(samples.last());
        if rest < last { last } else { rest }
    }
}

/// The magnitude of a sample is its absolute value: never below the sample
/// nor below its negation, and equal to one of them.
pub proof fn lemma_magnitude_is_absolute_value(sample: i32)
    ensures
        magnitude(sample) >= 0,
        magnitude(sample) >= sample,
        magnitude(sample) >= -sample,
        magnitude(sample) == sample || magnitude(sample) == -sample,
{
}

proof fn lemma_magnitude_is_absolute_value_all()
    ensures
        forall|s: i32| #[trigger] magnitude(s) >= s && magnitude(s) >= -s
            && (magnitude(s) == s || magnitude(s) == -s),
{
}

/// `max_magnitude` is the maximum: no sample exceeds it, and it is the
/// magnitude of one of the samples unless there are none.
pub proof fn lemma_max_magnitude_is_maximum(samples: Seq<i32>)
    ensures
        forall|i: int| 0 <= i < samples.len() ==> magnitude(#[trigger] samples[i]) <= max_magnitude(samples),
        samples.len() == 0 ==> max_magnitude(samples) == 0,
        samples.len() > 0 ==> exists|i: int| 0 <= i < samples.len()
            && max_magnitude(samples) == magnitude(#[trigger] samples[i]),
        0 <= max_magnitude(samples) <= 0x8000_0000,
        forall|i: int| 0 <= i < samples.len() ==> #[trigger] samples[i] <= max_magnitude(samples)
            && -samples[i] <= max_magnitude(samples),
        samples.len() > 0 ==> exists|i: int| 0 <= i < samples.len()
            && (max_magnitude(samples) == #[trigger] samples[i] || max_magnitude(samples) == -samples[i]),
    decreases samples.len(),
{
    lemma_magnitude_is_absolute_value_all();
    if samples.len() > 0 {
        let rest = samples.drop_last();
        lemma_max_magnitude_is_maximum(rest);
        assert forall|i: int| 0 <= i < samples.len() implies magnitude(#[trigger] samples[i]) <= max_magnitude(samples) by {
            if i < samples.len() - 1 {
                assert(samples[i] == rest[i]);
            }
        }
        if max_magnitude(rest) < magnitude(samples.last()) || rest.len() == 0 {
            assert(max_magnitude(samples) == magnitude(samples[samples.len() - 1]));
        } else {
            let j = choose|j: int| 0 <= j < rest.len() && max_magnitude(rest) == magnitude(#[trigger] rest[j]);
            assert(samples[j] == rest[j]);
        }
    }
}

/// Feeding samples one at a time gives the same peak as looking at all of
/// them at once: the peak of a run extended by one sample is the larger of
/// the run's peak and that sample's magnitude.
pub proof fn lemma_peak_of_extended_run(samples: Seq<i32>, sample: i32)
    ensures
        max_magnitude(samples.push(sample)) == if max_magnitude(samples) < magnitude(sample) {
            magnitude(sample)
        } else {
            max_magnitude(samples)
        },
{
    assert(samples.push(sample).drop_last() =~= samples);
}

/// A gain that scales the loudest sample to full scale, kept as the exact
/// ratio `numerator / denominator`.
#[derive(Debug, Clone, Copy, PartialEq, Eq, Structural)]
pub struct GainRatio {
    pub numerator: i64,
    pub denominator: i64,
}

/// Why no normalising gain exists.
#[derive(Debug, Clone, Copy, PartialEq, Eq, Structural)]
pub enum PeakError {
    /// Every sample seen was silent, so no gain brings the peak to full scale.
    ZeroPeak,
}

/// The running peak magnitude of a stream of samples.
pub struct PeakDetect {
    peak: i64,
}

impl View for PeakDetect {
    type V = int;

    /// The largest magnitude seen so far.
    closed spec fn view(&self) -> int {
        self.peak as int
    }
}

impl PeakDetect {
    #[verifier::type_invariant]
    spec fn well_formed(self) -> bool {
        0 <= self.peak <= 0x8000_0000
    }

    /// The peak of the whole of `samples`.
    pub fn new(samples: &[i32]) -> (detector: Self)
        ensures
            detector@ == max_magnitude(samples@),
            forall|i: int| 0 <= i < samples@.len() ==> #[trigger] samples@[i] <= detector@
                && -samples@[i] <= detector@,
            samples@.len() > 0 ==> exists|i: int| 0 <= i < samples@.len()
                && (detector@ == #[trigger] samples@[i] || detector@ == -samples@[i]),
            samples@.len() == 0 ==> detector@ == 0,
    {
        let mut peak: i64 = 0;
        let mut i: usize = 0;
        while i < samples.len()
            invariant
                i <= samples@.len(),
                peak == max_magnitude(samples@.take(i as int)),
            decreases samples@.len() - i,
        {
            let sample: i32 = samples[i];
            let magnitude: i64 = if sample < 0 { -(sample as i64) } else { sample as i64 };
            proof {
                assert(samples@.take(i as int + 1).drop_last() =~= samples@.take(i as int));
                lemma_max_magnitude_is_maximum(samples@.take(i as int));
            }
            if magnitude > peak {
                peak = magnitude;
            }
            i = i + 1;
        }
        proof {
            assert(samples@.take(i as int) =~= samples@);
            lemma_max_magnitude_is_maximum(samples@);
        }
        PeakDetect { peak }
    }

    /// Takes one more sample into account.
    pub fn peak_detect(&mut self, sample: i32)
        ensures
            final(self)@ == if old(self)@ < magnitude(sample) { magnitude(sample) } else { old(self)@ },
            final(self)@ >= old(self)@,
            final(self)@ >= sample,
            final(self)@ >= -sample,
            final(self)@ == old(self)@ || final(self)@ == sample || final(self)@ == -sample,
    {
        proof { use_type_invariant(&*self); lemma_magnitude_is_absolute_value(sample); }
        let magnitude: i64 = if sample < 0 { -(sample as i64) } else { sample as i64 };
        if magnitude > self.peak {
            self.peak = magnitude;
        }
    }

    /// The largest magnitude seen so far.
    pub fn peak(&self) -> (peak: i64)
        ensures
            peak == self@,
            0 <= peak <= 0x8000_0000,
    {
        proof { use_type_invariant(self); }
        self.peak
    }

    /// The gain `range.max_sample / peak` that brings the peak to full scale;
    /// refused while the peak is zero.
    pub fn normalised_gain(&self, range: SampleRange) -> (gain: Result<GainRatio, PeakError>)
        ensures
            self@ == 0 ==> gain == Err::<GainRatio, PeakError>(PeakError::ZeroPeak),
            self@ != 0 ==> gain == Ok::<GainRatio, PeakError>(
                GainRatio { numerator: range.max_sample, denominator: self@ as i64 },
            ),
    {
        proof { use_type_invariant(self); }
        if self.peak == 0 {
            return Err(PeakError::ZeroPeak);
        }
        Ok(GainRatio { numerator: range.max_sample, denominator: self.peak })
    }
}

} // verus!
