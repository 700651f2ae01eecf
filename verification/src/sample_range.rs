use vstd::prelude::*;
use vstd::arithmetic::power2::pow2;

verus! {

/// The bit depth that a requested depth is clamped to: between 1 and 32.
pub open spec fn clamped_bit_depth(bit_depth: u16) -> nat {
    if bit_depth < 1 {
        1
    } else if bit_depth > 32 {
        32
    } else {
        bit_depth as nat
    }
}

/// The smallest signed PCM sample of the given (clamped) bit depth.
pub open spec fn spec_min_sample(bit_depth: u16) -> int {
    -(pow2((clamped_bit_depth(bit_depth) - 1) as nat) as int)
}

/// The largest signed PCM sample of the given (clamped) bit depth.
pub open spec fn spec_max_sample(bit_depth: u16) -> int {
    pow2((clamped_bit_depth(bit_depth) - 1) as nat) - 1
}

/// Every depth gives a range of two's-complement samples: one more negative
/// value than positive ones, zero inside, and within the `i32` samples; a
/// deeper depth never gives a narrower range.
pub proof fn lemma_sample_range_bounds(bit_depth: u16, deeper: u16)
    ensures
        spec_min_sample(bit_depth) == -(spec_max_sample(bit_depth) + 1),
        i32::MIN <= spec_min_sample(bit_depth) < 0 <= spec_max_sample(bit_depth) <= i32::MAX,
        clamped_bit_depth(bit_depth) <= clamped_bit_depth(deeper) ==> spec_max_sample(bit_depth)
            <= spec_max_sample(deeper),
{
    let b = (clamped_bit_depth(bit_depth) - 1) as nat;
    let d = (clamped_bit_depth(deeper) - 1) as nat;
    vstd::arithmetic::power2::lemma2_to64();
    vstd::arithmetic::power2::lemma_pow2_pos(b);
    if b < 31 {
        vstd::arithmetic::power2::lemma_pow2_strictly_increases(b, 31);
    }
    if b < d {
        vstd::arithmetic::power2::lemma_pow2_strictly_increases(b, d);
    }
}

/// Depths from 1 to 32 are kept as they are, the others clamped to the
/// nearest end; each further bit doubles the number of positive samples, so
/// a depth of `b` bits spans `-2^(b-1) ..= 2^(b-1) - 1`.
pub proof fn lemma_sample_range_of_depth(bit_depth: u16)
    ensures
        1 <= bit_depth <= 32 ==> clamped_bit_depth(bit_depth) == bit_depth,
        bit_depth == 0 ==> clamped_bit_depth(bit_depth) == 1,
        bit_depth > 32 ==> clamped_bit_depth(bit_depth) == 32,
        1 <= bit_depth <= 32 ==> spec_max_sample(bit_depth) == pow2((bit_depth - 1) as nat) - 1
            && spec_min_sample(bit_depth) == -(pow2((bit_depth - 1) as nat) as int),
        1 <= bit_depth < 32 ==> spec_max_sample((bit_depth + 1) as u16) + 1 == 2 * (spec_max_sample(bit_depth) + 1),
        spec_max_sample(1) == 0 && spec_min_sample(1) == -1,
        bit_depth > 32 ==> spec_max_sample(bit_depth) == i32::MAX && spec_min_sample(bit_depth) == i32::MIN,
{
    vstd::arithmetic::power2::lemma2_to64();
    if 1 <= bit_depth < 32 {
        vstd::arithmetic::power2::lemma_pow2_adds((bit_depth - 1) as nat, 1);
    }
}

/// The range of signed PCM sample values for a bit depth.
#[derive(Copy, Clone, Debug, PartialEq, Eq, Structural)]
pub struct SampleRange {
    pub min_sample: i64,
    pub max_sample: i64,
}

impl SampleRange {
    /// The range of a `bit_depth`-bit signed sample, the depth first clamped
    /// to `1..=32`: `-2^(b-1) ..= 2^(b-1) - 1`.
    pub fn new(bit_depth: u16) -> (range: Self)
        ensures
            range.min_sample == spec_min_sample(bit_depth),
            range.max_sample == spec_max_sample(bit_depth),
            1 <= bit_depth <= 32 ==> range.max_sample == pow2((bit_depth - 1) as nat) - 1
                && range.min_sample == -(pow2((bit_depth - 1) as nat) as int),
            bit_depth == 0 ==> range.min_sample == -1 && range.max_sample == 0,
            bit_depth > 32 ==> range.min_sample == i32::MIN && range.max_sample == i32::MAX,
    {
        let bits: u32 = if bit_depth < 1 {
            1
        } else if bit_depth > 32 {
            32
        } else {
            bit_depth as u32
        };
        let shift: u64 = (bits - 1) as u64;
        proof {
            vstd::arithmetic::power2::lemma2_to64();
            assert(pow2(shift as nat) <= 0x8000_0000) by {
                if shift < 31 {
                    vstd::arithmetic::power2::lemma_pow2_strictly_increases(shift as nat, 31);
                }
            }
            vstd::bits::lemma_u64_shl_is_mul(1, shift);
        }
        let magnitude: u64 = 1u64 << shift;
        proof { lemma_sample_range_of_depth(bit_depth); }
        SampleRange { min_sample: -(magnitude as i64), max_sample: (magnitude as i64) - 1 }
    }
}

} // verus!
